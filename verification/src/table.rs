//! Decisions of the process-table widget that do not touch telemetry:
//! which column it sorts by, and the trimming of a debug-printed command
//! line for display.

use vstd::prelude::*;

verus! {

/// The column the process table is sorted by.
#[derive(Clone, Copy, PartialEq, Eq, Structural, Debug)]
pub enum SortColumn {
    Cpu,
    Memory,
}

/// The sort column the table swaps to on its periodic rotation.
pub fn next_sort_column(c: SortColumn) -> (r: SortColumn)
    ensures
        c is Cpu <==> r is Memory,
{
    match c {
        SortColumn::Cpu => SortColumn::Memory,
        SortColumn::Memory => SortColumn::Cpu,
    }
}

/// The first and last characters removed, then at most `num` characters
/// kept: what `rem_first_and_last` leaves of a string.
pub open spec fn rem_first_and_last_spec(s: Seq<char>, num: int) -> Seq<char> {
    if s.len() <= 1 {
        Seq::<char>::empty()
    } else {
        let body = s.len() - 2;
        let keep = if num <= body {
            num
        } else {
            body
        };
        s.subrange(1, 1 + keep)
    }
}

/// Strips the first and last characters of a string and keeps at most
/// `num` of what remains.
pub fn rem_first_and_last(value: String, num: usize) -> (r: String)
    ensures
        r@ == rem_first_and_last_spec(value@, num as int),
{
    let n = value.as_str().unicode_len();
    if n <= 1 {
        return String::new();
    }
    let body = n - 2;
    let keep = if num <= body {
        num
    } else {
        body
    };
    let r = value.as_str().substring_char(1, 1 + keep).to_owned();
    r
}

} // verus!
