//! The pane configuration grammar.
//!
//! A pane tree is written as a JSON document of a small fixed shape:
//!
//! ```text
//! Leaf:  { "kind": "Leaf", "pane_type": <name>, "corners": [c0, c1, c2, c3] }
//! Split: { "kind": "Split", "direction": "H" | "V", "bias": <number>,
//!          "a": <pane>, "b": <pane> }
//! ```
//!
//! The grammar is deliberately minimal: the `"kind"` tag leads each
//! object, the remaining members may come in any order but not twice,
//! strings carry no escape sequences, and numbers are unsigned decimals
//! (at most seven integer digits) read at a resolution of thousandths —
//! exactly the precision the layout's bias uses.  Anything outside the
//! grammar fails the load, and the host treats that as fatal at startup.
//!
//! Every parsing function is mirrored by a specification function, so
//! which documents load, and to which tree, is pinned exactly.

use vstd::prelude::*;

use crate::geometry::CornerTypes;
use crate::panes::{create_pane_instance, Pane, PaneInstance, PaneType, SplitType};

verus! {

pub open spec fn is_ws_char(c: char) -> bool {
    c == ' ' || c == '\t' || c == '\n' || c == '\r'
}

/// First index at or after `i` holding a non-whitespace character, or the
/// end of the text.
pub open spec fn skip_ws_spec(s: Seq<char>, i: int) -> int
    decreases s.len() - i,
{
    if 0 <= i < s.len() && is_ws_char(s[i]) {
        skip_ws_spec(s, i + 1)
    } else {
        i
    }
}

fn is_ws_at(s: &str, j: usize) -> (b: bool)
    requires
        j < s@.len(),
    ensures
        b == is_ws_char(s@[j as int]),
{
    let c = s.get_char(j);
    c == ' ' || c == '\t' || c == '\n' || c == '\r'
}

fn skip_ws(s: &str, i: usize) -> (r: usize)
    requires
        i <= s@.len(),
    ensures
        r as int == skip_ws_spec(s@, i as int),
        i <= r <= s@.len(),
{
    let n = s.unicode_len();
    let mut j = i;
    while j < n && is_ws_at(s, j)
        invariant
            i <= j <= n,
            n == s@.len(),
            skip_ws_spec(s@, i as int) == skip_ws_spec(s@, j as int),
        decreases n - j,
    {
        j = j + 1;
    }
    j
}

/// Index of the next quote character at or after `j`, if any.
pub open spec fn find_quote(s: Seq<char>, j: int) -> Option<int>
    decreases s.len() - j,
{
    if 0 <= j < s.len() {
        if s[j] == '"' {
            Option::Some(j)
        } else {
            find_quote(s, j + 1)
        }
    } else {
        Option::None
    }
}

/// A string literal at `i`: a quote, any characters, a closing quote.
/// Escapes are not part of the grammar.  Yields the content and the index
/// after the closing quote.
pub open spec fn parse_string_at(s: Seq<char>, i: int) -> Option<(Seq<char>, int)> {
    if 0 <= i < s.len() && s[i] == '"' {
        match find_quote(s, i + 1) {
            Option::Some(q) => Option::Some((s.subrange(i + 1, q), q + 1)),
            Option::None => Option::None,
        }
    } else {
        Option::None
    }
}

fn parse_string(s: &str, i: usize) -> (r: Option<(String, usize)>)
    requires
        i <= s@.len(),
    ensures
        r is None ==> parse_string_at(s@, i as int) is None,
        r is Some ==> parse_string_at(s@, i as int) == Option::Some(
            (r.unwrap().0@, r.unwrap().1 as int),
        ),
        r is Some ==> i < r.unwrap().1 <= s@.len(),
{
    let n = s.unicode_len();
    if !(i < n && s.get_char(i) == '"') {
        return None;
    }
    let mut j = i + 1;
    while j < n && s.get_char(j) != '"'
        invariant
            i + 1 <= j <= n,
            n == s@.len(),
            find_quote(s@, i as int + 1) == find_quote(s@, j as int),
        decreases n - j,
    {
        j = j + 1;
    }
    if j == n {
        return None;
    }
    let content = s.substring_char(i + 1, j).to_owned();
    Some((content, j + 1))
}

pub open spec fn is_digit_char(c: char) -> bool {
    match c {
        '0' | '1' | '2' | '3' | '4' | '5' | '6' | '7' | '8' | '9' => true,
        _ => false,
    }
}

pub open spec fn digit_val(c: char) -> int {
    match c {
        '0' => 0,
        '1' => 1,
        '2' => 2,
        '3' => 3,
        '4' => 4,
        '5' => 5,
        '6' => 6,
        '7' => 7,
        '8' => 8,
        '9' => 9,
        _ => 0,
    }
}

fn digit_val_exec(c: char) -> (d: u8)
    requires
        is_digit_char(c),
    ensures
        d as int == digit_val(c),
        d <= 9,
{
    match c {
        '0' => 0,
        '1' => 1,
        '2' => 2,
        '3' => 3,
        '4' => 4,
        '5' => 5,
        '6' => 6,
        '7' => 7,
        '8' => 8,
        _ => 9,
    }
}

/// First index at or after `j` holding a non-digit, or the end of the text.
pub open spec fn digits_end(s: Seq<char>, j: int) -> int
    decreases s.len() - j,
{
    if 0 <= j < s.len() && is_digit_char(s[j]) {
        digits_end(s, j + 1)
    } else {
        j
    }
}

/// Value of the digit run `s[i..j)`.
pub open spec fn digits_val(s: Seq<char>, i: int, j: int) -> int
    decreases j - i,
{
    if i >= j {
        0
    } else {
        digits_val(s, i, j - 1) * 10 + digit_val(s[j - 1])
    }
}

pub open spec fn pow10(n: int) -> int
    decreases n,
{
    if n <= 0 {
        1
    } else {
        10 * pow10(n - 1)
    }
}

proof fn lemma_digits_val_bound(s: Seq<char>, i: int, j: int)
    requires
        i <= j,
    ensures
        0 <= digits_val(s, i, j) < pow10(j - i),
    decreases j - i,
{
    if i < j {
        lemma_digits_val_bound(s, i, j - 1);
        assert(digits_val(s, i, j - 1) * 10 + 9 < pow10(j - i - 1) * 10) by (nonlinear_arith)
            requires
                0 <= digits_val(s, i, j - 1) < pow10(j - i - 1),
        {}
        assert(pow10(j - i) == 10 * pow10(j - i - 1));
        assert(pow10(j - i - 1) * 10 == 10 * pow10(j - i - 1)) by (nonlinear_arith);
        assert(0 <= digit_val(s[j - 1]) <= 9);
    }
}

proof fn lemma_pow10_vals()
    ensures
        pow10(0) == 1,
        pow10(1) == 10,
        pow10(2) == 100,
        pow10(3) == 1000,
{
    assert(pow10(0) == 1);
    assert(pow10(1) == 10);
    assert(pow10(2) == 100);
    assert(pow10(3) == 1000);
}

proof fn lemma_pow10_small(n: int)
    requires
        0 <= n <= 7,
    ensures
        pow10(n) <= 10_000_000,
{
    assert(pow10(0) == 1);
    assert(pow10(1) == 10);
    assert(pow10(2) == 100);
    assert(pow10(3) == 1000);
    assert(pow10(4) == 10000);
    assert(pow10(5) == 100000);
    assert(pow10(6) == 1000000);
    assert(pow10(7) == 10000000);
}

fn is_digit_at(s: &str, j: usize) -> (b: bool)
    requires
        j < s@.len(),
    ensures
        b == is_digit_char(s@[j as int]),
{
    let c = s.get_char(j);
    c == '0' || c == '1' || c == '2' || c == '3' || c == '4' || c == '5' || c == '6' || c == '7'
        || c == '8' || c == '9'
}

fn digits_end_exec(s: &str, i: usize) -> (r: usize)
    requires
        i <= s@.len(),
    ensures
        r as int == digits_end(s@, i as int),
        i <= r <= s@.len(),
{
    let n = s.unicode_len();
    let mut j = i;
    while j < n && is_digit_at(s, j)
        invariant
            i <= j <= n,
            n == s@.len(),
            digits_end(s@, i as int) == digits_end(s@, j as int),
        decreases n - j,
    {
        j = j + 1;
    }
    j
}

fn digits_val_exec(s: &str, i: usize, j: usize) -> (v: i64)
    requires
        i <= j <= s@.len(),
        j - i <= 7,
        forall|k: int| i <= k < j ==> is_digit_char(s@[k]),
    ensures
        v as int == digits_val(s@, i as int, j as int),
        0 <= v <= 9_999_999,
{
    proof {
        lemma_digits_val_bound(s@, i as int, j as int);
        lemma_pow10_small(j as int - i as int);
    }
    let mut v: i64 = 0;
    let mut k = i;
    while k < j
        invariant
            i <= k <= j <= s@.len(),
            j - i <= 7,
            forall|m: int| i <= m < j ==> is_digit_char(s@[m]),
            v as int == digits_val(s@, i as int, k as int),
            0 <= v <= 9_999_999,
        decreases j - k,
    {
        let c = s.get_char(k);
        let d = digit_val_exec(c);
        proof {
            lemma_digits_val_bound(s@, i as int, k as int + 1);
            lemma_pow10_small(k as int + 1 - i as int);
        }
        v = v * 10 + (d as i64);
        k = k + 1;
    }
    v
}

/// The fractional digits `s[i..j)` read at thousandth resolution: the
/// first three digits scaled into place, any further digits ignored.
pub open spec fn milli_frac(s: Seq<char>, i: int, j: int) -> int {
    let k = j - i;
    if k >= 3 {
        digits_val(s, i, i + 3)
    } else if k == 2 {
        digits_val(s, i, j) * 10
    } else if k == 1 {
        digits_val(s, i, j) * 100
    } else {
        0
    }
}

/// An unsigned decimal number at `i`, in thousandths: at least one and at
/// most seven integer digits, optionally a point followed by at least one
/// fractional digit.  Yields the value and the index after the number.
pub open spec fn parse_number_at(s: Seq<char>, i: int) -> Option<(int, int)> {
    let e = digits_end(s, i);
    if e == i || e - i > 7 {
        Option::None
    } else {
        let int_val = digits_val(s, i, e);
        if 0 <= e < s.len() && s[e] == '.' {
            let f = digits_end(s, e + 1);
            if f == e + 1 {
                Option::None
            } else {
                Option::Some((int_val * 1000 + milli_frac(s, e + 1, f), f))
            }
        } else {
            Option::Some((int_val * 1000, e))
        }
    }
}

/// The digit scan never moves backwards, and never past the end when it
/// starts inside the text.
proof fn lemma_digits_end_bounds(s: Seq<char>, i: int)
    ensures
        i <= digits_end(s, i),
        0 <= i <= s.len() ==> digits_end(s, i) <= s.len(),
    decreases s.len() - i,
{
    if 0 <= i < s.len() && is_digit_char(s[i]) {
        lemma_digits_end_bounds(s, i + 1);
    }
}

proof fn lemma_digits_end_digits(s: Seq<char>, i: int, k: int)
    requires
        0 <= i,
        i <= k < digits_end(s, i),
    ensures
        is_digit_char(s[k]),
        digits_end(s, i) <= s.len(),
    decreases k - i,
{
    if i < s.len() && is_digit_char(s[i]) {
        if k > i {
            lemma_digits_end_digits(s, i + 1, k);
        } else {
            lemma_digits_end_bounds(s, i + 1);
        }
    }
}

fn parse_number(s: &str, i: usize) -> (r: Option<(i64, usize)>)
    requires
        i <= s@.len(),
    ensures
        r is None ==> parse_number_at(s@, i as int) is None,
        r is Some ==> parse_number_at(s@, i as int) == Option::Some(
            (r.unwrap().0 as int, r.unwrap().1 as int),
        ),
        r is Some ==> i < r.unwrap().1 <= s@.len(),
        r is Some ==> 0 <= r.unwrap().0 <= 10_000_000_000,
{
    let n = s.unicode_len();
    let e = digits_end_exec(s, i);
    if e == i || e - i > 7 {
        return None;
    }
    proof {
        assert forall|k: int| i <= k < e implies is_digit_char(s@[k]) by {
            lemma_digits_end_digits(s@, i as int, k);
        }
    }
    let int_val = digits_val_exec(s, i, e);
    if e < n && s.get_char(e) == '.' {
        let f = digits_end_exec(s, e + 1);
        if f == e + 1 {
            return None;
        }
        proof {
            assert forall|k: int| e + 1 <= k < f implies is_digit_char(s@[k]) by {
                lemma_digits_end_digits(s@, e as int + 1, k);
            }
        }
        let frac: i64 = if f - (e + 1) >= 3 {
            let v = digits_val_exec(s, e + 1, e + 1 + 3);
            proof {
                lemma_digits_val_bound(s@, e as int + 1, e as int + 4);
                lemma_pow10_vals();
            }
            v
        } else if f - (e + 1) == 2 {
            let v = digits_val_exec(s, e + 1, f);
            proof {
                lemma_digits_val_bound(s@, e as int + 1, f as int);
                lemma_pow10_vals();
            }
            v * 10
        } else {
            let v = digits_val_exec(s, e + 1, f);
            proof {
                lemma_digits_val_bound(s@, e as int + 1, f as int);
                lemma_pow10_vals();
            }
            v * 100
        };
        Some((int_val * 1000 + frac, f))
    } else {
        Some((int_val * 1000, e))
    }
}

/// The index after `c` when `c` stands at `i`.
pub open spec fn expect_char(s: Seq<char>, i: int, c: char) -> Option<int> {
    if 0 <= i < s.len() && s[i] == c {
        Option::Some(i + 1)
    } else {
        Option::None
    }
}

fn expect_char_exec(s: &str, i: usize, c: char) -> (r: Option<usize>)
    requires
        i <= s@.len(),
    ensures
        r is None ==> expect_char(s@, i as int, c) is None,
        r is Some ==> expect_char(s@, i as int, c) == Option::Some(r.unwrap() as int),
        r is Some ==> i < r.unwrap() <= s@.len(),
{
    if i < s.unicode_len() && s.get_char(i) == c {
        Some(i + 1)
    } else {
        None
    }
}

/// The corner style a name denotes.
pub open spec fn corner_of_name(name: Seq<char>) -> Option<CornerTypes> {
    if name == "SQUARE"@ {
        Option::Some(CornerTypes::SQUARE)
    } else if name == "Ang30"@ {
        Option::Some(CornerTypes::Ang30)
    } else if name == "Ang45"@ {
        Option::Some(CornerTypes::Ang45)
    } else if name == "Ang60"@ {
        Option::Some(CornerTypes::Ang60)
    } else {
        Option::None
    }
}

fn corner_of_name_exec(name: &String) -> (r: Option<CornerTypes>)
    ensures
        r == corner_of_name(name@),
{
    if *name == String::from_str("SQUARE") {
        Some(CornerTypes::SQUARE)
    } else if *name == String::from_str("Ang30") {
        Some(CornerTypes::Ang30)
    } else if *name == String::from_str("Ang45") {
        Some(CornerTypes::Ang45)
    } else if *name == String::from_str("Ang60") {
        Some(CornerTypes::Ang60)
    } else {
        None
    }
}

/// The widget kind a name denotes.
pub open spec fn pane_type_of_name(name: Seq<char>) -> Option<PaneType> {
    if name == "Info"@ {
        Option::Some(PaneType::Info)
    } else if name == "CpuGraph"@ {
        Option::Some(PaneType::CpuGraph)
    } else if name == "MemGraph"@ {
        Option::Some(PaneType::MemGraph)
    } else if name == "NetGraph"@ {
        Option::Some(PaneType::NetGraph)
    } else if name == "DiskGraph"@ {
        Option::Some(PaneType::DiskGraph)
    } else if name == "ProcTable"@ {
        Option::Some(PaneType::ProcTable)
    } else if name == "No"@ {
        Option::Some(PaneType::No)
    } else {
        Option::None
    }
}

fn pane_type_of_name_exec(name: &String) -> (r: Option<PaneType>)
    ensures
        r == pane_type_of_name(name@),
{
    if *name == String::from_str("Info") {
        Some(PaneType::Info)
    } else if *name == String::from_str("CpuGraph") {
        Some(PaneType::CpuGraph)
    } else if *name == String::from_str("MemGraph") {
        Some(PaneType::MemGraph)
    } else if *name == String::from_str("NetGraph") {
        Some(PaneType::NetGraph)
    } else if *name == String::from_str("DiskGraph") {
        Some(PaneType::DiskGraph)
    } else if *name == String::from_str("ProcTable") {
        Some(PaneType::ProcTable)
    } else if *name == String::from_str("No") {
        Some(PaneType::No)
    } else {
        None
    }
}

/// The split direction a name denotes.
pub open spec fn direction_of_name(name: Seq<char>) -> Option<SplitType> {
    if name == "H"@ {
        Option::Some(SplitType::H)
    } else if name == "V"@ {
        Option::Some(SplitType::V)
    } else {
        Option::None
    }
}

fn direction_of_name_exec(name: &String) -> (r: Option<SplitType>)
    ensures
        r == direction_of_name(name@),
{
    if *name == String::from_str("H") {
        Some(SplitType::H)
    } else if *name == String::from_str("V") {
        Some(SplitType::V)
    } else {
        None
    }
}

/// One corner-style string of the corners list.
pub open spec fn parse_corner_item(s: Seq<char>, i: int) -> Option<(CornerTypes, int)> {
    match parse_string_at(s, i) {
        Option::None => Option::None,
        Option::Some((nm, p)) => match corner_of_name(nm) {
            Option::None => Option::None,
            Option::Some(c) => Option::Some((c, p)),
        },
    }
}

fn parse_corner_item_exec(s: &str, i: usize) -> (r: Option<(CornerTypes, usize)>)
    requires
        i <= s@.len(),
    ensures
        r is None ==> parse_corner_item(s@, i as int) is None,
        r is Some ==> parse_corner_item(s@, i as int) == Option::Some(
            (r.unwrap().0, r.unwrap().1 as int),
        ),
        r is Some ==> i < r.unwrap().1 <= s@.len(),
{
    match parse_string(s, i) {
        None => None,
        Some((nm, p)) => match corner_of_name_exec(&nm) {
            None => None,
            Some(c) => Some((c, p)),
        },
    }
}

/// The corners list: exactly four corner-style strings in brackets.
pub open spec fn parse_corners_at(s: Seq<char>, i: int) -> Option<
    ((CornerTypes, CornerTypes, CornerTypes, CornerTypes), int),
> {
    match expect_char(s, i, '[') {
        Option::None => Option::None,
        Option::Some(j0) => match parse_corner_item(s, skip_ws_spec(s, j0)) {
            Option::None => Option::None,
            Option::Some((c0, p0)) => match expect_char(s, skip_ws_spec(s, p0), ',') {
                Option::None => Option::None,
                Option::Some(j1) => match parse_corner_item(s, skip_ws_spec(s, j1)) {
                    Option::None => Option::None,
                    Option::Some((c1, p1)) => match expect_char(s, skip_ws_spec(s, p1), ',') {
                        Option::None => Option::None,
                        Option::Some(j2) => match parse_corner_item(s, skip_ws_spec(s, j2)) {
                            Option::None => Option::None,
                            Option::Some((c2, p2)) => match expect_char(
                                s,
                                skip_ws_spec(s, p2),
                                ',',
                            ) {
                                Option::None => Option::None,
                                Option::Some(j3) => match parse_corner_item(
                                    s,
                                    skip_ws_spec(s, j3),
                                ) {
                                    Option::None => Option::None,
                                    Option::Some((c3, p3)) => match expect_char(
                                        s,
                                        skip_ws_spec(s, p3),
                                        ']',
                                    ) {
                                        Option::None => Option::None,
                                        Option::Some(j4) => Option::Some(((c0, c1, c2, c3), j4)),
                                    },
                                },
                            },
                        },
                    },
                },
            },
        },
    }
}

fn parse_corners_exec(s: &str, i: usize) -> (r: Option<
    ((CornerTypes, CornerTypes, CornerTypes, CornerTypes), usize),
>)
    requires
        i <= s@.len(),
    ensures
        r is None ==> parse_corners_at(s@, i as int) is None,
        r is Some ==> parse_corners_at(s@, i as int) == Option::Some(
            (r.unwrap().0, r.unwrap().1 as int),
        ),
        r is Some ==> i < r.unwrap().1 <= s@.len(),
{
    let j0 = match expect_char_exec(s, i, '[') {
        None => {
            return None;
        },
        Some(j) => j,
    };
    let (c0, p0) = match parse_corner_item_exec(s, skip_ws(s, j0)) {
        None => {
            return None;
        },
        Some(x) => x,
    };
    let j1 = match expect_char_exec(s, skip_ws(s, p0), ',') {
        None => {
            return None;
        },
        Some(j) => j,
    };
    let (c1, p1) = match parse_corner_item_exec(s, skip_ws(s, j1)) {
        None => {
            return None;
        },
        Some(x) => x,
    };
    let j2 = match expect_char_exec(s, skip_ws(s, p1), ',') {
        None => {
            return None;
        },
        Some(j) => j,
    };
    let (c2, p2) = match parse_corner_item_exec(s, skip_ws(s, j2)) {
        None => {
            return None;
        },
        Some(x) => x,
    };
    let j3 = match expect_char_exec(s, skip_ws(s, p2), ',') {
        None => {
            return None;
        },
        Some(j) => j,
    };
    let (c3, p3) = match parse_corner_item_exec(s, skip_ws(s, j3)) {
        None => {
            return None;
        },
        Some(x) => x,
    };
    let j4 = match expect_char_exec(s, skip_ws(s, p3), ']') {
        None => {
            return None;
        },
        Some(j) => j,
    };
    Some(((c0, c1, c2, c3), j4))
}

/// The members of a leaf object after its kind tag: `pane_type` and
/// `corners`, in either order, each exactly once, then the closing brace.
pub open spec fn parse_leaf_members(
    s: Seq<char>,
    i: int,
    pt: Option<PaneType>,
    cs: Option<(CornerTypes, CornerTypes, CornerTypes, CornerTypes)>,
    depth: nat,
) -> Option<(Pane, int)>
    decreases depth,
{
    if depth == 0 {
        Option::None
    } else {
        let j = skip_ws_spec(s, i);
        if !(0 <= j < s.len()) {
            Option::None
        } else if s[j] == '}' {
            match (pt, cs) {
                (Option::Some(pt), Option::Some(c)) => Option::Some(
                    (Pane::Leaf { pane_type: pt, corners: [c.0, c.1, c.2, c.3] }, j + 1),
                ),
                _ => Option::None,
            }
        } else if s[j] == ',' {
            let k = skip_ws_spec(s, j + 1);
            match parse_string_at(s, k) {
                Option::None => Option::None,
                Option::Some((key, k2)) => {
                    let k3 = skip_ws_spec(s, k2);
                    match expect_char(s, k3, ':') {
                        Option::None => Option::None,
                        Option::Some(k4m) => {
                            let k4 = skip_ws_spec(s, k4m);
                            if key == "pane_type"@ {
                                if pt is Some {
                                    Option::None
                                } else {
                                    match parse_string_at(s, k4) {
                                        Option::None => Option::None,
                                        Option::Some((nm, k5)) => match pane_type_of_name(nm) {
                                            Option::None => Option::None,
                                            Option::Some(p) => parse_leaf_members(
                                                s,
                                                k5,
                                                Option::Some(p),
                                                cs,
                                                (depth - 1) as nat,
                                            ),
                                        },
                                    }
                                }
                            } else if key == "corners"@ {
                                if cs is Some {
                                    Option::None
                                } else {
                                    match parse_corners_at(s, k4) {
                                        Option::None => Option::None,
                                        Option::Some((c4, k5)) => parse_leaf_members(
                                            s,
                                            k5,
                                            pt,
                                            Option::Some(c4),
                                            (depth - 1) as nat,
                                        ),
                                    }
                                }
                            } else {
                                Option::None
                            }
                        },
                    }
                },
            }
        } else {
            Option::None
        }
    }
}

/// The members of a split object after its kind tag: `direction`, `bias`,
/// `a` and `b`, in any order, each exactly once, then the closing brace.
pub open spec fn parse_split_members(
    s: Seq<char>,
    i: int,
    dir: Option<SplitType>,
    bias: Option<int>,
    a: Option<Pane>,
    b: Option<Pane>,
    depth: nat,
) -> Option<(Pane, int)>
    decreases depth,
{
    if depth == 0 {
        Option::None
    } else {
        let j = skip_ws_spec(s, i);
        if !(0 <= j < s.len()) {
            Option::None
        } else if s[j] == '}' {
            match (dir, bias, a, b) {
                (
                    Option::Some(direction),
                    Option::Some(bias),
                    Option::Some(a),
                    Option::Some(b),
                ) => Option::Some(
                    (
                        Pane::Split {
                            direction,
                            bias: bias as i64,
                            a: Box::new(a),
                            b: Box::new(b),
                        },
                        j + 1,
                    ),
                ),
                _ => Option::None,
            }
        } else if s[j] == ',' {
            let k = skip_ws_spec(s, j + 1);
            match parse_string_at(s, k) {
                Option::None => Option::None,
                Option::Some((key, k2)) => {
                    let k3 = skip_ws_spec(s, k2);
                    match expect_char(s, k3, ':') {
                        Option::None => Option::None,
                        Option::Some(k4m) => {
                            let k4 = skip_ws_spec(s, k4m);
                            if key == "direction"@ {
                                if dir is Some {
                                    Option::None
                                } else {
                                    match parse_string_at(s, k4) {
                                        Option::None => Option::None,
                                        Option::Some((nm, k5)) => match direction_of_name(nm) {
                                            Option::None => Option::None,
                                            Option::Some(d) => parse_split_members(
                                                s,
                                                k5,
                                                Option::Some(d),
                                                bias,
                                                a,
                                                b,
                                                (depth - 1) as nat,
                                            ),
                                        },
                                    }
                                }
                            } else if key == "bias"@ {
                                if bias is Some {
                                    Option::None
                                } else {
                                    match parse_number_at(s, k4) {
                                        Option::None => Option::None,
                                        Option::Some((v, k5)) => parse_split_members(
                                            s,
                                            k5,
                                            dir,
                                            Option::Some(v),
                                            a,
                                            b,
                                            (depth - 1) as nat,
                                        ),
                                    }
                                }
                            } else if key == "a"@ {
                                if a is Some {
                                    Option::None
                                } else {
                                    match parse_pane_at(s, k4, (depth - 1) as nat) {
                                        Option::None => Option::None,
                                        Option::Some((pa, k5)) => parse_split_members(
                                            s,
                                            k5,
                                            dir,
                                            bias,
                                            Option::Some(pa),
                                            b,
                                            (depth - 1) as nat,
                                        ),
                                    }
                                }
                            } else if key == "b"@ {
                                if b is Some {
                                    Option::None
                                } else {
                                    match parse_pane_at(s, k4, (depth - 1) as nat) {
                                        Option::None => Option::None,
                                        Option::Some((pb, k5)) => parse_split_members(
                                            s,
                                            k5,
                                            dir,
                                            bias,
                                            a,
                                            Option::Some(pb),
                                            (depth - 1) as nat,
                                        ),
                                    }
                                }
                            } else {
                                Option::None
                            }
                        },
                    }
                },
            }
        } else {
            Option::None
        }
    }
}

/// A pane object at `i`: an opening brace, the `kind` tag first, then the
/// members of that kind.  The depth budget bounds nesting; it is drawn
/// from the document length, which nesting can never exhaust, since each
/// level consumes characters.
pub open spec fn parse_pane_at(s: Seq<char>, i: int, depth: nat) -> Option<(Pane, int)>
    decreases depth,
{
    if depth == 0 {
        Option::None
    } else {
        let j = skip_ws_spec(s, i);
        match expect_char(s, j, '{') {
            Option::None => Option::None,
            Option::Some(j1) => {
                let k = skip_ws_spec(s, j1);
                match parse_string_at(s, k) {
                    Option::None => Option::None,
                    Option::Some((key, k2)) => {
                        if key != "kind"@ {
                            Option::None
                        } else {
                            let k3 = skip_ws_spec(s, k2);
                            match expect_char(s, k3, ':') {
                                Option::None => Option::None,
                                Option::Some(k4m) => {
                                    let k4 = skip_ws_spec(s, k4m);
                                    match parse_string_at(s, k4) {
                                        Option::None => Option::None,
                                        Option::Some((kind, k5)) => {
                                            if kind == "Leaf"@ {
                                                parse_leaf_members(
                                                    s,
                                                    k5,
                                                    Option::None,
                                                    Option::None,
                                                    (depth - 1) as nat,
                                                )
                                            } else if kind == "Split"@ {
                                                parse_split_members(
                                                    s,
                                                    k5,
                                                    Option::None,
                                                    Option::None,
                                                    Option::None,
                                                    Option::None,
                                                    (depth - 1) as nat,
                                                )
                                            } else {
                                                Option::None
                                            }
                                        },
                                    }
                                },
                            }
                        }
                    },
                }
            },
        }
    }
}

fn parse_leaf_members_exec(
    s: &str,
    i: usize,
    pt: Option<PaneType>,
    cs: Option<(CornerTypes, CornerTypes, CornerTypes, CornerTypes)>,
    depth: usize,
) -> (r: Option<(Pane, usize)>)
    requires
        i <= s@.len(),
    ensures
        r is None ==> parse_leaf_members(s@, i as int, pt, cs, depth as nat) is None,
        r is Some ==> parse_leaf_members(s@, i as int, pt, cs, depth as nat) == Option::Some(
            (r.unwrap().0, r.unwrap().1 as int),
        ),
        r is Some ==> r.unwrap().1 <= s@.len(),
    decreases depth,
{
    if depth == 0 {
        return None;
    }
    let n = s.unicode_len();
    let j = skip_ws(s, i);
    if !(j < n) {
        return None;
    }
    let cj = s.get_char(j);
    if cj == '}' {
        match (pt, cs) {
            (Some(pt), Some(c)) => Some(
                (Pane::Leaf { pane_type: pt, corners: [c.0, c.1, c.2, c.3] }, j + 1),
            ),
            _ => None,
        }
    } else if cj == ',' {
        let k = skip_ws(s, j + 1);
        let (key, k2) = match parse_string(s, k) {
            None => {
                return None;
            },
            Some(x) => x,
        };
        let k3 = skip_ws(s, k2);
        let k4m = match expect_char_exec(s, k3, ':') {
            None => {
                return None;
            },
            Some(x) => x,
        };
        let k4 = skip_ws(s, k4m);
        if key == String::from_str("pane_type") {
            if pt.is_some() {
                return None;
            }
            let (nm, k5) = match parse_string(s, k4) {
                None => {
                    return None;
                },
                Some(x) => x,
            };
            match pane_type_of_name_exec(&nm) {
                None => None,
                Some(p) => parse_leaf_members_exec(s, k5, Some(p), cs, depth - 1),
            }
        } else if key == String::from_str("corners") {
            if cs.is_some() {
                return None;
            }
            match parse_corners_exec(s, k4) {
                None => None,
                Some((c4, k5)) => parse_leaf_members_exec(s, k5, pt, Some(c4), depth - 1),
            }
        } else {
            None
        }
    } else {
        None
    }
}

fn parse_split_members_exec(
    s: &str,
    i: usize,
    dir: Option<SplitType>,
    bias: Option<i64>,
    a: Option<Pane>,
    b: Option<Pane>,
    depth: usize,
) -> (r: Option<(Pane, usize)>)
    requires
        i <= s@.len(),
        bias is Some ==> 0 <= bias.unwrap(),
    ensures
        r is None ==> parse_split_members(
            s@,
            i as int,
            dir,
            match bias {
                Option::Some(v) => Option::Some(v as int),
                Option::None => Option::None,
            },
            a,
            b,
            depth as nat,
        ) is None,
        r is Some ==> parse_split_members(
            s@,
            i as int,
            dir,
            match bias {
                Option::Some(v) => Option::Some(v as int),
                Option::None => Option::None,
            },
            a,
            b,
            depth as nat,
        ) == Option::Some((r.unwrap().0, r.unwrap().1 as int)),
        r is Some ==> r.unwrap().1 <= s@.len(),
    decreases depth,
{
    if depth == 0 {
        return None;
    }
    let n = s.unicode_len();
    let j = skip_ws(s, i);
    if !(j < n) {
        return None;
    }
    let cj = s.get_char(j);
    if cj == '}' {
        match (dir, bias, a, b) {
            (Some(direction), Some(bias), Some(a), Some(b)) => Some(
                (
                    Pane::Split { direction, bias, a: Box::new(a), b: Box::new(b) },
                    j + 1,
                ),
            ),
            _ => None,
        }
    } else if cj == ',' {
        let k = skip_ws(s, j + 1);
        let (key, k2) = match parse_string(s, k) {
            None => {
                return None;
            },
            Some(x) => x,
        };
        let k3 = skip_ws(s, k2);
        let k4m = match expect_char_exec(s, k3, ':') {
            None => {
                return None;
            },
            Some(x) => x,
        };
        let k4 = skip_ws(s, k4m);
        if key == String::from_str("direction") {
            if dir.is_some() {
                return None;
            }
            let (nm, k5) = match parse_string(s, k4) {
                None => {
                    return None;
                },
                Some(x) => x,
            };
            match direction_of_name_exec(&nm) {
                None => None,
                Some(d) => parse_split_members_exec(s, k5, Some(d), bias, a, b, depth - 1),
            }
        } else if key == String::from_str("bias") {
            if bias.is_some() {
                return None;
            }
            match parse_number(s, k4) {
                None => None,
                Some((v, k5)) => parse_split_members_exec(s, k5, dir, Some(v), a, b, depth - 1),
            }
        } else if key == String::from_str("a") {
            if a.is_some() {
                return None;
            }
            match parse_pane_exec(s, k4, depth - 1) {
                None => None,
                Some((pa, k5)) => parse_split_members_exec(s, k5, dir, bias, Some(pa), b, depth - 1),
            }
        } else if key == String::from_str("b") {
            if b.is_some() {
                return None;
            }
            match parse_pane_exec(s, k4, depth - 1) {
                None => None,
                Some((pb, k5)) => parse_split_members_exec(s, k5, dir, bias, a, Some(pb), depth - 1),
            }
        } else {
            None
        }
    } else {
        None
    }
}

fn parse_pane_exec(s: &str, i: usize, depth: usize) -> (r: Option<(Pane, usize)>)
    requires
        i <= s@.len(),
    ensures
        r is None ==> parse_pane_at(s@, i as int, depth as nat) is None,
        r is Some ==> parse_pane_at(s@, i as int, depth as nat) == Option::Some(
            (r.unwrap().0, r.unwrap().1 as int),
        ),
        r is Some ==> r.unwrap().1 <= s@.len(),
    decreases depth,
{
    if depth == 0 {
        return None;
    }
    let j = skip_ws(s, i);
    let j1 = match expect_char_exec(s, j, '{') {
        None => {
            return None;
        },
        Some(x) => x,
    };
    let k = skip_ws(s, j1);
    let (key, k2) = match parse_string(s, k) {
        None => {
            return None;
        },
        Some(x) => x,
    };
    if !(key == String::from_str("kind")) {
        return None;
    }
    let k3 = skip_ws(s, k2);
    let k4m = match expect_char_exec(s, k3, ':') {
        None => {
            return None;
        },
        Some(x) => x,
    };
    let k4 = skip_ws(s, k4m);
    let (kind, k5) = match parse_string(s, k4) {
        None => {
            return None;
        },
        Some(x) => x,
    };
    if kind == String::from_str("Leaf") {
        parse_leaf_members_exec(s, k5, None, None, depth - 1)
    } else if kind == String::from_str("Split") {
        parse_split_members_exec(s, k5, None, None, None, None, depth - 1)
    } else {
        None
    }
}

/// Every split bias in a tree is nonnegative.
pub open spec fn pane_biases_nonneg(p: Pane) -> bool
    decreases p,
{
    match p {
        Pane::Leaf { .. } => true,
        Pane::Split { bias, a, b, .. } => bias >= 0 && pane_biases_nonneg(*a)
            && pane_biases_nonneg(*b),
    }
}

proof fn lemma_parse_number_nonneg(s: Seq<char>, i: int)
    requires
        parse_number_at(s, i) is Some,
    ensures
        0 <= parse_number_at(s, i).unwrap().0 <= 10_000_000_000,
{
    let e = digits_end(s, i);
    if !(0 <= i < s.len()) {
        assert(digits_end(s, i) == i);
    }
    lemma_digits_end_bounds(s, i);
    lemma_digits_val_bound(s, i, e);
    lemma_pow10_small(e - i);
    if 0 <= e < s.len() && s[e] == '.' {
        let f = digits_end(s, e + 1);
        lemma_digits_end_bounds(s, e + 1);
        if f - (e + 1) >= 3 {
            lemma_digits_val_bound(s, e + 1, e + 4);
            lemma_pow10_vals();
        } else if f - (e + 1) == 2 {
            lemma_digits_val_bound(s, e + 1, f);
            lemma_pow10_vals();
        } else if f - (e + 1) == 1 {
            lemma_digits_val_bound(s, e + 1, f);
            lemma_pow10_vals();
        }
    }
}

proof fn lemma_leaf_members_nonneg(
    s: Seq<char>,
    i: int,
    pt: Option<PaneType>,
    cs: Option<(CornerTypes, CornerTypes, CornerTypes, CornerTypes)>,
    depth: nat,
)
    requires
        parse_leaf_members(s, i, pt, cs, depth) is Some,
    ensures
        pane_biases_nonneg(parse_leaf_members(s, i, pt, cs, depth).unwrap().0),
    decreases depth,
{
    if depth > 0 {
        let j = skip_ws_spec(s, i);
        if 0 <= j < s.len() && s[j] == ',' {
            let k = skip_ws_spec(s, j + 1);
            match parse_string_at(s, k) {
                Option::None => {},
                Option::Some((key, k2)) => {
                    let k3 = skip_ws_spec(s, k2);
                    match expect_char(s, k3, ':') {
                        Option::None => {},
                        Option::Some(k4m) => {
                            let k4 = skip_ws_spec(s, k4m);
                            if key == "pane_type"@ && !(pt is Some) {
                                match parse_string_at(s, k4) {
                                    Option::None => {},
                                    Option::Some((nm, k5)) => match pane_type_of_name(nm) {
                                        Option::None => {},
                                        Option::Some(p) => {
                                            lemma_leaf_members_nonneg(
                                                s,
                                                k5,
                                                Option::Some(p),
                                                cs,
                                                (depth - 1) as nat,
                                            );
                                        },
                                    },
                                }
                            } else if key == "corners"@ && !(cs is Some) {
                                match parse_corners_at(s, k4) {
                                    Option::None => {},
                                    Option::Some((c4, k5)) => {
                                        lemma_leaf_members_nonneg(
                                            s,
                                            k5,
                                            pt,
                                            Option::Some(c4),
                                            (depth - 1) as nat,
                                        );
                                    },
                                }
                            }
                        },
                    }
                },
            }
        }
    }
}

proof fn lemma_split_members_nonneg(
    s: Seq<char>,
    i: int,
    dir: Option<SplitType>,
    bias: Option<int>,
    a: Option<Pane>,
    b: Option<Pane>,
    depth: nat,
)
    requires
        parse_split_members(s, i, dir, bias, a, b, depth) is Some,
        bias is Some ==> 0 <= bias.unwrap() <= 10_000_000_000,
        a is Some ==> pane_biases_nonneg(a.unwrap()),
        b is Some ==> pane_biases_nonneg(b.unwrap()),
    ensures
        pane_biases_nonneg(parse_split_members(s, i, dir, bias, a, b, depth).unwrap().0),
    decreases depth,
{
    if depth > 0 {
        let j = skip_ws_spec(s, i);
        if 0 <= j < s.len() && s[j] == ',' {
            let k = skip_ws_spec(s, j + 1);
            match parse_string_at(s, k) {
                Option::None => {},
                Option::Some((key, k2)) => {
                    let k3 = skip_ws_spec(s, k2);
                    match expect_char(s, k3, ':') {
                        Option::None => {},
                        Option::Some(k4m) => {
                            let k4 = skip_ws_spec(s, k4m);
                            if key == "direction"@ && !(dir is Some) {
                                match parse_string_at(s, k4) {
                                    Option::None => {},
                                    Option::Some((nm, k5)) => match direction_of_name(nm) {
                                        Option::None => {},
                                        Option::Some(d) => {
                                            lemma_split_members_nonneg(
                                                s,
                                                k5,
                                                Option::Some(d),
                                                bias,
                                                a,
                                                b,
                                                (depth - 1) as nat,
                                            );
                                        },
                                    },
                                }
                            } else if key == "bias"@ && !(bias is Some) {
                                match parse_number_at(s, k4) {
                                    Option::None => {},
                                    Option::Some((v, k5)) => {
                                        lemma_parse_number_nonneg(s, k4);
                                        lemma_split_members_nonneg(
                                            s,
                                            k5,
                                            dir,
                                            Option::Some(v),
                                            a,
                                            b,
                                            (depth - 1) as nat,
                                        );
                                    },
                                }
                            } else if key == "a"@ && !(a is Some) {
                                match parse_pane_at(s, k4, (depth - 1) as nat) {
                                    Option::None => {},
                                    Option::Some((pa, k5)) => {
                                        lemma_pane_parse_nonneg(s, k4, (depth - 1) as nat);
                                        lemma_split_members_nonneg(
                                            s,
                                            k5,
                                            dir,
                                            bias,
                                            Option::Some(pa),
                                            b,
                                            (depth - 1) as nat,
                                        );
                                    },
                                }
                            } else if key == "b"@ && !(b is Some) {
                                match parse_pane_at(s, k4, (depth - 1) as nat) {
                                    Option::None => {},
                                    Option::Some((pb, k5)) => {
                                        lemma_pane_parse_nonneg(s, k4, (depth - 1) as nat);
                                        lemma_split_members_nonneg(
                                            s,
                                            k5,
                                            dir,
                                            bias,
                                            a,
                                            Option::Some(pb),
                                            (depth - 1) as nat,
                                        );
                                    },
                                }
                            }
                        },
                    }
                },
            }
        }
    }
}

proof fn lemma_pane_parse_nonneg(s: Seq<char>, i: int, depth: nat)
    requires
        parse_pane_at(s, i, depth) is Some,
    ensures
        pane_biases_nonneg(parse_pane_at(s, i, depth).unwrap().0),
    decreases depth,
{
    if depth > 0 {
        let j = skip_ws_spec(s, i);
        match expect_char(s, j, '{') {
            Option::None => {},
            Option::Some(j1) => {
                let k = skip_ws_spec(s, j1);
                match parse_string_at(s, k) {
                    Option::None => {},
                    Option::Some((key, k2)) => {
                        if key == "kind"@ {
                            let k3 = skip_ws_spec(s, k2);
                            match expect_char(s, k3, ':') {
                                Option::None => {},
                                Option::Some(k4m) => {
                                    let k4 = skip_ws_spec(s, k4m);
                                    match parse_string_at(s, k4) {
                                        Option::None => {},
                                        Option::Some((kind, k5)) => {
                                            if kind == "Leaf"@ {
                                                lemma_leaf_members_nonneg(
                                                    s,
                                                    k5,
                                                    Option::None,
                                                    Option::None,
                                                    (depth - 1) as nat,
                                                );
                                            } else if kind == "Split"@ {
                                                lemma_split_members_nonneg(
                                                    s,
                                                    k5,
                                                    Option::None,
                                                    Option::None,
                                                    Option::None,
                                                    Option::None,
                                                    (depth - 1) as nat,
                                                );
                                            }
                                        },
                                    }
                                },
                            }
                        }
                    },
                }
            },
        }
    }
}

/// Law: the grammar admits no sign, so a loaded configuration never holds
/// a negative split bias; the layout pass only has the upper bound left
/// to check.
pub proof fn lemma_config_biases_nonneg(s: Seq<char>)
    requires
        pane_config_spec(s) is Some,
    ensures
        pane_biases_nonneg(pane_config_spec(s).unwrap()),
{
    lemma_pane_parse_nonneg(s, 0, (s.len() + 1) as nat);
}

/// An error in a pane configuration document.
#[derive(Clone, Copy, PartialEq, Eq, Structural, Debug)]
pub struct ParseError {}

impl ParseError {
    /// A short description for the host to show.
    pub fn message(&self) -> (r: String)
        ensures
            r@ == "malformed pane configuration"@,
    {
        String::from_str("malformed pane configuration")
    }
}

/// The tree a whole configuration document denotes: one pane object with
/// nothing but whitespace after it.
pub open spec fn pane_config_spec(s: Seq<char>) -> Option<Pane> {
    match parse_pane_at(s, 0, (s.len() + 1) as nat) {
        Option::Some((p, e)) => {
            if skip_ws_spec(s, e) == s.len() {
                Option::Some(p)
            } else {
                Option::None
            }
        },
        Option::None => Option::None,
    }
}

/// Parses a configuration document into a pane tree.  A document loads
/// exactly when it is in the grammar; anything else is an error.
pub fn parse_pane_config(json: &str) -> (r: Result<Pane, ParseError>)
    requires
        json@.len() < usize::MAX,
    ensures
        r is Ok <==> pane_config_spec(json@) is Some,
        r is Ok ==> r.unwrap() == pane_config_spec(json@).unwrap(),
{
    let n = json.unicode_len();
    match parse_pane_exec(json, 0, n + 1) {
        None => Err(ParseError {}),
        Some((p, e)) => {
            let e2 = skip_ws(json, e);
            if e2 == n {
                Ok(p)
            } else {
                Err(ParseError {})
            }
        },
    }
}

/// Loads a configuration document and wraps the tree in a runtime
/// instance, with no layout computed yet.
pub fn load_pane_config(json: &str) -> (r: Result<PaneInstance, ParseError>)
    requires
        json@.len() < usize::MAX,
    ensures
        r is Ok <==> pane_config_spec(json@) is Some,
        r is Ok ==> r.unwrap().config == pane_config_spec(json@).unwrap() && r.unwrap().layout
            is None,
{
    match parse_pane_config(json) {
        Ok(p) => Ok(create_pane_instance(p)),
        Err(e) => Err(e),
    }
}

} // verus!
