//! The shared authentication record and the decisions made over it.
//!
//! The UI thread appends or removes password characters and raises the
//! submit flag; the background thread hands the outcome of the external
//! credential check to [`auth_step`], which decides whether the screen
//! unlocks and how the record changes.  [`password_circle_plan`] derives
//! what the password ring draws from the record alone, with the guards
//! that keep an empty password or a clean failure count from dividing by
//! zero or drawing stray marks.

use vstd::prelude::*;

use crate::keys::{format_key, format_key_spec, KeySym};

verus! {

/// The mutex-guarded record both threads share.
#[derive(Debug)]
pub struct AuthState {
    pub password: String,
    pub to_be_submitted: bool,
    pub failed_attempts: u16,
}

impl Default for AuthState {
    /// An empty password, nothing submitted, no failures.
    fn default() -> (s: AuthState)
        ensures
            s.password@ == Seq::<char>::empty(),
            !s.to_be_submitted,
            s.failed_attempts == 0,
    {
        AuthState { password: String::new(), to_be_submitted: false, failed_attempts: 0 }
    }
}

/// Applies one key press to the record: enter submits, backspace removes
/// the last character when there is one, and every other key appends the
/// text it stands for.
pub fn handle_key(state: &mut AuthState, key: KeySym, shift_pressed: bool)
    ensures
        final(state).failed_attempts == old(state).failed_attempts,
        key is Enter ==> final(state).to_be_submitted,
        key is Enter ==> final(state).password@ == old(state).password@,
        !(key is Enter) ==> final(state).to_be_submitted == old(state).to_be_submitted,
        key is Backspace && old(state).password@.len() > 0 ==> final(state).password@ == old(
            state).password@.drop_last(),
        key is Backspace && old(state).password@.len() == 0 ==> final(state).password@ == old(
            state).password@,
        !(key is Enter) && !(key is Backspace) ==> final(state).password@ == old(state).password@
            + format_key_spec(key, shift_pressed),
{
    match key {
        KeySym::Enter => {
            state.to_be_submitted = true;
        },
        KeySym::Backspace => {
            let n = state.password.as_str().unicode_len();
            if n != 0 {
                let shorter = state.password.as_str().substring_char(0, n - 1).to_owned();
                state.password = shorter;
                proof {
                    assert(state.password@ =~= old(state).password@.drop_last());
                }
            }
        },
        _ => {
            let s = format_key(key, shift_pressed);
            state.password.append(s.as_str());
        },
    }
}

/// Outcome of one external credential check.
#[derive(Clone, Copy, PartialEq, Eq, Structural, Debug)]
pub enum AuthOutcome {
    /// The credentials were accepted.
    Accepted,
    /// The credentials were rejected.
    Rejected,
    /// The check itself could not run.
    Failed,
}

/// What the host must do after a submission was processed.
#[derive(Clone, Copy, PartialEq, Eq, Structural, Debug)]
pub enum AuthAction {
    /// Release input and end the lock session.
    Unlock,
    /// Keep the screen locked.
    Stay,
}

/// Consumes a submission: acceptance unlocks and leaves the record alone
/// (the session ends); rejection counts a failure, saturating, and clears
/// the buffer; a check failure only clears the buffer.  In both staying
/// cases the submit flag is lowered.
pub fn auth_step(state: &mut AuthState, outcome: AuthOutcome) -> (action: AuthAction)
    requires
        old(state).to_be_submitted,
    ensures
        action is Unlock <==> outcome is Accepted,
        outcome is Accepted ==> *final(state) == *old(state),
        !(outcome is Accepted) ==> !final(state).to_be_submitted && final(state).password@
            == Seq::<char>::empty(),
        outcome is Rejected && old(state).failed_attempts < u16::MAX ==> final(
            state).failed_attempts == old(state).failed_attempts + 1,
        outcome is Rejected && old(state).failed_attempts == u16::MAX ==> final(
            state).failed_attempts == u16::MAX,
        outcome is Failed ==> final(state).failed_attempts == old(state).failed_attempts,
{
    match outcome {
        AuthOutcome::Accepted => AuthAction::Unlock,
        AuthOutcome::Rejected => {
            if state.failed_attempts < u16::MAX {
                state.failed_attempts = state.failed_attempts + 1;
            }
            state.password = String::new();
            state.to_be_submitted = false;
            AuthAction::Stay
        },
        AuthOutcome::Failed => {
            state.password = String::new();
            state.to_be_submitted = false;
            AuthAction::Stay
        },
    }
}

/// What the password ring draws for a given record: which marks appear,
/// whether they collapse to the centre, how many connecting lines are
/// drawn, and the angular step between marks in thousandths of a turn.
#[derive(Clone, Copy, PartialEq, Eq, Structural, Debug)]
pub struct CirclePlan {
    /// The red failure ring is drawn at all.
    pub fail_ring: bool,
    /// Number of failure marks drawn.
    pub fail_marks: u16,
    /// All failure marks sit at the centre.
    pub fail_at_center: bool,
    /// Number of password marks drawn.
    pub char_marks: usize,
    /// All password marks sit at the centre.
    pub chars_at_center: bool,
    /// Number of lines connecting consecutive password marks.
    pub connect_lines: usize,
    /// Angular step between password marks, thousandths of a full turn.
    pub char_step_milliturns: u32,
    /// Angular step between failure marks, thousandths of a full turn.
    pub fail_step_milliturns: u32,
}

/// Derives the password-ring draw plan from the record.  An empty password
/// and a zero failure count draw nothing: no ring, no marks, no lines —
/// and the angular steps are defined (zero) rather than divided out of a
/// zero count.
pub fn password_circle_plan(password_len: usize, failed_attempts: u16) -> (p: CirclePlan)
    ensures
        p.fail_ring == (failed_attempts > 0),
        p.fail_marks == failed_attempts,
        p.fail_at_center == (failed_attempts <= 1),
        p.char_marks == password_len,
        p.chars_at_center == (password_len <= 1),
        p.connect_lines == (if password_len > 1 {
            password_len as int
        } else {
            0
        }),
        password_len > 0 ==> p.char_step_milliturns as int == 1000int / (password_len as int),
        password_len == 0 ==> p.char_step_milliturns == 0,
        failed_attempts > 0 ==> p.fail_step_milliturns as int == 1000int / (failed_attempts as int),
        failed_attempts == 0 ==> p.fail_step_milliturns == 0,
        password_len == 0 && failed_attempts == 0 ==> !p.fail_ring && p.fail_marks == 0
            && p.char_marks == 0 && p.connect_lines == 0,
{
    let char_step: u32 = if password_len > 0 {
        (1000usize / password_len) as u32
    } else {
        0
    };
    let fail_step: u32 = if failed_attempts > 0 {
        1000u32 / (failed_attempts as u32)
    } else {
        0
    };
    CirclePlan {
        fail_ring: failed_attempts > 0,
        fail_marks: failed_attempts,
        fail_at_center: failed_attempts <= 1,
        char_marks: password_len,
        chars_at_center: password_len <= 1,
        connect_lines: if password_len > 1 {
            password_len
        } else {
            0
        },
        char_step_milliturns: char_step,
        fail_step_milliturns: fail_step,
    }
}

} // verus!
