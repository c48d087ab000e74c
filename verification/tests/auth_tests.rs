use raylock::auth::{
    auth_step, handle_key, password_circle_plan, AuthAction, AuthOutcome, AuthState,
};
use raylock::keys::{format_key, KeySym};
use raylock::lock::{create_lock, is_locked, remove_lock, LockState};
use raylock::table::{next_sort_column, rem_first_and_last, SortColumn};

#[test]
fn letters_follow_shift() {
    assert_eq!(format_key(KeySym::A, false), "a");
    assert_eq!(format_key(KeySym::A, true), "A");
    assert_eq!(format_key(KeySym::Z, false), "z");
    assert_eq!(format_key(KeySym::Q, true), "Q");
}

#[test]
fn digits_shift_to_symbols() {
    assert_eq!(format_key(KeySym::Num0, false), "0");
    assert_eq!(format_key(KeySym::Num0, true), ")");
    assert_eq!(format_key(KeySym::Num1, true), "!");
    assert_eq!(format_key(KeySym::Num2, true), "@");
    assert_eq!(format_key(KeySym::Num8, true), "*");
    assert_eq!(format_key(KeySym::Num9, false), "9");
}

#[test]
fn punctuation_shifts() {
    assert_eq!(format_key(KeySym::Space, false), " ");
    assert_eq!(format_key(KeySym::Space, true), " ");
    assert_eq!(format_key(KeySym::Minus, false), "-");
    assert_eq!(format_key(KeySym::Minus, true), "_");
    assert_eq!(format_key(KeySym::Quote, false), "'");
    assert_eq!(format_key(KeySym::Quote, true), "\"");
    assert_eq!(format_key(KeySym::Backslash, false), "\\");
    assert_eq!(format_key(KeySym::Backslash, true), "|");
    assert_eq!(format_key(KeySym::Backtick, true), "~");
    assert_eq!(format_key(KeySym::Slash, true), "?");
}

#[test]
fn unprintable_keys_contribute_nothing() {
    assert_eq!(format_key(KeySym::Enter, false), "");
    assert_eq!(format_key(KeySym::Backspace, true), "");
    assert_eq!(format_key(KeySym::Other, false), "");
}

#[test]
fn typing_builds_the_password() {
    let mut state = AuthState::default();
    handle_key(&mut state, KeySym::H, true);
    handle_key(&mut state, KeySym::I, false);
    handle_key(&mut state, KeySym::Num1, true);
    assert_eq!(state.password, "Hi!");
    assert!(!state.to_be_submitted);
    assert_eq!(state.failed_attempts, 0);
}

#[test]
fn backspace_removes_the_last_character() {
    let mut state = AuthState::default();
    handle_key(&mut state, KeySym::A, false);
    handle_key(&mut state, KeySym::B, false);
    handle_key(&mut state, KeySym::Backspace, false);
    assert_eq!(state.password, "a");
    handle_key(&mut state, KeySym::Backspace, false);
    handle_key(&mut state, KeySym::Backspace, false);
    assert_eq!(state.password, "");
}

#[test]
fn enter_raises_the_submit_flag() {
    let mut state = AuthState::default();
    handle_key(&mut state, KeySym::X, false);
    handle_key(&mut state, KeySym::Enter, false);
    assert!(state.to_be_submitted);
    assert_eq!(state.password, "x");
}

#[test]
fn accepted_submission_unlocks() {
    let mut state = AuthState::default();
    handle_key(&mut state, KeySym::P, false);
    handle_key(&mut state, KeySym::Enter, false);
    assert_eq!(auth_step(&mut state, AuthOutcome::Accepted), AuthAction::Unlock);
}

#[test]
fn rejected_submission_counts_a_failure_and_clears() {
    let mut state = AuthState::default();
    handle_key(&mut state, KeySym::P, false);
    handle_key(&mut state, KeySym::Enter, false);
    assert_eq!(auth_step(&mut state, AuthOutcome::Rejected), AuthAction::Stay);
    assert_eq!(state.failed_attempts, 1);
    assert_eq!(state.password, "");
    assert!(!state.to_be_submitted);
}

#[test]
fn failed_check_clears_without_counting() {
    let mut state = AuthState::default();
    handle_key(&mut state, KeySym::P, false);
    handle_key(&mut state, KeySym::Enter, false);
    assert_eq!(auth_step(&mut state, AuthOutcome::Failed), AuthAction::Stay);
    assert_eq!(state.failed_attempts, 0);
    assert_eq!(state.password, "");
    assert!(!state.to_be_submitted);
}

#[test]
fn failure_count_saturates() {
    let mut state = AuthState::default();
    state.failed_attempts = u16::MAX;
    state.to_be_submitted = true;
    auth_step(&mut state, AuthOutcome::Rejected);
    assert_eq!(state.failed_attempts, u16::MAX);
}

#[test]
fn empty_password_and_no_failures_draw_nothing() {
    // No connecting lines, no failure ring, and both angular steps are
    // defined without dividing by a zero count.
    let plan = password_circle_plan(0, 0);
    assert!(!plan.fail_ring);
    assert_eq!(plan.fail_marks, 0);
    assert_eq!(plan.char_marks, 0);
    assert_eq!(plan.connect_lines, 0);
    assert_eq!(plan.char_step_milliturns, 0);
    assert_eq!(plan.fail_step_milliturns, 0);
}

#[test]
fn single_mark_sits_at_the_center() {
    let plan = password_circle_plan(1, 1);
    assert!(plan.chars_at_center);
    assert!(plan.fail_at_center);
    assert!(plan.fail_ring);
    assert_eq!(plan.connect_lines, 0);
}

#[test]
fn long_password_spreads_marks_around_the_ring() {
    let plan = password_circle_plan(8, 3);
    assert!(!plan.chars_at_center);
    assert_eq!(plan.char_marks, 8);
    assert_eq!(plan.connect_lines, 8);
    assert_eq!(plan.char_step_milliturns, 125);
    assert_eq!(plan.fail_step_milliturns, 333);
    assert!(!plan.fail_at_center);
}

#[test]
fn lock_marker_lifecycle() {
    let mut lock = LockState::default();
    assert!(!is_locked(&lock));
    create_lock(&mut lock);
    assert!(is_locked(&lock));
    remove_lock(&mut lock);
    assert!(!is_locked(&lock));
    remove_lock(&mut lock);
    assert!(!is_locked(&lock));
}

#[test]
fn sort_column_rotation_alternates() {
    assert_eq!(next_sort_column(SortColumn::Cpu), SortColumn::Memory);
    assert_eq!(next_sort_column(SortColumn::Memory), SortColumn::Cpu);
}

#[test]
fn trimming_drops_ends_and_caps_length() {
    assert_eq!(rem_first_and_last(String::from("[hello]"), 3), "hel");
    assert_eq!(rem_first_and_last(String::from("[hi]"), 10), "hi");
    assert_eq!(rem_first_and_last(String::from("ab"), 5), "");
    assert_eq!(rem_first_and_last(String::from("a"), 5), "");
    assert_eq!(rem_first_and_last(String::from(""), 5), "");
}
