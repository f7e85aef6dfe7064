use vps_cli::safety::{interactive_session, is_interactive, timestamp_from};

#[test]
fn questions_need_a_terminal_and_no_no_input() {
    assert!(interactive_session(true, false));
    assert!(!interactive_session(true, true));
    assert!(!interactive_session(false, false));
    assert!(!interactive_session(false, true));
    assert!(!is_interactive(true));
}

#[test]
fn timestamps_fall_back_to_zero_before_the_epoch() {
    assert_eq!(timestamp_from(Some(1_700_000_000)), 1_700_000_000);
    assert_eq!(timestamp_from(None), 0);
}
