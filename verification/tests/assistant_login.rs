use ainc_mac::assistant::{after_cancel, login_step, require_account, LoginEvent, LoginStep};

#[test]
fn sign_in_waits_finishes_or_fails() {
    assert!(matches!(login_step(&LoginEvent::Quiet), LoginStep::Wait));
    assert!(matches!(login_step(&LoginEvent::Cancelled), LoginStep::CancelAndRecheck));
    assert!(matches!(
        login_step(&LoginEvent::Notification { completed: false, success: false }),
        LoginStep::Wait
    ));
    assert!(matches!(
        login_step(&LoginEvent::Notification { completed: true, success: true }),
        LoginStep::Done
    ));
    match login_step(&LoginEvent::Notification { completed: true, success: false }) {
        LoginStep::Failed(m) => assert_eq!(m, "Sign-in was not completed. Try again."),
        _ => panic!("expected a failure"),
    }
    match login_step(&LoginEvent::Stopped) {
        LoginStep::Failed(m) => assert_eq!(m, "Codex sign-in stopped. Try again."),
        _ => panic!("expected a failure"),
    }
}

#[test]
fn a_cancelled_sign_in_still_counts_if_it_finished() {
    assert_eq!(after_cancel(true), Ok(()));
    assert_eq!(after_cancel(false), Err("Sign-in cancelled. You can try again when ready.".to_string()));
    assert_eq!(require_account(true), Ok(()));
    assert_eq!(require_account(false), Err("Connect your ChatGPT subscription in Settings.".to_string()));
}
