use loungy::toast::{Toast, ToastState, ERROR_TOAST_MS, SUCCESS_TOAST_MS};

#[test]
fn untouched_success_expires_to_idle() {
    let mut t = Toast::init();
    t.success("ok", 1000);
    let armed = 1000 + SUCCESS_TOAST_MS;
    match &t.state {
        ToastState::Success { message, fade_in, fade_out } => {
            assert_eq!(message, "ok");
            assert_eq!(*fade_in, 1000);
            assert_eq!(*fade_out, Some(armed));
        },
        other => panic!("expected success, got {:?}", other),
    }
    t.expire(armed);
    assert!(matches!(t.state, ToastState::Idle));
}

#[test]
fn preempting_error_is_not_expired_by_stale_task() {
    let mut t = Toast::init();
    t.success("ok", 1000);
    let stale_armed = 1000 + SUCCESS_TOAST_MS;
    t.error("x", 2000);
    // the stale task armed by the success fires into the newer error state
    t.expire(stale_armed);
    match &t.state {
        ToastState::Error { message, fade_out, .. } => {
            assert_eq!(message, "x");
            assert_eq!(*fade_out, Some(2000 + ERROR_TOAST_MS));
        },
        other => panic!("expected error to survive, got {:?}", other),
    }
    // the error's own task still clears it
    t.expire(2000 + ERROR_TOAST_MS);
    assert!(matches!(t.state, ToastState::Idle));
}

#[test]
fn loading_never_expires_on_its_own() {
    let mut t = Toast::init();
    t.loading("working", 500);
    t.expire(500);
    t.expire(500 + SUCCESS_TOAST_MS);
    t.expire(500 + ERROR_TOAST_MS);
    match &t.state {
        ToastState::Loading { message, fade_out, .. } => {
            assert_eq!(message, "working");
            assert_eq!(*fade_out, None);
        },
        other => panic!("expected loading to stay, got {:?}", other),
    }
}

#[test]
fn new_notification_preempts_loading() {
    let mut t = Toast::init();
    t.loading("working", 500);
    t.success("done", 900);
    assert!(matches!(t.state, ToastState::Success { .. }));
}
