use bluehash::service::{
    control, report, try_dispatch, Control, ControlReply, DispatchError, ServiceReport,
    DISPLAY_NAME, SERVICE_NAME,
};
use bluehash::system::{should_stop, StopFlag};

fn failure(os_code: Option<i32>) -> Result<(), DispatchError> {
    Err(DispatchError { os_code, message: "why".into() })
}

#[test]
fn names() {
    assert_eq!((SERVICE_NAME, DISPLAY_NAME), ("BlueHashAgent", "BlueHash Identity Agent"));
}

#[test]
fn dispatch_outcomes() {
    assert_eq!(try_dispatch(Ok(())), Ok(true));
    assert_eq!(try_dispatch(failure(Some(1063))), Ok(false));
    for code in [Some(5), None] {
        assert_eq!(
            try_dispatch(failure(code)),
            Err("service_dispatcher::start failed: why".to_string())
        );
    }
}

#[test]
fn controls() {
    let mut flag = StopFlag::new();
    assert_eq!(control(&mut flag, Control::Interrogate), ControlReply::NoError);
    assert_eq!(control(&mut flag, Control::Other), ControlReply::NotImplemented);
    assert!(!should_stop(&flag));
    assert_eq!(control(&mut flag, Control::Stop), ControlReply::NoError);
    assert!(should_stop(&flag));
    let mut flag = StopFlag::new();
    assert_eq!(control(&mut flag, Control::Shutdown), ControlReply::NoError);
    assert!(should_stop(&flag));
    assert_eq!(control(&mut flag, Control::Interrogate), ControlReply::NoError);
    assert!(should_stop(&flag));
}

#[test]
fn reports() {
    let running = ServiceReport {
        running: true,
        accepts_stop: true,
        accepts_shutdown: true,
        exit_code: 0,
        checkpoint: 0,
    };
    assert_eq!(report(true), running);
    assert_eq!(report(false), ServiceReport { running: false, ..running });
}
