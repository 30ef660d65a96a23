use bluehash::tray::{
    ensure_daemon_running, fits, pick_monitor, pickable, popover_position, startup_step, Launch, Monitor,
    PipeOpening, StartupStep, CONNECT_FAILED, PIPE_ATTEMPTS,
};

const LEFT: Monitor = Monitor { x: -1920, y: 0, width: 1920, height: 1080 };
const MAIN: Monitor = Monitor { x: 0, y: 0, width: 2560, height: 1440 };

#[test]
fn click_picks_its_monitor() {
    let monitors = vec![MAIN, LEFT];
    assert_eq!(pick_monitor(&monitors, 10, 10), Some(MAIN));
    assert_eq!(pick_monitor(&monitors, -1, 1079), Some(LEFT));
    assert_eq!(pick_monitor(&monitors, -1, 1080), Some(MAIN));
    assert_eq!(pick_monitor(&monitors, 2560, 0), Some(MAIN));
    assert_eq!(pick_monitor(&vec![LEFT, MAIN], 2559, 1439), Some(MAIN));
    assert_eq!(pick_monitor(&vec![], 0, 0), None);
}

#[test]
fn monitors_have_edges() {
    assert!(LEFT.contains(-1920, 0));
    assert!(!LEFT.contains(0, 0));
    assert!(LEFT.comparable(0, 0));
    let far = Monitor { x: i32::MAX, y: 0, width: 1, height: 1 };
    assert!(far.comparable(0, 0));
    assert!(!far.contains(0, 0));
    assert!(!far.comparable(i32::MAX, 0));
    let deep = Monitor { x: 0, y: i32::MAX, width: 10, height: 10 };
    assert!(deep.comparable(5, 0) && deep.comparable(10, i32::MAX));
    assert!(!deep.comparable(5, i32::MAX));
}

#[test]
fn window_stands_at_the_right_edge() {
    assert!(fits(MAIN, 360, 600, 16));
    assert_eq!(popover_position(MAIN, 360, 600, 16), (2184, 420));
    assert_eq!(popover_position(LEFT, 360, 601, 24), (-384, 239));
}

#[test]
fn window_taller_than_the_monitor() {
    assert_eq!(popover_position(LEFT, 360, 1083, 0), (-360, -1));
}

#[test]
fn window_without_a_place() {
    let far = Monitor { x: i32::MAX, y: 0, width: 1, height: 1 };
    assert!(!fits(far, 1, 1, 0));
    let low = Monitor { x: i32::MIN, y: 0, width: 10, height: 10 };
    assert!(!fits(low, 20, 1, 0));
    assert!(!fits(low, 5, 1, 6));
    let deep = Monitor { x: 0, y: i32::MAX, width: 10, height: 10 };
    assert!(!fits(deep, 1, 1, 0));
}

#[test]
fn pipe_is_tried_ten_times() {
    let mut opening = PipeOpening::begin();
    let mut tries = 1;
    loop {
        match opening.failed("busy") {
            Ok(next) => {
                opening = next;
                tries += 1;
            }
            Err(message) => {
                assert_eq!(message, r"open \\.\pipe\csi attempt 9: busy");
                break;
            }
        }
    }
    assert_eq!(tries, PIPE_ATTEMPTS);
    assert_eq!(CONNECT_FAILED, "Failed to connect to csid daemon");
}

#[test]
fn daemon_is_looked_for_twenty_times() {
    assert_eq!(startup_step(1, false), StartupStep::Again(2));
    assert_eq!(startup_step(19, false), StartupStep::Again(20));
    assert_eq!(startup_step(20, false), StartupStep::GaveUp);
    assert_eq!(startup_step(20, true), StartupStep::Connected);
}

#[test]
fn daemon_is_started_when_it_does_not_run() {
    assert!(matches!(ensure_daemon_running(true, Err("x".into()), false), Launch::Running));
    assert!(
        matches!(ensure_daemon_running(false, Err("x".into()), true), Launch::Lost(e) if e == "x")
    );
    assert!(matches!(ensure_daemon_running(false, Ok(false), true), Launch::NoDirectory));
    assert!(matches!(ensure_daemon_running(false, Ok(true), false), Launch::Missing));
    assert!(matches!(ensure_daemon_running(false, Ok(true), true), Launch::Spawn));
}

#[test]
fn monitors_behind_the_clicked_one_do_not_matter() {
    let far = Monitor { x: i32::MAX, y: 0, width: 1, height: 1 };
    let low = Monitor { x: 0, y: 0, width: 10, height: u32::MAX };
    assert!(pickable(&vec![far, MAIN], 10, 10));
    assert_eq!(pick_monitor(&vec![far, MAIN], 10, 10), Some(MAIN));
    let broken = Monitor { x: 5, y: 5, width: i32::MAX as u32, height: 1 };
    assert!(pickable(&vec![MAIN, broken], 10, 10));
    assert_eq!(pick_monitor(&vec![MAIN, broken], 10, 10), Some(MAIN));
    assert!(!pickable(&vec![broken, MAIN], 10, 10));
    assert!(pickable(&vec![low], 5, 5));
    assert_eq!(pick_monitor(&vec![low], 5, 5), Some(low));
}
