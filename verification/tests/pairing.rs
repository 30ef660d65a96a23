use bluehash::broker::SupabaseClient;
use bluehash::crypto::HardwareIdentity;
use bluehash::ipc::IpcResponse;
use bluehash::manifest::Manifest;
use bluehash::pairing::{
    begin_pairing, linked, session_created, DesktopPoll, LinkedUser, PairingStart, PollStep,
    MAX_POLLS, POLL_INTERVAL_SECS,
};
use bluehash::state::DaemonState;

const SESSION: u128 = 0x0123_4567_89ab_cdef_0123_4567_89ab_cdef;

fn state() -> DaemonState {
    let unsaved = HardwareIdentity::generated([1; 32], 0);
    let identity = unsaved.secret_stored(Ok(())).unwrap().version_stored(Ok(())).unwrap();
    let client = SupabaseClient::new(Some("u".into()), Some("k".into())).unwrap();
    DaemonState::new(identity, Some(client), Manifest::blank())
}

fn user() -> LinkedUser {
    LinkedUser { user_id: "u".into(), email: Some("e".into()), image_url: None }
}

fn polling(state: &mut DaemonState) -> DesktopPoll {
    assert!(matches!(begin_pairing(state), PairingStart::CreateSession));
    let page = session_created(state, Ok(SESSION)).unwrap();
    match page.opened(state, Ok(())) {
        (IpcResponse::Success, Some(poll)) => poll,
        _ => panic!("the page is open"),
    }
}

#[test]
fn login_page_leads_back_to_the_session() {
    let mut state = state();
    assert!(matches!(begin_pairing(&mut state), PairingStart::CreateSession));
    assert!(state.oauth_listening);
    let page = session_created(&mut state, Ok(SESSION)).unwrap();
    assert_eq!(page.session_id, SESSION);
    assert_eq!(
        page.url,
        "https://bluehashsecurity.com/login?redirect_url=\
%2Fdesktop-link%3Fsession%3D01234567-89ab-cdef-0123-456789abcdef"
    );
}

#[test]
fn second_login_is_refused() {
    let mut state = state();
    begin_pairing(&mut state);
    match begin_pairing(&mut state) {
        PairingStart::Refused(IpcResponse::Error(text)) => {
            assert_eq!(text, "Login already in progress. Check your browser.")
        }
        _ => panic!("not refused"),
    }
    assert!(state.oauth_listening);
}

#[test]
fn failed_session_ends_the_login() {
    let mut state = state();
    begin_pairing(&mut state);
    match session_created(&mut state, Err("offline".into())) {
        Err(IpcResponse::Error(text)) => {
            assert_eq!(text, "Could not create desktop session: offline")
        }
        _ => panic!("no error"),
    }
    assert!(!state.oauth_listening);
}

#[test]
fn failed_browser_ends_the_login() {
    let mut state = state();
    begin_pairing(&mut state);
    let page = session_created(&mut state, Ok(SESSION)).unwrap();
    match page.opened(&mut state, Err("none".into())) {
        (IpcResponse::Error(text), None) => assert_eq!(text, "Failed to open browser: none"),
        _ => panic!("no error"),
    }
    assert!(!state.oauth_listening);
}

#[test]
fn login_times_out_after_all_polls() {
    let mut state = state();
    let mut poll = polling(&mut state);
    assert_eq!(poll.attempt, 1);
    let mut asked = 0;
    loop {
        asked += 1;
        let reply = if asked % 2 == 0 { Ok(None) } else { Err("offline".to_string()) };
        match poll.polled(&mut state, reply) {
            PollStep::Again(next) => {
                assert_eq!(next.session_id, SESSION);
                assert!(state.oauth_listening);
                poll = next;
            }
            PollStep::TimedOut => break,
            PollStep::Linked(_) => panic!("nobody logged in"),
        }
    }
    assert_eq!(asked, MAX_POLLS);
    assert_eq!(u64::from(MAX_POLLS) * POLL_INTERVAL_SECS, 300);
    assert!(!state.oauth_listening);
    assert!(state.logged_in_user.is_none());
}

#[test]
fn linked_user_is_logged_in() {
    let mut state = state();
    let poll = polling(&mut state);
    match poll.polled(&mut state, Ok(Some(user()))) {
        PollStep::Linked(found) => {
            let login = linked(&mut state, found).unwrap();
            assert_eq!(login.user_id, "u");
        }
        _ => panic!("not linked"),
    }
    assert!(!state.oauth_listening);
    assert_eq!(state.logged_in_user.as_deref(), Some("u"));
    assert_eq!(state.user_email.as_deref(), Some("e"));
    assert!(state.user_image.is_none());
}

#[test]
fn link_on_the_last_poll_counts() {
    let mut state = state();
    polling(&mut state);
    let last = DesktopPoll { session_id: SESSION, attempt: MAX_POLLS };
    assert!(matches!(last.polled(&mut state, Ok(Some(user()))), PollStep::Linked(_)));
    assert!(state.oauth_listening);
}
