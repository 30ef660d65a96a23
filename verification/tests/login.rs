use bluehash::broker::{DeviceKeyInfo, SupabaseClient, WrappedPnk};
use bluehash::crypto::{HardwareIdentity, PersonalNetworkKey};
use bluehash::daemon::{process_request, Step};
use bluehash::distribution::{receive_key, Distribution};
use bluehash::ipc::{IpcRequest, IpcResponse};
use bluehash::keychain::{load_pnk, LoadError};
use bluehash::login::{finish_login, log_in, FoundKey, KeySearch};
use bluehash::manifest::Manifest;
use bluehash::state::DaemonState;

fn identity() -> HardwareIdentity {
    let unsaved = HardwareIdentity::generated([3; 32], 0);
    unsaved.secret_stored(Ok(())).unwrap().version_stored(Ok(())).unwrap()
}

fn state() -> DaemonState {
    let client = SupabaseClient::new(Some("https://x.co".into()), Some("k".into())).unwrap();
    DaemonState::new(identity(), Some(client), Manifest::blank())
}

fn search(state: &mut DaemonState) -> KeySearch {
    let login = log_in(state, "u".into()).unwrap();
    let registered = login.registered(Ok(5)).unwrap();
    registered.key_loaded(state, Err(LoadError::NotFound("none".into()))).unwrap()
}

fn own_key(version: u32) -> WrappedPnk {
    let id = identity();
    let devices = vec![DeviceKeyInfo { id: 5, public_hik: id.export_public_hik() }];
    let mut handout = Distribution::begin(
        PersonalNetworkKey([9; 32]),
        version,
        id.secret().clone(),
        "u",
        devices,
    );
    WrappedPnk {
        id: Some(1),
        target_device_id: 5,
        wrapped_pnk: handout.next_push().unwrap().wrapped_pnk,
        version,
        created_at: None,
    }
}

#[test]
fn login_without_a_broker_is_done_at_once() {
    let mut state = state();
    state.broker = None;
    let step = process_request(IpcRequest::Login { user_id: "u".into() }, &mut state, "now");
    assert!(matches!(step, Step::LogIn(None)));
    assert_eq!(state.logged_in_user.as_deref(), Some("u"));
}

#[test]
fn login_registers_the_device() {
    let mut state = state();
    match process_request(IpcRequest::Login { user_id: "u".into() }, &mut state, "now") {
        Step::LogIn(Some(login)) => {
            let r = login.registration(&state, "host".into(), "Windows 10".into());
            assert_eq!((r.user_id.as_str(), r.device_name.as_str()), ("u", "host"));
            assert_eq!(r.public_hik, state.identity.export_public_hik());
            assert_eq!(r.os_version, "Windows 10");
            assert!(login.registered(Err("refused".into())).is_none());
        }
        _ => panic!("no login"),
    }
    assert_eq!(state.logged_in_user.as_deref(), Some("u"));
    assert!(state.device_id.is_none());
}

#[test]
fn stored_key_is_taken_on() {
    let mut state = state();
    let login = log_in(&mut state, "u".into()).unwrap();
    let registered = login.registered(Ok(5)).unwrap();
    assert!(registered.key_loaded(&mut state, Ok([4; 32])).is_none());
    assert_eq!(state.pnk.as_ref().unwrap().0, [4; 32]);
    assert_eq!(state.device_id, Some(5));
}

#[test]
fn key_at_the_broker_is_received_and_stored() {
    let mut state = state();
    let search = search(&mut state);
    assert_eq!(
        search.keys_request().query[0].1,
        "eq.00000000-0000-0000-0000-000000000005"
    );
    match search.keys_fetched(&state, Ok(vec![own_key(6)])) {
        FoundKey::Received(found) => {
            assert_eq!(load_pnk(Ok(found.store.write.blob.clone())).unwrap(), [9; 32]);
            found.take_on(&mut state);
        }
        _ => panic!("not received"),
    }
    assert_eq!(state.pnk.as_ref().unwrap().0, [9; 32]);
    assert_eq!(state.device_id, Some(5));
    assert_eq!(state.key_version, 1);
}

#[test]
fn unreadable_key_ends_the_login() {
    let mut state = state();
    let search = search(&mut state);
    let mut key = own_key(6);
    key.wrapped_pnk = "AAAA".into();
    assert!(matches!(search.keys_fetched(&state, Ok(vec![key])), FoundKey::Unreadable));
    assert!(state.pnk.is_none() && state.device_id.is_none());
}

#[test]
fn new_key_is_stored_and_handed_out() {
    for fetched in [Ok(vec![]), Err("offline".to_string())] {
        let mut state = state();
        let search = search(&mut state);
        match search.keys_fetched(&state, fetched) {
            FoundKey::Fresh(new) => {
                let key = new.key.0;
                assert_eq!(new.store.write.blob, key.to_vec());
                assert_eq!(new.devices_request().query[1].1, "id,public_hik");
                let me = state.identity.export_public_hik();
                let devices = vec![DeviceKeyInfo { id: 5, public_hik: me }];
                let mut handout = new.devices_fetched(Ok(devices));
                let push = handout.handout.next_push().unwrap();
                assert_eq!(push.version, 1);
                assert_eq!(receive_key(&state.identity, &push.wrapped_pnk).unwrap().0, key);
                handout.handout.pushed(Err("refused".into()));
                handout.take_on(&mut state);
                assert_eq!(state.pnk.as_ref().unwrap().0, key);
                assert_eq!(state.device_id, Some(5));
            }
            _ => panic!("no new key"),
        }
    }
}

#[test]
fn new_key_is_taken_on_though_devices_are_unknown() {
    let mut state = state();
    let search = search(&mut state);
    match search.keys_fetched(&state, Ok(vec![])) {
        FoundKey::Fresh(new) => {
            let mut handout = new.devices_fetched(Err("offline".into()));
            assert!(handout.handout.next_push().is_none());
            handout.take_on(&mut state);
        }
        _ => panic!("no new key"),
    }
    assert!(state.pnk.is_some());
}

#[test]
fn given_key_is_the_new_one() {
    let mut state = state();
    let search = search(&mut state);
    let new = search.with_fresh_key(&state, PersonalNetworkKey([6; 32])).unwrap();
    assert_eq!(new.key.0, [6; 32]);
    assert_eq!(new.store.write.blob, vec![6; 32]);
    assert_eq!((new.device_id, new.user_id.as_str()), (5, "u"));
}

#[test]
fn every_login_is_answered_with_a_success() {
    let mut state = state();
    state.pending_encrypt = vec!["a".into(), "b".into()];
    let login = log_in(&mut state, "u".into()).unwrap();
    assert!(login.registered(Err("refused".into())).is_none());
    let (files, answer) = finish_login(&mut state);
    assert_eq!(files, vec!["a", "b"]);
    assert!(matches!(answer, IpcResponse::Success));
    assert!(state.pending_encrypt.is_empty());
    assert_eq!(state.logged_in_user.as_deref(), Some("u"));
}
