use bluehash::broker::{DeviceKeyInfo, Field, SupabaseClient};
use bluehash::crypto::{CryptoError, HardwareIdentity, PersonalNetworkKey};
use bluehash::distribution::receive_key;
use bluehash::ipc::IpcResponse;
use bluehash::manifest::Manifest;
use bluehash::rotation::{
    begin_hik_rotation, begin_pnk_rotation, begin_pnk_rotation_with, finish_hik_rotation,
    finish_pnk_rotation, hik_saved, HikStep, HikUpdate, Rewrap, PNK_ROTATION_INTERVAL_SECS,
};
use bluehash::state::DaemonState;

fn state() -> DaemonState {
    let unsaved = HardwareIdentity::generated([3; 32], 4);
    let identity = unsaved.secret_stored(Ok(())).unwrap().version_stored(Ok(())).unwrap();
    let client = SupabaseClient::new(Some("https://x.co".into()), Some("k".into())).unwrap();
    let mut state = DaemonState::new(identity, Some(client), Manifest::blank());
    state.logged_in_user = Some("u".into());
    state.pnk = Some(PersonalNetworkKey([7; 32]));
    state.device_id = Some(5);
    state
}

fn own_device(state: &DaemonState) -> DeviceKeyInfo {
    DeviceKeyInfo { id: 5, public_hik: state.identity.export_public_hik() }
}

fn error_text(response: IpcResponse) -> String {
    match response {
        IpcResponse::Error(text) => text,
        _ => panic!("no error"),
    }
}

fn rewrap(update: HikUpdate, state: &DaemonState) -> Rewrap {
    match update.published(state, Ok(())) {
        HikStep::HandOut(rewrap) => rewrap,
        HikStep::Respond(_) => panic!("there is a key"),
    }
}

#[test]
fn rotation_is_daily() {
    assert_eq!(PNK_ROTATION_INTERVAL_SECS, 24 * 60 * 60);
}

#[test]
fn rotated_key_is_taken_on_and_handed_out() {
    let mut state = state();
    let rotation = begin_pnk_rotation(&state).unwrap();
    assert_eq!(rotation.version, 2);
    assert_eq!(rotation.devices_request().query[0].1, "eq.u");
    let key = rotation.key.0;
    assert_ne!(key, [7; 32]);
    let mut handout = rotation.devices_fetched(Ok(vec![own_device(&state)])).ok().unwrap();
    let push = handout.next_push().unwrap();
    assert_eq!(push.version, 2);
    assert_eq!(receive_key(&state.identity, &push.wrapped_pnk).unwrap().0, key);
    handout.pushed(Ok(()));
    assert!(handout.next_push().is_none());
    assert!(matches!(finish_pnk_rotation(&mut state, handout), IpcResponse::Success));
    assert_eq!(state.pnk.as_ref().unwrap().0, key);
    assert_eq!(state.key_version, 2);
}

#[test]
fn refused_push_stops_the_rotation() {
    let mut state = state();
    let rotation = begin_pnk_rotation(&state).unwrap();
    let devices = vec![own_device(&state), own_device(&state), own_device(&state)];
    let mut handout = rotation.devices_fetched(Ok(devices)).ok().unwrap();
    for outcome in [Err("a".to_string()), Ok(()), Err("b".to_string())] {
        handout.next_push().unwrap();
        handout.pushed(outcome);
    }
    assert_eq!(
        error_text(finish_pnk_rotation(&mut state, handout)),
        "PNK rotated but 2 device(s) failed"
    );
    assert_eq!(state.pnk.as_ref().unwrap().0, [7; 32]);
    assert_eq!(state.key_version, 1);
}

#[test]
fn rotation_needs_the_devices() {
    let rotation = begin_pnk_rotation(&state()).unwrap();
    match rotation.devices_fetched(Err("offline".into())) {
        Err(r) => assert_eq!(error_text(r), "Failed to fetch devices for rotation"),
        Ok(_) => panic!("no devices"),
    }
}

#[test]
fn rotation_needs_a_session() {
    let mut state = state();
    state.logged_in_user = None;
    assert!(begin_pnk_rotation(&state).is_none());
    assert!(begin_hik_rotation(&state).is_none());
}

#[test]
fn highest_key_version_stays() {
    let mut state = state();
    state.key_version = u32::MAX;
    assert_eq!(begin_pnk_rotation(&state).unwrap().version, u32::MAX);
}

#[test]
fn rotated_identity_is_published_and_the_key_goes_out_again() {
    let mut state = state();
    let before = state.identity.export_public_hik();
    let rotation = begin_hik_rotation(&state).unwrap();
    let saved =
        rotation.new_identity.secret_stored(Ok(())).unwrap().version_stored(Ok(()));
    let update =
        hik_saved(&mut state, rotation.client, rotation.user_id, saved, "now").ok().unwrap();
    assert_ne!(state.identity.export_public_hik(), before);
    assert_eq!(state.identity.version, 5);
    let request = update.request.as_ref().unwrap();
    assert_eq!(
        request.url,
        "https://x.co/rest/v1/devices?id=eq.00000000-0000-0000-0000-000000000005"
    );
    let body = request.body.as_ref().unwrap();
    assert!(matches!(&body[0].1, Field::Text(t) if *t == state.identity.export_public_hik()));
    assert!(matches!(body[1].1, Field::Number(5)));
    let rewrap = rewrap(update, &state);
    let mut handout = rewrap.devices_fetched(Ok(vec![own_device(&state)]));
    let push = handout.next_push().unwrap();
    assert_eq!(push.version, 1);
    assert_eq!(receive_key(&state.identity, &push.wrapped_pnk).unwrap().0, [7; 32]);
    handout.pushed(Err("refused".into()));
    assert!(matches!(finish_hik_rotation(handout), IpcResponse::Success));
    assert_eq!(state.pnk.as_ref().unwrap().0, [7; 32]);
    assert_eq!(state.key_version, 1);
}

#[test]
fn unsaved_identity_is_not_taken_on() {
    let mut state = state();
    let before = state.identity.export_public_hik();
    let rotation = begin_hik_rotation(&state).unwrap();
    let failed = Err(CryptoError::Keychain("full".into()));
    match hik_saved(&mut state, rotation.client, rotation.user_id, failed, "now") {
        Err(r) => assert_eq!(error_text(r), "HIK rotation failed: Keychain error: full"),
        Ok(_) => panic!("it was not saved"),
    }
    assert_eq!(state.identity.export_public_hik(), before);
}

#[test]
fn identity_of_an_unknown_device_is_not_published() {
    let mut state = state();
    state.device_id = None;
    state.pnk = None;
    let rotation = begin_hik_rotation(&state).unwrap();
    let saved =
        rotation.new_identity.secret_stored(Ok(())).unwrap().version_stored(Ok(()));
    let update =
        hik_saved(&mut state, rotation.client, rotation.user_id, saved, "now").ok().unwrap();
    assert!(update.request.is_none());
    assert!(matches!(
        update.published(&state, Ok(())),
        HikStep::Respond(IpcResponse::Success)
    ));
}

#[test]
fn refused_identity_is_reported() {
    let mut state = state();
    let rotation = begin_hik_rotation(&state).unwrap();
    let saved =
        rotation.new_identity.secret_stored(Ok(())).unwrap().version_stored(Ok(()));
    let update =
        hik_saved(&mut state, rotation.client, rotation.user_id, saved, "now").ok().unwrap();
    match update.published(&state, Err("offline".into())) {
        HikStep::Respond(r) => assert_eq!(error_text(r), "DB update for HIK failed"),
        HikStep::HandOut(_) => panic!("it was refused"),
    }
}

#[test]
fn rewrapped_key_reaches_nobody_when_devices_are_unknown() {
    let mut state = state();
    let rotation = begin_hik_rotation(&state).unwrap();
    let saved =
        rotation.new_identity.secret_stored(Ok(())).unwrap().version_stored(Ok(()));
    let update =
        hik_saved(&mut state, rotation.client, rotation.user_id, saved, "now").ok().unwrap();
    let rewrap = rewrap(update, &state);
    assert_eq!(rewrap.devices_request().query[0].1, "eq.u");
    assert!(rewrap.devices_fetched(Err("offline".into())).next_push().is_none());
}

#[test]
fn rotation_to_a_given_key() {
    let mut state = state();
    let key = PersonalNetworkKey([8; 32]);
    let rotation = begin_pnk_rotation_with(&state, key).unwrap();
    assert_eq!(rotation.key.0, [8; 32]);
    assert_eq!((rotation.version, rotation.user_id.as_str()), (2, "u"));
    let handout = rotation.devices_fetched(Ok(vec![])).ok().unwrap();
    assert!(matches!(finish_pnk_rotation(&mut state, handout), IpcResponse::Success));
    assert_eq!(state.pnk.as_ref().unwrap().0, [8; 32]);
}
