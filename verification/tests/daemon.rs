use bluehash::broker::{DeviceKeyInfo, Field, SupabaseClient, WrappedPnk};
use bluehash::crypto::{HardwareIdentity, PersonalNetworkKey};
use bluehash::daemon::{
    connections_listed, decrypted, devices_listed, encrypted, keys_fetched, opened,
    process_request, signed_off, Step,
};
use bluehash::distribution::Distribution;
use bluehash::ipc::{IpcRequest, IpcResponse};
use bluehash::manifest::{Manifest, ManifestEntry};
use bluehash::state::DaemonState;

fn identity(first: u8) -> HardwareIdentity {
    let mut secret = [0u8; 32];
    for (i, b) in secret.iter_mut().enumerate() {
        *b = first + i as u8;
    }
    let unsaved = HardwareIdentity::generated(secret, 2);
    unsaved.secret_stored(Ok(())).unwrap().version_stored(Ok(())).unwrap()
}

fn client() -> SupabaseClient {
    SupabaseClient::new(Some("https://x.co".into()), Some("key".into())).unwrap()
}

fn bare() -> DaemonState {
    DaemonState::new(identity(1), None, Manifest::blank())
}

fn ready() -> DaemonState {
    let mut state = DaemonState::new(identity(1), Some(client()), Manifest::blank());
    state.logged_in_user = Some("u".into());
    state.user_email = Some("u@x.co".into());
    state.user_image = Some("https://x.co/u.png".into());
    state.pnk = Some(PersonalNetworkKey([7; 32]));
    state.device_id = Some(5);
    state.key_version = 3;
    state
}

fn refusal(req: IpcRequest, state: &mut DaemonState) -> String {
    match process_request(req, state, "now") {
        Step::Respond(IpcResponse::Error(text)) => text,
        _ => panic!("not refused"),
    }
}

fn error_text(response: IpcResponse) -> String {
    match response {
        IpcResponse::Error(text) => text,
        _ => panic!("no error"),
    }
}

fn wrapped_for(id: &HardwareIdentity, key: [u8; 32], version: u32) -> WrappedPnk {
    let devices = vec![DeviceKeyInfo { id: 5, public_hik: id.export_public_hik() }];
    let mut handout =
        Distribution::begin(PersonalNetworkKey(key), version, id.secret().clone(), "u", devices);
    WrappedPnk {
        id: None,
        target_device_id: 5,
        wrapped_pnk: handout.next_push().unwrap().wrapped_pnk,
        version,
        created_at: None,
    }
}

#[test]
fn new_daemon_waits() {
    let state = bare();
    assert_eq!(state.key_version, 1);
    match state.status("host".into()) {
        IpcResponse::Status { hostname, is_active, state, hik, email, name, image_url } => {
            assert_eq!(hostname, "host");
            assert!(!is_active);
            assert_eq!(state, "Waiting for PNK");
            assert_eq!(hik, "B6N8vBQgk8i3VdwbEOhstCY3StFqqFPtC9/AsrhtHHw=");
            assert!(email.is_none() && name.is_none() && image_url.is_none());
        }
        _ => panic!("no status"),
    }
}

#[test]
fn daemon_with_a_key_is_ready() {
    let mut state = ready();
    assert!(matches!(
        process_request(IpcRequest::GetStatus, &mut state, "now"),
        Step::ReadHostname
    ));
    match state.status("host".into()) {
        IpcResponse::Status { is_active, state, email, image_url, .. } => {
            assert!(is_active);
            assert_eq!(state, "Ready (PNK loaded)");
            assert_eq!(email.as_deref(), Some("u@x.co"));
            assert_eq!(image_url.as_deref(), Some("https://x.co/u.png"));
        }
        _ => panic!("no status"),
    }
}

#[test]
fn heartbeat_while_logged_in() {
    let beat = ready().heartbeat("now").unwrap();
    assert_eq!(
        beat.url,
        "https://x.co/rest/v1/devices?public_hik=eq.B6N8vBQgk8i3VdwbEOhstCY3StFqqFPtC9/AsrhtHHw="
    );
    assert!(bare().heartbeat("now").is_none());
    let mut without_user = ready();
    without_user.logged_in_user = None;
    assert!(without_user.heartbeat("now").is_none());
    let mut without_broker = ready();
    without_broker.broker = None;
    assert!(without_broker.heartbeat("now").is_none());
}

#[test]
fn requests_without_a_session_are_refused() {
    let mut state = bare();
    assert_eq!(refusal(IpcRequest::SyncKeys, &mut state), "Not ready for sync");
    let invite = IpcRequest::AcceptInvite { target_user_id: "v".into() };
    assert_eq!(refusal(invite, &mut state), "Broker not initialized");
    assert_eq!(refusal(IpcRequest::RotatePnk, &mut state), "Not logged in");
    assert_eq!(refusal(IpcRequest::RotateHik, &mut state), "Not logged in");
    assert_eq!(refusal(IpcRequest::GetNetworkDevices, &mut state), "Failed to fetch devices");
    assert_eq!(refusal(IpcRequest::GetConnections, &mut state), "Failed to fetch connections");
    let open = IpcRequest::OpenFile { enc_path: "p".into() };
    assert_eq!(refusal(open, &mut state), "Not logged in \u{2014} cannot decrypt");
    assert_eq!(
        refusal(IpcRequest::StartOAuthFlow, &mut state),
        "Supabase broker not configured (missing env vars)"
    );
    assert!(!state.oauth_listening);
}

#[test]
fn network_requests_are_refused() {
    let mut state = ready();
    for req in [
        IpcRequest::ListNetworks,
        IpcRequest::EncryptFileToNetwork { file_path: "f".into(), network_id: "n".into() },
        IpcRequest::GetFilesInNetwork { network_id: "n".into() },
        IpcRequest::SyncNetworks,
    ] {
        assert_eq!(refusal(req, &mut state), "Networks are not supported");
    }
}

#[test]
fn invites_need_a_key() {
    let mut state = ready();
    let invite = IpcRequest::AcceptInvite { target_user_id: "v".into() };
    assert!(matches!(
        process_request(invite, &mut state, "now"),
        Step::Respond(IpcResponse::Success)
    ));
    state.pnk = None;
    let invite = IpcRequest::AcceptInvite { target_user_id: "v".into() };
    assert_eq!(refusal(invite, &mut state), "No PNK available to share");
}

#[test]
fn requests_that_ask_the_broker() {
    let mut state = ready();
    match process_request(IpcRequest::SyncKeys, &mut state, "now") {
        Step::FetchKeys(r) => {
            assert_eq!(r.query[0].1, "eq.00000000-0000-0000-0000-000000000005")
        }
        _ => panic!("no keys are fetched"),
    }
    match process_request(IpcRequest::GetNetworkDevices, &mut state, "now") {
        Step::ListDevices(r) => assert_eq!(r.query[0].1, "eq.u"),
        _ => panic!("no devices are listed"),
    }
    match process_request(IpcRequest::GetConnections, &mut state, "now") {
        Step::ListConnections(r) => {
            assert_eq!(r.query[0].1, "(initiator_user_id.eq.u,target_user_id.eq.u)")
        }
        _ => panic!("no connections are listed"),
    }
}

#[test]
fn lists_from_the_broker() {
    match devices_listed(Ok(vec!["a".into()])) {
        IpcResponse::NetworkDevices(names) => assert_eq!(names, vec!["a"]),
        _ => panic!("no list"),
    }
    assert_eq!(error_text(devices_listed(Err("x".into()))), "Failed to fetch devices");
    match connections_listed(Ok(vec![1])) {
        IpcResponse::Connections(names) => {
            assert_eq!(names, vec!["00000000-0000-0000-0000-000000000001"])
        }
        _ => panic!("no list"),
    }
    assert_eq!(error_text(connections_listed(Err("x".into()))), "Failed to fetch connections");
}

#[test]
fn latest_key_is_synced() {
    let mut state = ready();
    let keys = vec![
        wrapped_for(&identity(1), [9; 32], 8),
        wrapped_for(&identity(1), [10; 32], 7),
    ];
    assert!(matches!(keys_fetched(&mut state, Ok(keys)), IpcResponse::Success));
    assert_eq!(state.pnk.as_ref().unwrap().0, [9; 32]);
    assert_eq!(state.key_version, 8);
}

#[test]
fn failed_sync_changes_nothing() {
    let mut state = ready();
    assert_eq!(
        error_text(keys_fetched(&mut state, Ok(vec![]))),
        "No keys available for sync"
    );
    assert_eq!(error_text(keys_fetched(&mut state, Err("x".into()))), "Failed to fetch keys");
    let foreign = vec![wrapped_for(&identity(101), [9; 32], 8)];
    assert_eq!(error_text(keys_fetched(&mut state, Ok(foreign))), "Key unwrap failed");
    assert_eq!(state.pnk.as_ref().unwrap().0, [7; 32]);
    assert_eq!(state.key_version, 3);
}

#[test]
fn logout_forgets_the_user_and_the_key() {
    let mut state = ready();
    match process_request(IpcRequest::Logout, &mut state, "now") {
        Step::SignOff(r) => {
            let body = r.body.unwrap();
            assert!(matches!(body[0].1, Field::Flag(false)));
            assert!(matches!(&body[1].1, Field::Text(t) if t == "now"));
        }
        _ => panic!("the broker is not told"),
    }
    assert!(state.pnk.is_some());
    let answer = signed_off(&mut state, Err("offline".into()));
    assert!(matches!(answer, IpcResponse::Success));
    assert!(state.logged_in_user.is_none() && state.user_email.is_none());
    assert!(state.user_image.is_none() && state.pnk.is_none() && state.device_id.is_none());
    assert_eq!(state.key_version, 3);
    assert!(matches!(
        state.status("h".into()),
        IpcResponse::Status { is_active: false, .. }
    ));
}

#[test]
fn logout_without_a_broker_is_immediate() {
    let mut state = ready();
    state.broker = None;
    assert!(matches!(
        process_request(IpcRequest::Logout, &mut state, "now"),
        Step::Respond(IpcResponse::Success)
    ));
    assert!(state.pnk.is_none() && state.logged_in_user.is_none());
}

#[test]
fn listed_files_open_under_their_names() {
    let mut state = ready();
    let entry = ManifestEntry { original_name: "a.txt".into(), ..ManifestEntry::default() };
    state.manifest.insert("p.enc".into(), entry);
    match process_request(IpcRequest::GetFiles, &mut state, "now") {
        Step::Respond(IpcResponse::Files(files)) => {
            assert_eq!(files.len(), 1);
            assert_eq!(files[0].original_name, "a.txt");
        }
        _ => panic!("no files"),
    }
    match process_request(IpcRequest::OpenFile { enc_path: "p.enc".into() }, &mut state, "now") {
        Step::Decrypt(r) => {
            assert_eq!(r.enc_path, "p.enc");
            assert_eq!(r.key.0, [7; 32]);
            assert_eq!(r.name(), "a.txt");
            assert_eq!(r.name_or("p".into()), "a.txt");
        }
        _ => panic!("not decrypted"),
    }
    match process_request(IpcRequest::OpenFile { enc_path: "q.enc".into() }, &mut state, "now") {
        Step::Decrypt(r) => {
            assert_eq!(r.name(), "q");
            assert_eq!(r.name_or("s".into()), "s");
        }
        _ => panic!("not decrypted"),
    }
}

#[test]
fn outcomes_of_opening() {
    assert!(matches!(decrypted(Ok("t".into())), Ok(path) if path == "t"));
    match decrypted(Err("bad tag".into())) {
        Err(r) => assert_eq!(error_text(r), "Decryption failed: bad tag"),
        Ok(_) => panic!("it failed"),
    }
    assert!(matches!(opened(Ok(())), IpcResponse::Success));
    assert_eq!(error_text(opened(Err("no app".into()))), "Decrypted but could not open: no app");
}

#[test]
fn files_are_encrypted_on_request() {
    let mut state = ready();
    let req = IpcRequest::EncryptFile { file_path: "C:\\f".into() };
    assert!(matches!(process_request(req, &mut state, "now"), Step::Encrypt(p) if p == "C:\\f"));
    assert!(matches!(encrypted(), IpcResponse::Success));
}

#[test]
fn waiting_files_are_taken_in_order() {
    let mut state = ready();
    state.pending_encrypt = vec!["a".into(), "b".into()];
    assert_eq!(state.drain_pending(), vec!["a", "b"]);
    assert!(state.pending_encrypt.is_empty());
    assert!(state.drain_pending().is_empty());
}

#[test]
fn unlisted_file_is_named_after_its_stem() {
    for (path, stem) in [
        ("notes.txt.enc", "notes.txt"),
        ("a/b/notes.txt.enc", "notes.txt"),
        ("/a.b/x", "x"),
        ("x", "x"),
        (".enc", ".enc"),
        ("a/..x", "."),
        ("x.", "x"),
        ("a/..", ""),
        ("..", ""),
        ("", ""),
    ] {
        let mut state = ready();
        let req = IpcRequest::OpenFile { enc_path: path.into() };
        match process_request(req, &mut state, "now") {
            Step::Decrypt(r) => assert_eq!(r.name(), stem),
            _ => panic!("not decrypted"),
        }
    }
}
