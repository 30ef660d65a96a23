//! What the daemon does with the tray's requests. A request is answered at once
//! or after work outside, which the daemon names and whose outcome it takes
//! back.

use crate::broker::{
    changing, eq_filter, reading, BrokerRequest, FieldView, Method, RequestView, SupabaseClient,
    WrappedPnk,
};
use crate::crypto::{next_version, PersonalNetworkKey};
use crate::distribution::{carries, own_key_is_received, receive_key, received_key};
use crate::encoding::base64_text;
use crate::ipc::{error, is_error, FileInfo, IpcRequest, IpcResponse};
use crate::login::{log_in, Login};
use crate::manifest::{
    every_file_is_listed_once, listed, manifest_is_seen_by_its_files, ManifestEntry,
};
use crate::identifier::uuid_text;
use crate::outside::file_stem;
use crate::pairing::{begin_pairing, PairingStart};
use crate::paths::{
    begins_with_two_separators, is_stem_in, names_file, slash_name, stem_is_the_same_everywhere,
    stem_of,
};
use crate::rotation::{begin_hik_rotation, begin_pnk_rotation, HikRotation, PnkRotation};
use crate::state::DaemonState;
use crate::text::{join2, occurs, texts};
use vstd::prelude::*;

verus! {

/// What to do about a request.
pub enum Step {
    /// Answer with this.
    Respond(IpcResponse),
    /// Find out the host's name, and answer with `DaemonState::status`.
    ReadHostname,
    /// Create a session at the broker, and go on with
    /// `pairing::session_created`.
    CreateSession,
    /// Ask the broker, and answer with `keys_fetched`.
    FetchKeys(BrokerRequest),
    /// Hand out the key, and answer with `rotation::finish_pnk_rotation`.
    RotatePnk(PnkRotation),
    /// Save the identity, and go on with `rotation::hik_saved`, whose steps end
    /// in an answer.
    RotateHik(HikRotation),
    /// Go through the login where there is one, and end it with
    /// `login::finish_login`, which gives the answer.
    LogIn(Option<Login>),
    /// Ask the broker, and answer with `devices_listed`.
    ListDevices(BrokerRequest),
    /// Ask the broker, and answer with `connections_listed`.
    ListConnections(BrokerRequest),
    /// Tell the broker, and answer with `signed_off`.
    SignOff(BrokerRequest),
    /// Decrypt the file, and go on with `decrypted`.
    Decrypt(OpenRequest),
    /// Encrypt the file at this path, and answer with `encrypted`.
    Encrypt(String),
}

/// A file to decrypt.
pub struct OpenRequest {
    pub enc_path: String,
    pub key: PersonalNetworkKey,
    /// The file's original name, where the manifest knows it.
    pub known_name: Option<String>,
}

impl OpenRequest {
    /// The name to decrypt the file under: its original one, or the name of the
    /// encrypted file without its extension, or nothing where its path ends in no
    /// name.
    pub fn name(&self) -> (r: String)
        ensures
            match self.known_name {
                Some(name) => r == name,
                None => {
                    let path = self.enc_path@;
                    &&& names_file(path) ==> is_stem_in(path, r@)
                    &&& names_file(path) && !path.contains('\\') ==> r@ == stem_of(slash_name(path))
                    &&& path.len() == 0 || slash_name(path) == seq!['.', '.']
                        && !begins_with_two_separators(path) ==> r@.len() == 0
                    &&& begins_with_two_separators(path) || !r@.contains('/')
                    &&& r@.len() == 0 || occurs(path, r@)
                },
            },
    {
        let stem = match file_stem(&self.enc_path) {
            Some(stem) => stem,
            None => String::new(),
        };
        proof {
            if names_file(self.enc_path@) && !self.enc_path@.contains('\\') {
                stem_is_the_same_everywhere(self.enc_path@, stem@);
            }
        }
        self.name_or(stem)
    }

    /// The name to decrypt the file under: its original one, or `stem`.
    pub fn name_or(&self, stem: String) -> (r: String)
        ensures
            r == (match self.known_name {
                Some(name) => name,
                None => stem,
            }),
    {
        match &self.known_name {
            Some(name) => name.clone(),
            None => stem,
        }
    }
}

/// Whether `r` is what to do about `req` in the given state, at the time `now`.
pub open spec fn is_step_for(state: DaemonState, req: IpcRequest, now: Seq<char>, r: Step) -> bool {
    match req {
        IpcRequest::GetStatus => r is ReadHostname,
        IpcRequest::StartOAuthFlow => if state.oauth_listening {
            &&& r matches Step::Respond(answer)
            &&& is_error(answer, "Login already in progress. Check your browser."@)
        } else if state.broker is None {
            &&& r matches Step::Respond(answer)
            &&& is_error(answer, "Supabase broker not configured (missing env vars)"@)
        } else {
            r is CreateSession
        },
        IpcRequest::SyncKeys => if state.broker is Some && state.device_id is Some {
            &&& r matches Step::FetchKeys(request)
            &&& request@ == reading(
                state.broker->0.keys_url(),
                seq![
                    ("target_device_id"@, eq_filter(uuid_text(state.device_id->0))),
                    ("order"@, "version.desc"@),
                ],
            )
        } else {
            &&& r matches Step::Respond(answer)
            &&& is_error(answer, "Not ready for sync"@)
        },
        IpcRequest::AcceptInvite { target_user_id: _ } => {
            &&& r matches Step::Respond(answer)
            &&& if state.broker is None {
                is_error(answer, "Broker not initialized"@)
            } else if state.pnk is None {
                is_error(answer, "No PNK available to share"@)
            } else {
                answer is Success
            }
        },
        IpcRequest::RotatePnk => if state.has_session() {
            &&& r matches Step::RotatePnk(rotation)
            &&& Some(rotation.client) == state.broker
            &&& Some(rotation.user_id) == state.logged_in_user
            &&& rotation.version == next_version(state.key_version)
            &&& rotation.sender == state.identity.secret_key()
        } else {
            &&& r matches Step::Respond(answer)
            &&& is_error(answer, "Not logged in"@)
        },
        IpcRequest::RotateHik => if state.has_session() {
            &&& r matches Step::RotateHik(rotation)
            &&& Some(rotation.client) == state.broker
            &&& Some(rotation.user_id) == state.logged_in_user
            &&& rotation.new_identity.identity().wf()
            &&& rotation.new_identity.identity().version == next_version(state.identity.version)
        } else {
            &&& r matches Step::Respond(answer)
            &&& is_error(answer, "Not logged in"@)
        },
        IpcRequest::Login { user_id } => {
            &&& r matches Step::LogIn(rest)
            &&& rest is Some <==> state.broker is Some
            &&& rest matches Some(login) ==> {
                &&& Some(login.client) == state.broker
                &&& login.user_id == user_id
            }
        },
        IpcRequest::GetNetworkDevices => if state.has_session() {
            &&& r matches Step::ListDevices(request)
            &&& request@ == reading(
                state.broker->0.devices_url(),
                seq![
                    ("user_id"@, eq_filter(state.logged_in_user->0@)),
                    ("select"@, "device_name"@),
                ],
            )
        } else {
            &&& r matches Step::Respond(answer)
            &&& is_error(answer, "Failed to fetch devices"@)
        },
        IpcRequest::GetConnections => if state.has_session() {
            let user = state.logged_in_user->0@;
            &&& r matches Step::ListConnections(request)
            &&& request@ == reading(
                state.broker->0.connections_url(),
                seq![
                    (
                        "or"@,
                        "(initiator_user_id.eq."@ + user + ",target_user_id.eq."@ + user + ")"@,
                    ),
                    ("status"@, "eq.accepted"@),
                    ("select"@, "id"@),
                ],
            )
        } else {
            &&& r matches Step::Respond(answer)
            &&& is_error(answer, "Failed to fetch connections"@)
        },
        IpcRequest::Logout => if state.broker is Some {
            &&& r matches Step::SignOff(request)
            &&& request@ == changing(
                state.broker->0.device_row(base64_text(state.identity.public_bytes())),
                seq![
                    ("is_active"@, FieldView::Flag(false)),
                    ("disconnected_at"@, FieldView::Text(now)),
                ],
            )
        } else {
            &&& r matches Step::Respond(answer)
            &&& answer is Success
        },
        IpcRequest::GetFiles => {
            &&& r matches Step::Respond(IpcResponse::Files(files))
            &&& files@ == state.manifest.files@.map_values(
                |file: (String, ManifestEntry)| listed(file),
            )
        },
        IpcRequest::OpenFile { enc_path } => if state.pnk is Some {
            &&& r matches Step::Decrypt(request)
            &&& request.enc_path == enc_path
            &&& request.key.0@ == (state.pnk->0).0@
            &&& request.known_name == (if state.manifest@.dom().contains(enc_path@) {
                Some(state.manifest@[enc_path@].original_name)
            } else {
                None
            })
        } else {
            &&& r matches Step::Respond(answer)
            &&& is_error(answer, "Not logged in \u{2014} cannot decrypt"@)
        },
        IpcRequest::EncryptFile { file_path } => r == Step::Encrypt(file_path),
        IpcRequest::ListNetworks | IpcRequest::EncryptFileToNetwork {
            ..
        } | IpcRequest::GetFilesInNetwork { .. } | IpcRequest::SyncNetworks => {
            &&& r matches Step::Respond(answer)
            &&& is_error(answer, "Networks are not supported"@)
        },
    }
}

/// The state right after a request, before any work outside.
pub open spec fn state_after(state: DaemonState, req: IpcRequest) -> DaemonState {
    match req {
        IpcRequest::StartOAuthFlow => DaemonState {
            oauth_listening: state.oauth_listening || state.broker is Some,
            ..state
        },
        IpcRequest::Login { user_id } => DaemonState { logged_in_user: Some(user_id), ..state },
        IpcRequest::Logout => if state.broker is Some {
            state
        } else {
            state.logged_out()
        },
        _ => state,
    }
}

/// Decides what to do about a request. `now` is the time in RFC 3339.
pub fn process_request(req: IpcRequest, state: &mut DaemonState, now: &str) -> (r: Step)
    requires
        old(state).manifest.wf(),
    ensures
        is_step_for(*old(state), req, now@, r),
        *final(state) == state_after(*old(state), req),
        old(state).wf() ==> final(state).wf(),
{
    match req {
        IpcRequest::GetStatus => Step::ReadHostname,
        IpcRequest::StartOAuthFlow => match begin_pairing(state) {
            PairingStart::Refused(answer) => Step::Respond(answer),
            PairingStart::CreateSession => Step::CreateSession,
        },
        IpcRequest::SyncKeys => match (&state.broker, state.device_id) {
            (Some(client), Some(device_id)) => Step::FetchKeys(
                client.fetch_wrapped_pnks_for_device(device_id),
            ),
            _ => Step::Respond(error("Not ready for sync")),
        },
        IpcRequest::AcceptInvite { target_user_id: _ } => {
            if state.broker.is_none() {
                Step::Respond(error("Broker not initialized"))
            } else if state.pnk.is_none() {
                Step::Respond(error("No PNK available to share"))
            } else {
                Step::Respond(IpcResponse::Success)
            }
        },
        IpcRequest::RotatePnk => match begin_pnk_rotation(state) {
            Some(rotation) => Step::RotatePnk(rotation),
            None => Step::Respond(error("Not logged in")),
        },
        IpcRequest::RotateHik => match begin_hik_rotation(state) {
            Some(rotation) => Step::RotateHik(rotation),
            None => Step::Respond(error("Not logged in")),
        },
        IpcRequest::Login { user_id } => Step::LogIn(log_in(state, user_id)),
        IpcRequest::GetNetworkDevices => match (&state.broker, &state.logged_in_user) {
            (Some(client), Some(user_id)) => Step::ListDevices(client.get_active_devices(user_id)),
            _ => Step::Respond(devices_listed(Err(String::new()))),
        },
        IpcRequest::GetConnections => match (&state.broker, &state.logged_in_user) {
            (Some(client), Some(user_id)) => Step::ListConnections(client.get_connections(user_id)),
            _ => Step::Respond(connections_listed(Err(String::new()))),
        },
        IpcRequest::Logout => {
            if let Some(client) = &state.broker {
                let hik = state.identity.export_public_hik();
                return Step::SignOff(client.set_device_status(&hik, false, now));
            }
            state.log_out();
            Step::Respond(IpcResponse::Success)
        },
        IpcRequest::GetFiles => Step::Respond(IpcResponse::Files(state.manifest.file_infos())),
        IpcRequest::OpenFile { enc_path } => match &state.pnk {
            Some(pnk) => {
                let known_name = match state.manifest.get(&enc_path) {
                    Some(entry) => Some(entry.original_name.clone()),
                    None => None,
                };
                Step::Decrypt(OpenRequest { enc_path, key: PersonalNetworkKey(pnk.0), known_name })
            },
            None => Step::Respond(error("Not logged in \u{2014} cannot decrypt")),
        },
        IpcRequest::EncryptFile { file_path } => Step::Encrypt(file_path),
        IpcRequest::ListNetworks => Step::Respond(error("Networks are not supported")),
        IpcRequest::EncryptFileToNetwork { file_path: _, network_id: _ } => Step::Respond(
            error("Networks are not supported"),
        ),
        IpcRequest::GetFilesInNetwork { network_id: _ } => Step::Respond(
            error("Networks are not supported"),
        ),
        IpcRequest::SyncNetworks => Step::Respond(error("Networks are not supported")),
    }
}

/// Whether `r` is the answer to a request for the latest key when the broker
/// answered `fetched`, and `after` the state once it was given: the first of the
/// broker's keys is taken on, with its version, where it can be read; else
/// nothing changes.
pub open spec fn is_sync_of(
    before: DaemonState,
    fetched: Result<Vec<WrappedPnk>, String>,
    after: DaemonState,
    r: IpcResponse,
) -> bool {
    match fetched {
        Ok(keys) => if keys@.len() == 0 {
            is_error(r, "No keys available for sync"@) && after == before
        } else {
            match received_key(before.identity, keys@[0].wrapped_pnk@) {
                Some(key) => {
                    &&& r is Success
                    &&& after.pnk is Some
                    &&& (after.pnk->0).0@ == key
                    &&& after == (DaemonState {
                        key_version: keys@[0].version,
                        pnk: after.pnk,
                        ..before
                    })
                },
                None => is_error(r, "Key unwrap failed"@) && after == before,
            }
        },
        Err(_) => is_error(r, "Failed to fetch keys"@) && after == before,
    }
}

/// Answers a request for the latest key, from the broker's answer.
pub fn keys_fetched(state: &mut DaemonState, fetched: Result<Vec<WrappedPnk>, String>) -> (r:
    IpcResponse)
    ensures
        is_sync_of(*old(state), fetched, *final(state), r),
        old(state).wf() ==> final(state).wf(),
{
    match fetched {
        Ok(wrapped_pnks) => {
            if wrapped_pnks.len() == 0 {
                return error("No keys available for sync");
            }
            let latest = &wrapped_pnks[0];
            match receive_key(&state.identity, &latest.wrapped_pnk) {
                Some(synced_key) => {
                    state.key_version = latest.version;
                    state.pnk = Some(synced_key);
                    IpcResponse::Success
                },
                None => error("Key unwrap failed"),
            }
        },
        Err(_) => error("Failed to fetch keys"),
    }
}

/// Answers a request to log out, once the broker was told, whatever came of it.
pub fn signed_off(state: &mut DaemonState, _outcome: Result<(), String>) -> (r: IpcResponse)
    ensures
        r is Success,
        *final(state) == old(state).logged_out(),
        *final(state) == (DaemonState {
            logged_in_user: None,
            user_email: None,
            user_image: None,
            pnk: None,
            device_id: None,
            ..*old(state)
        }),
        old(state).wf() ==> final(state).wf(),
{
    state.log_out();
    IpcResponse::Success
}

/// Answers a request to encrypt a file, once that was tried.
pub fn encrypted() -> (r: IpcResponse)
    ensures
        r is Success,
{
    IpcResponse::Success
}

/// Answers a request for the devices, from the names that the broker gave.
pub fn devices_listed(fetched: Result<Vec<String>, String>) -> (r: IpcResponse)
    ensures
        match fetched {
            Ok(names) => r == IpcResponse::NetworkDevices(names),
            Err(_) => is_error(r, "Failed to fetch devices"@),
        },
{
    match fetched {
        Ok(names) => IpcResponse::NetworkDevices(names),
        Err(_) => error("Failed to fetch devices"),
    }
}

/// Answers a request for the connections, from the identifiers that the broker
/// gave.
pub fn connections_listed(fetched: Result<Vec<u128>, String>) -> (r: IpcResponse)
    ensures
        match fetched {
            Ok(ids) => {
                &&& r matches IpcResponse::Connections(names)
                &&& texts(names@) == ids@.map_values(|id: u128| uuid_text(id))
            },
            Err(_) => is_error(r, "Failed to fetch connections"@),
        },
{
    match fetched {
        Ok(ids) => IpcResponse::Connections(SupabaseClient::connection_names(&ids)),
        Err(_) => error("Failed to fetch connections"),
    }
}

/// Goes on from the outcome of decrypting a file: the path of the decrypted
/// file, to be opened, or the answer where it failed. The outcome of opening it
/// goes to `opened`.
pub fn decrypted(outcome: Result<String, String>) -> (r: Result<String, IpcResponse>)
    ensures
        match outcome {
            Ok(path) => r == Ok::<String, IpcResponse>(path),
            Err(e) => r is Err && is_error(r->Err_0, "Decryption failed: "@ + e@),
        },
{
    match outcome {
        Ok(path) => Ok(path),
        Err(e) => Err(IpcResponse::Error(join2("Decryption failed: ", &e))),
    }
}

/// Answers a request to open a file, from the outcome of opening its decrypted
/// copy.
pub fn opened(outcome: Result<(), String>) -> (r: IpcResponse)
    ensures
        match outcome {
            Ok(_) => r is Success,
            Err(e) => is_error(r, "Decrypted but could not open: "@ + e@),
        },
{
    match outcome {
        Ok(_) => IpcResponse::Success,
        Err(e) => IpcResponse::Error(join2("Decrypted but could not open: ", &e)),
    }
}

// ---- Laws ---------------------------------------------------------------

/// Each rotation rotates what it is asked for: with a session, a request for a
/// new personal network key begins one of the next key version, sent by this
/// device, and a request for a new hardware identity begins one of the next
/// identity version.
pub proof fn rotations_rotate_what_was_asked(
    state: DaemonState,
    now: Seq<char>,
    for_pnk: Step,
    for_hik: Step,
)
    requires
        state.broker is Some,
        state.logged_in_user is Some,
        is_step_for(state, IpcRequest::RotatePnk, now, for_pnk),
        is_step_for(state, IpcRequest::RotateHik, now, for_hik),
    ensures
        for_pnk is RotatePnk,
        for_pnk->RotatePnk_0.client == state.broker->0,
        for_pnk->RotatePnk_0.user_id == state.logged_in_user->0,
        for_pnk->RotatePnk_0.sender == state.identity.secret_key(),
        state.key_version < u32::MAX ==> for_pnk->RotatePnk_0.version == state.key_version + 1,
        state.key_version == u32::MAX ==> for_pnk->RotatePnk_0.version == u32::MAX,
        for_hik is RotateHik,
        for_hik->RotateHik_0.client == state.broker->0,
        for_hik->RotateHik_0.user_id == state.logged_in_user->0,
        for_hik->RotateHik_0.new_identity.identity().wf(),
        state.identity.version < u32::MAX
            ==> for_hik->RotateHik_0.new_identity.identity().version == state.identity.version + 1,
        state.identity.version == u32::MAX
            ==> for_hik->RotateHik_0.new_identity.identity().version == u32::MAX,
        state_after(state, IpcRequest::RotatePnk) == state,
        state_after(state, IpcRequest::RotateHik) == state,
{
}

/// What needs a session or a registered device is refused without one, each
/// request in its own words.
pub proof fn requests_without_a_session_are_refused(
    state: DaemonState,
    req: IpcRequest,
    now: Seq<char>,
    r: Step,
)
    requires
        is_step_for(state, req, now, r),
    ensures
        req is SyncKeys && (state.broker is None || state.device_id is None) ==> refused_with(
            r,
            "Not ready for sync"@,
        ),
        (req is RotatePnk || req is RotateHik) && (state.broker is None || state.logged_in_user
            is None) ==> refused_with(r, "Not logged in"@),
        req is GetNetworkDevices && (state.broker is None || state.logged_in_user is None)
            ==> refused_with(r, "Failed to fetch devices"@),
        req is GetConnections && (state.broker is None || state.logged_in_user is None)
            ==> refused_with(r, "Failed to fetch connections"@),
        req is AcceptInvite && state.broker is None ==> refused_with(r, "Broker not initialized"@),
        req is AcceptInvite && state.broker is Some && state.pnk is None ==> refused_with(
            r,
            "No PNK available to share"@,
        ),
        req is OpenFile && state.pnk is None ==> refused_with(
            r,
            "Not logged in \u{2014} cannot decrypt"@,
        ),
        req is StartOAuthFlow && state.oauth_listening ==> refused_with(
            r,
            "Login already in progress. Check your browser."@,
        ),
        req is StartOAuthFlow && !state.oauth_listening && state.broker is None ==> refused_with(
            r,
            "Supabase broker not configured (missing env vars)"@,
        ),
        req is ListNetworks || req is EncryptFileToNetwork || req is GetFilesInNetwork
            || req is SyncNetworks ==> refused_with(r, "Networks are not supported"@),
{
}

/// Whether a step is to answer with the error of the given text.
pub open spec fn refused_with(r: Step, text: Seq<char>) -> bool {
    match r {
        Step::Respond(IpcResponse::Error(message)) => message@ == text,
        _ => false,
    }
}

/// A step refuses with a text exactly when it answers at once with the error that
/// holds it.
pub proof fn refusal_holds_its_text(r: Step, text: Seq<char>)
    ensures
        refused_with(r, text) <==> r is Respond && r->Respond_0 is Error
            && r->Respond_0->Error_0@ == text,
{
}

/// What asks the broker asks it just for what the request is about: the keys of
/// this device, the devices or the connections of the user who is logged in.
pub proof fn requests_ask_the_broker_for_their_subject(
    state: DaemonState,
    req: IpcRequest,
    now: Seq<char>,
    r: Step,
)
    requires
        is_step_for(state, req, now, r),
        state.broker is Some,
    ensures
        req is SyncKeys && state.device_id is Some ==> r is FetchKeys && r->FetchKeys_0@ == (
        RequestView {
            method: Method::Get,
            url: state.broker->0.url@ + "/rest/v1/key_broker"@,
            query: seq![
                ("target_device_id"@, "eq."@ + uuid_text(state.device_id->0)),
                ("order"@, "version.desc"@),
            ],
            prefer: None,
            body: None,
        }),
        req is GetNetworkDevices && state.logged_in_user is Some ==> r is ListDevices
            && r->ListDevices_0@ == (RequestView {
            method: Method::Get,
            url: state.broker->0.url@ + "/rest/v1/devices"@,
            query: seq![
                ("user_id"@, "eq."@ + state.logged_in_user->0@),
                ("select"@, "device_name"@),
            ],
            prefer: None,
            body: None,
        }),
        req is GetConnections && state.logged_in_user is Some ==> r is ListConnections
            && r->ListConnections_0@ == (RequestView {
            method: Method::Get,
            url: state.broker->0.url@ + "/rest/v1/connections"@,
            query: seq![
                (
                    "or"@,
                    "(initiator_user_id.eq."@ + state.logged_in_user->0@ + ",target_user_id.eq."@
                        + state.logged_in_user->0@ + ")"@,
                ),
                ("status"@, "eq.accepted"@),
                ("select"@, "id"@),
            ],
            prefer: None,
            body: None,
        }),
        req is Logout ==> r is SignOff && r->SignOff_0@ == (RequestView {
            method: Method::Patch,
            url: state.broker->0.url@ + "/rest/v1/devices"@ + "?public_hik=eq."@ + base64_text(
                state.identity.public_bytes(),
            ),
            query: Seq::empty(),
            prefer: None,
            body: Some(
                seq![
                    ("is_active"@, FieldView::Flag(false)),
                    ("disconnected_at"@, FieldView::Text(now)),
                ],
            ),
        }),
        req is StartOAuthFlow && !state.oauth_listening ==> r is CreateSession,
{
}

/// What needs no broker is done as it was asked: the status is read, the files
/// are listed as the manifest has them, a file is encrypted at its own path, an
/// invite is accepted where there is a key, and a logout without a broker is
/// answered at once.
pub proof fn local_requests_are_done_as_asked(
    state: DaemonState,
    req: IpcRequest,
    now: Seq<char>,
    r: Step,
)
    requires
        is_step_for(state, req, now, r),
    ensures
        req is GetStatus ==> r is ReadHostname,
        req is GetFiles ==> {
            &&& r is Respond
            &&& r->Respond_0 is Files
            &&& r->Respond_0->Files_0@.len() == state.manifest.files@.len()
            &&& forall|i: int|
                0 <= i < state.manifest.files@.len() ==> {
                    &&& (#[trigger] r->Respond_0->Files_0@[i]).enc_path
                        == state.manifest.files@[i].0
                    &&& r->Respond_0->Files_0@[i].original_name
                        == state.manifest.files@[i].1.original_name
                    &&& r->Respond_0->Files_0@[i].size_bytes
                        == state.manifest.files@[i].1.size_bytes
                    &&& r->Respond_0->Files_0@[i].encrypted_at
                        == state.manifest.files@[i].1.encrypted_at
                    &&& r->Respond_0->Files_0@[i].network_id is None
                }
        },
        req is EncryptFile ==> r is Encrypt && r->Encrypt_0 == req->EncryptFile_file_path,
        req is AcceptInvite && state.broker is Some && state.pnk is Some ==> r is Respond
            && r->Respond_0 is Success,
        req is Logout && state.broker is None ==> r is Respond && r->Respond_0 is Success,
        req is OpenFile && state.pnk is Some ==> {
            &&& r is Decrypt
            &&& r->Decrypt_0.enc_path == req->enc_path
            &&& r->Decrypt_0.key.0@ == (state.pnk->0).0@
        },
{
}

/// A login is for the user of the request, over the configured broker.
pub proof fn login_is_for_its_user(
    state: DaemonState,
    user_id: String,
    now: Seq<char>,
    r: Step,
)
    requires
        is_step_for(state, (IpcRequest::Login { user_id }), now, r),
    ensures
        r is LogIn,
        state.broker is None ==> r->LogIn_0 is None,
        state.broker is Some ==> r->LogIn_0 is Some && r->LogIn_0->0.user_id == user_id
            && r->LogIn_0->0.client == state.broker->0,
        state_after(state, (IpcRequest::Login { user_id })) == (DaemonState {
            logged_in_user: Some(user_id),
            ..state
        }),
{
}

/// Only a login, its beginning in the browser, and a logout without a broker
/// change the state at once, and each changes no more than it is about.
pub proof fn requests_change_no_more_than_they_are_about(state: DaemonState, req: IpcRequest)
    ensures
        req !is Login && req !is StartOAuthFlow && req !is Logout ==> state_after(state, req)
            == state,
        req is StartOAuthFlow && !state.oauth_listening && state.broker is Some ==> state_after(
            state,
            req,
        ) == (DaemonState { oauth_listening: true, ..state }),
        req is StartOAuthFlow && (state.oauth_listening || state.broker is None) ==> state_after(
            state,
            req,
        ) == state,
        req is Logout && state.broker is Some ==> state_after(state, req) == state,
        req is Logout && state.broker is None ==> state_after(state, req) == (DaemonState {
            logged_in_user: None,
            user_email: None,
            user_image: None,
            pnk: None,
            device_id: None,
            ..state
        }),
{
}

/// A file that the manifest does not know is opened without a name of its own,
/// and one that it knows under the original name of its entry.
pub proof fn file_opens_under_the_name_of_its_entry(
    state: DaemonState,
    enc_path: String,
    now: Seq<char>,
    r: Step,
)
    requires
        state.manifest.wf(),
        state.pnk is Some,
        is_step_for(state, (IpcRequest::OpenFile { enc_path }), now, r),
    ensures
        forall|i: int|
            0 <= i < state.manifest.files@.len() && (#[trigger] state.manifest.files@[i]).0@
                == enc_path@ ==> r->Decrypt_0.known_name == Some(
                state.manifest.files@[i].1.original_name,
            ),
        (forall|i: int|
            0 <= i < state.manifest.files@.len() ==> (#[trigger] state.manifest.files@[i]).0@
                != enc_path@) ==> r->Decrypt_0.known_name is None,
{
    manifest_is_seen_by_its_files(state.manifest);
}

/// A request for the latest key takes on the first of the broker's keys and its
/// version where this device can read it, and changes nothing else; in all other
/// cases it changes nothing at all and says why.
pub proof fn sync_takes_on_the_first_key(
    before: DaemonState,
    keys: Vec<WrappedPnk>,
    after: DaemonState,
    r: IpcResponse,
)
    requires
        is_sync_of(before, Ok(keys), after, r),
    ensures
        keys@.len() == 0 ==> r is Error && r->Error_0@ == "No keys available for sync"@ && after
            == before,
        keys@.len() > 0 ==> (r is Success <==> received_key(
            before.identity,
            keys@[0].wrapped_pnk@,
        ) is Some),
        keys@.len() > 0 && r !is Success ==> r is Error && r->Error_0@ == "Key unwrap failed"@
            && after == before,
        r is Success ==> {
            &&& after.pnk is Some
            &&& Some((after.pnk->0).0@) == received_key(before.identity, keys@[0].wrapped_pnk@)
            &&& after.key_version == keys@[0].version
            &&& after.identity == before.identity
            &&& after.broker == before.broker
            &&& after.logged_in_user == before.logged_in_user
            &&& after.user_email == before.user_email
            &&& after.user_image == before.user_image
            &&& after.oauth_listening == before.oauth_listening
            &&& after.device_id == before.device_id
            &&& after.manifest == before.manifest
            &&& after.in_flight == before.in_flight
            &&& after.pending_encrypt == before.pending_encrypt
        },
{
}

/// A request for the latest key that the broker does not answer fails and
/// changes nothing.
pub proof fn unanswered_sync_changes_nothing(
    before: DaemonState,
    reason: String,
    after: DaemonState,
    r: IpcResponse,
)
    requires
        is_sync_of(before, Err(reason), after, r),
    ensures
        r is Error && r->Error_0@ == "Failed to fetch keys"@,
        after == before,
{
}

/// A request that is refused at once changes nothing.
pub proof fn refused_request_changes_nothing(
    state: DaemonState,
    req: IpcRequest,
    now: Seq<char>,
    r: Step,
)
    requires
        is_step_for(state, req, now, r),
        r is Respond,
        r->Respond_0 is Error,
    ensures
        state_after(state, req) == state,
{
}

/// Every file that the daemon lists can be opened under the name it is listed
/// with, while there is a key.
pub proof fn listed_file_opens_under_its_name(
    state: DaemonState,
    infos: Seq<FileInfo>,
    i: int,
    now: Seq<char>,
    r: Step,
)
    requires
        state.wf(),
        state.pnk is Some,
        infos == state.manifest.files@.map_values(|file: (String, ManifestEntry)| listed(file)),
        0 <= i < infos.len(),
        is_step_for(state, (IpcRequest::OpenFile { enc_path: infos[i].enc_path }), now, r),
    ensures
        r is Decrypt,
        r->Decrypt_0.enc_path == infos[i].enc_path,
        r->Decrypt_0.known_name == Some(infos[i].original_name),
{
    every_file_is_listed_once(state.manifest, infos);
}

/// Without a key no file is decrypted, and without a session no key is
/// replaced: the daemon answers such requests with an error.
pub proof fn locked_daemon_refuses(state: DaemonState, req: IpcRequest, now: Seq<char>, r: Step)
    requires
        is_step_for(state, req, now, r),
    ensures
        req is OpenFile && state.pnk is None ==> r is Respond && r->Respond_0 is Error,
        (req is RotatePnk || req is RotateHik) && !state.has_session() ==> r is Respond
            && r->Respond_0 is Error,
{
}

/// A key that this device handed to itself is what it has after it asked the
/// broker for the latest key, with the version that it was handed out with.
pub proof fn handed_out_key_is_synced_back(
    before: DaemonState,
    keys: Vec<WrappedPnk>,
    key: Seq<u8>,
    after: DaemonState,
    r: IpcResponse,
)
    requires
        before.wf(),
        keys@.len() > 0,
        carries(
            keys@[0].wrapped_pnk@,
            key,
            before.identity.secret_bytes(),
            before.identity.public_bytes(),
        ),
        is_sync_of(before, Ok(keys), after, r),
    ensures
        r is Success,
        after.pnk is Some,
        (after.pnk->0).0@ == key,
        after.key_version == keys@[0].version,
{
    own_key_is_received(before.identity, keys@[0].wrapped_pnk@, key);
}

} // verus!
