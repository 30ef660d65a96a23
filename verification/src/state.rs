//! What the daemon holds while it runs.

use crate::broker::{
    changing, request_is_seen_as_it_is, BrokerRequest, FieldView, Method, SupabaseClient,
};
use crate::crypto::{HardwareIdentity, PersonalNetworkKey};
use crate::encoding::base64_text;
use crate::ipc::IpcResponse;
use crate::manifest::Manifest;
use vstd::prelude::*;

verus! {

/// How many seconds pass between two signs of life.
pub const HEARTBEAT_INTERVAL_SECS: u64 = 60;

/// The version of the personal network key that the daemon starts with.
pub const FIRST_KEY_VERSION: u32 = 1;

/// The daemon's state.
pub struct DaemonState {
    pub identity: HardwareIdentity,
    /// The personal network key, once it is known.
    pub pnk: Option<PersonalNetworkKey>,
    /// How to reach the broker, where it is configured.
    pub broker: Option<SupabaseClient>,
    pub logged_in_user: Option<String>,
    pub user_email: Option<String>,
    pub user_image: Option<String>,
    /// Whether a login in the browser is under way.
    pub oauth_listening: bool,
    /// The device's identifier at the broker, once it has one.
    pub device_id: Option<u128>,
    /// The version of the personal network key.
    pub key_version: u32,
    pub manifest: Manifest,
    /// The files that are being encrypted, none twice.
    pub in_flight: Vec<String>,
    /// The files to encrypt once there is a key, in order.
    pub pending_encrypt: Vec<String>,
}

impl DaemonState {
    /// The halves of the identity belong together, no path has two entries in
    /// the manifest, and no file is in flight twice.
    pub open spec fn wf(&self) -> bool {
        &&& self.identity.wf()
        &&& self.manifest.wf()
        &&& forall|i: int, j: int|
            0 <= i < j < self.in_flight@.len() ==> #[trigger] self.in_flight@[i]@
                != #[trigger] self.in_flight@[j]@
    }

    /// The broker is configured and a user is logged in.
    pub open spec fn has_session(&self) -> bool {
        self.broker is Some && self.logged_in_user is Some
    }

    /// The state once the user and the key are forgotten.
    pub open spec fn logged_out(self) -> DaemonState {
        DaemonState {
            logged_in_user: None,
            user_email: None,
            user_image: None,
            pnk: None,
            device_id: None,
            ..self
        }
    }

    /// The state once a key is taken on, under the device's identifier at the
    /// broker.
    pub open spec fn with_key(self, key: PersonalNetworkKey, device_id: u128) -> DaemonState {
        DaemonState { pnk: Some(key), device_id: Some(device_id), ..self }
    }

    /// The state of a daemon that just started: nobody is logged in and there
    /// is no key.
    pub fn new(
        identity: HardwareIdentity,
        broker: Option<SupabaseClient>,
        manifest: Manifest,
    ) -> (r: Self)
        ensures
            manifest.wf() ==> r.wf(),
            r.identity == identity,
            r.pnk is None,
            r.broker == broker,
            r.logged_in_user is None,
            r.user_email is None,
            r.user_image is None,
            !r.oauth_listening,
            r.device_id is None,
            r.key_version == FIRST_KEY_VERSION,
            r.manifest == manifest,
            r.in_flight@.len() == 0,
            r.pending_encrypt@.len() == 0,
    {
        proof {
            use_type_invariant(&identity.pair);
        }
        DaemonState {
            identity,
            pnk: None,
            broker,
            logged_in_user: None,
            user_email: None,
            user_image: None,
            oauth_listening: false,
            device_id: None,
            key_version: FIRST_KEY_VERSION,
            manifest,
            in_flight: Vec::new(),
            pending_encrypt: Vec::new(),
        }
    }

    /// The name of the state that `status` reports.
    pub open spec fn status_text(&self) -> Seq<char> {
        if self.pnk is Some {
            "Ready (PNK loaded)"@
        } else {
            "Waiting for PNK"@
        }
    }

    /// The daemon's state, as the tray shows it, on the host of the given name.
    pub fn status(&self, hostname: String) -> (r: IpcResponse)
        ensures
            ({
                &&& r matches IpcResponse::Status {
                    hostname: host,
                    is_active,
                    state,
                    hik,
                    email,
                    name,
                    image_url,
                }
                &&& host == hostname
                &&& is_active == (self.logged_in_user is Some)
                &&& state@ == self.status_text()
                &&& self.pnk is Some ==> state@ == "Ready (PNK loaded)"@
                &&& self.pnk is None ==> state@ == "Waiting for PNK"@
                &&& hik@ == base64_text(self.identity.public_bytes())
                &&& email == self.user_email
                &&& name is None
                &&& image_url == self.user_image
            }),
    {
        let state = if self.pnk.is_some() {
            "Ready (PNK loaded)".to_owned()
        } else {
            "Waiting for PNK".to_owned()
        };
        IpcResponse::Status {
            hostname,
            is_active: self.logged_in_user.is_some(),
            state,
            hik: self.identity.export_public_hik(),
            email: self.user_email.clone(),
            name: None,
            image_url: self.user_image.clone(),
        }
    }

    /// The sign of life to send to the broker: one while a user is logged in.
    /// `now` is the time in RFC 3339.
    pub fn heartbeat(&self, now: &str) -> (r: Option<BrokerRequest>)
        ensures
            match r {
                Some(request) => {
                    &&& self.logged_in_user is Some
                    &&& self.broker is Some
                    &&& request@ == changing(
                        self.broker->0.device_row(base64_text(self.identity.public_bytes())),
                        seq![("last_seen_at"@, FieldView::Text(now@))],
                    )
                },
                None => self.logged_in_user is None || self.broker is None,
            },
            r matches Some(request) ==> {
                &&& request.method == Method::Patch
                &&& request.url@ == self.broker->0.url@ + "/rest/v1/devices"@ + "?public_hik=eq."@
                    + base64_text(self.identity.public_bytes())
                &&& request.body is Some
                &&& request.body->0@.len() == 1
                &&& request.body->0@[0].0@ == "last_seen_at"@
                &&& request.body->0@[0].1 is Text
                &&& request.body->0@[0].1->Text_0@ == now@
            },
    {
        if self.logged_in_user.is_none() {
            return None;
        }
        match &self.broker {
            Some(client) => {
                let request = client.update_last_seen(&self.identity.export_public_hik(), now);
                proof {
                    request_is_seen_as_it_is(request);
                    assert(request@.body->0[0].0 == "last_seen_at"@);
                    assert(request@.body->0[0].1 == FieldView::Text(now@));
                }
                Some(request)
            },
            None => None,
        }
    }

    /// Takes the files that wait for a key, in order.
    pub fn drain_pending(&mut self) -> (r: Vec<String>)
        ensures
            r@ == old(self).pending_encrypt@,
            *final(self) == (DaemonState {
                pending_encrypt: final(self).pending_encrypt,
                ..*old(self)
            }),
            final(self).pending_encrypt@.len() == 0,
            old(self).wf() ==> final(self).wf(),
    {
        let mut pending: Vec<String> = Vec::new();
        pending.append(&mut self.pending_encrypt);
        pending
    }

    /// Forgets the user and the key.
    pub fn log_out(&mut self)
        ensures
            *final(self) == old(self).logged_out(),
            *final(self) == (DaemonState {
                logged_in_user: None,
                user_email: None,
                user_image: None,
                pnk: None,
                device_id: None,
                ..*old(self)
            }),
            old(self).wf() ==> final(self).wf(),
    {
        self.logged_in_user = None;
        self.user_email = None;
        self.user_image = None;
        self.pnk = None;
        self.device_id = None;
    }

    /// Takes on a key, under the device's identifier at the broker.
    pub fn adopt(&mut self, key: PersonalNetworkKey, device_id: u128)
        ensures
            *final(self) == old(self).with_key(key, device_id),
            *final(self) == (DaemonState {
                pnk: Some(key),
                device_id: Some(device_id),
                ..*old(self)
            }),
            old(self).wf() ==> final(self).wf(),
    {
        self.pnk = Some(key);
        self.device_id = Some(device_id);
    }
}

// ---- Laws ---------------------------------------------------------------

/// A daemon has a session exactly while its broker is configured and a user is
/// logged in.
pub proof fn session_needs_a_broker_and_a_user(state: DaemonState)
    ensures
        state.has_session() <==> state.broker is Some && state.logged_in_user is Some,
{
}

/// Taking on a key sets the key and the device's identifier. All else stays as
/// it was, so that a user who is logged in stays logged in, and a session stays
/// one.
pub proof fn taking_on_a_key_keeps_the_rest(
    state: DaemonState,
    key: PersonalNetworkKey,
    device_id: u128,
)
    ensures
        state.with_key(key, device_id).pnk == Some(key),
        state.with_key(key, device_id).device_id == Some(device_id),
        state.with_key(key, device_id).logged_in_user == state.logged_in_user,
        state.with_key(key, device_id).broker == state.broker,
        state.with_key(key, device_id).identity == state.identity,
        state.with_key(key, device_id).user_email == state.user_email,
        state.with_key(key, device_id).user_image == state.user_image,
        state.with_key(key, device_id).oauth_listening == state.oauth_listening,
        state.with_key(key, device_id).key_version == state.key_version,
        state.with_key(key, device_id).manifest == state.manifest,
        state.with_key(key, device_id).in_flight == state.in_flight,
        state.with_key(key, device_id).pending_encrypt == state.pending_encrypt,
        state.broker is Some && state.logged_in_user is Some ==> state.with_key(
            key,
            device_id,
        ).has_session(),
        state.with_key(key, device_id).status_text() == "Ready (PNK loaded)"@,
{
}

/// The daemon beats once a minute, and starts with the first version of the key.
pub proof fn heartbeat_comes_every_minute()
    ensures
        HEARTBEAT_INTERVAL_SECS == 60,
        FIRST_KEY_VERSION == 1,
{
}

/// A daemon that was logged out reports that it is inactive and waits for a
/// key, and has no session. What it keeps are its identity, the manifest, the
/// version of the key, and the files that wait. Logging out again changes
/// nothing.
pub proof fn logged_out_daemon_waits(state: DaemonState)
    ensures
        state.logged_out().status_text() == "Waiting for PNK"@,
        state.logged_out().logged_in_user is None,
        !state.logged_out().has_session(),
        state.logged_out().identity == state.identity,
        state.logged_out().manifest == state.manifest,
        state.logged_out().key_version == state.key_version,
        state.logged_out().pending_encrypt == state.pending_encrypt,
        state.logged_out().in_flight == state.in_flight,
        state.logged_out().broker == state.broker,
        state.logged_out().oauth_listening == state.oauth_listening,
        state.logged_out().pnk is None,
        state.logged_out().device_id is None,
        state.logged_out().user_email is None,
        state.logged_out().user_image is None,
        state.logged_out().logged_out() == state.logged_out(),
{
}

} // verus!
