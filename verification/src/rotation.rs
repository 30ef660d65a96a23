//! Replacing keys: a new personal network key for all devices of the user, or a
//! new hardware identity for this device.

use crate::broker::{
    changing, eq_filter, reading, BrokerRequest, DeviceKeyInfo, FieldView, SupabaseClient,
};
use crate::crypto::{
    next_version, CryptoError, HardwareIdentity, PersonalNetworkKey, StaticSecret, UnsavedIdentity,
};
use crate::distribution::{owner_of, Distribution};
use crate::encoding::base64_text;
use crate::ipc::{error, is_error, IpcResponse};
use crate::identifier::uuid_text;
use crate::state::DaemonState;
use crate::text::{decimal, decimal_of, join2, join3};
use vstd::prelude::*;

verus! {

/// How many seconds pass between two rotations of the personal network key.
pub const PNK_ROTATION_INTERVAL_SECS: u64 = 86_400;

// ---- Personal network key -----------------------------------------------

/// A new personal network key that no device has yet.
pub struct PnkRotation {
    pub client: SupabaseClient,
    pub user_id: String,
    pub key: PersonalNetworkKey,
    pub version: u32,
    pub sender: StaticSecret,
}

/// Begins to replace the personal network key by the given one, as the next
/// version.
pub fn begin_pnk_rotation_with(state: &DaemonState, key: PersonalNetworkKey) -> (r: Option<
    PnkRotation,
>)
    ensures
        r == (match (state.broker, state.logged_in_user) {
            (Some(client), Some(user_id)) => Some(
                (PnkRotation {
                    client,
                    user_id,
                    key,
                    version: next_version(state.key_version),
                    sender: state.identity.secret_key(),
                }),
            ),
            _ => None,
        }),
{
    match (&state.broker, &state.logged_in_user) {
        (Some(client), Some(user_id)) => Some(
            PnkRotation {
                client: client.clone(),
                user_id: user_id.clone(),
                key,
                version: state.key_version.saturating_add(1),
                sender: state.identity.secret().clone(),
            },
        ),
        _ => None,
    }
}

/// Begins to replace the personal network key by a random one, as the next
/// version.
pub fn begin_pnk_rotation(state: &DaemonState) -> (r: Option<PnkRotation>)
    ensures
        r is Some <==> state.has_session(),
        r matches Some(rotation) ==> {
            &&& Some(rotation.client) == state.broker
            &&& Some(rotation.user_id) == state.logged_in_user
            &&& rotation.version == next_version(state.key_version)
            &&& rotation.sender == state.identity.secret_key()
        },
{
    begin_pnk_rotation_with(state, PersonalNetworkKey::new_random())
}

impl PnkRotation {
    /// Asks the broker for the devices that are to have the key. The answer
    /// goes to `devices_fetched`.
    pub fn devices_request(&self) -> (r: BrokerRequest)
        ensures
            r@ == reading(
                self.client.devices_url(),
                seq![("user_id"@, eq_filter(self.user_id@)), ("select"@, "id,public_hik"@)],
            ),
    {
        self.client.get_devices_for_key_distribution(&self.user_id)
    }

    /// The handing out of the key, or the answer where the devices are not
    /// known.
    pub fn devices_fetched(self, fetched: Result<Vec<DeviceKeyInfo>, String>) -> (r: Result<
        Distribution,
        IpcResponse,
    >)
        ensures
            match fetched {
                Ok(devices) => {
                    &&& r matches Ok(handout)
                    &&& handout.wf()
                    &&& handout.key == self.key
                    &&& handout.version == self.version
                    &&& handout.sender == self.sender
                    &&& handout.owner_user_id == owner_of(self.user_id@)
                    &&& handout.devices == devices
                    &&& handout.next == 0
                    &&& handout.failed == 0
                },
                Err(_) => r is Err && is_error(
                    r->Err_0,
                    "Failed to fetch devices for rotation"@,
                ),
            },
    {
        match fetched {
            Ok(devices) => Ok(
                Distribution::begin(self.key, self.version, self.sender, &self.user_id, devices),
            ),
            Err(_) => Err(error("Failed to fetch devices for rotation")),
        }
    }
}

/// Ends the rotation of the personal network key, after all pushes of its
/// handing out. The key is taken on where the broker took every push; else
/// nothing changes.
pub fn finish_pnk_rotation(state: &mut DaemonState, handout: Distribution) -> (r: IpcResponse)
    ensures
        handout.failed == 0 ==> {
            &&& r is Success
            &&& *final(state) == (DaemonState {
                pnk: Some(handout.key),
                key_version: handout.version,
                ..*old(state)
            })
        },
        handout.failed > 0 ==> {
            &&& is_error(
                r,
                "PNK rotated but "@ + decimal_of(handout.failed as nat) + " device(s) failed"@,
            )
            &&& *final(state) == *old(state)
        },
        old(state).wf() ==> final(state).wf(),
{
    if handout.failed > 0 {
        let text = join3(
            "PNK rotated but ",
            &decimal(handout.failed as u64),
            " device(s) failed",
        );
        return IpcResponse::Error(text);
    }
    state.pnk = Some(handout.key);
    state.key_version = handout.version;
    IpcResponse::Success
}

// ---- Hardware identity --------------------------------------------------

/// A new hardware identity, not yet saved.
pub struct HikRotation {
    pub client: SupabaseClient,
    pub user_id: String,
    pub new_identity: UnsavedIdentity,
}

/// Begins to replace the hardware identity by a random one of the next version.
pub fn begin_hik_rotation(state: &DaemonState) -> (r: Option<HikRotation>)
    ensures
        r is Some <==> state.has_session(),
        r matches Some(rotation) ==> {
            &&& Some(rotation.client) == state.broker
            &&& Some(rotation.user_id) == state.logged_in_user
            &&& rotation.new_identity.identity().wf()
            &&& rotation.new_identity.identity().version == next_version(state.identity.version)
        },
{
    match (&state.broker, &state.logged_in_user) {
        (Some(client), Some(user_id)) => Some(
            HikRotation {
                client: client.clone(),
                user_id: user_id.clone(),
                new_identity: state.identity.begin_rotation(),
            },
        ),
        _ => None,
    }
}

/// A new hardware identity, saved and taken on, which the broker is to learn
/// of.
pub struct HikUpdate {
    pub client: SupabaseClient,
    pub user_id: String,
    pub sender: StaticSecret,
    /// What to send to the broker, where it knows the device.
    pub request: Option<BrokerRequest>,
}

/// Goes on with the rotation of the hardware identity, from the outcome of
/// saving it: the identity is taken on, and nothing else changes, or nothing at
/// all where saving failed. `now` is the time in RFC 3339.
pub fn hik_saved(
    state: &mut DaemonState,
    client: SupabaseClient,
    user_id: String,
    saved: Result<HardwareIdentity, CryptoError>,
    now: &str,
) -> (r: Result<HikUpdate, IpcResponse>)
    ensures
        match saved {
            Ok(identity) => {
                &&& *final(state) == (DaemonState { identity, ..*old(state) })
                &&& r matches Ok(update)
                &&& update.client == client
                &&& update.user_id == user_id
                &&& update.sender == identity.secret_key()
                &&& update.request is Some <==> old(state).device_id is Some
                &&& update.request matches Some(request) ==> request@ == changing(
                    client.devices_url() + "?id=eq."@ + uuid_text(old(state).device_id->0),
                    seq![
                        ("public_hik"@, FieldView::Text(base64_text(identity.public_bytes()))),
                        ("hik_version"@, FieldView::Number(identity.version)),
                        ("last_seen_at"@, FieldView::Text(now@)),
                    ],
                )
            },
            Err(e) => {
                &&& *final(state) == *old(state)
                &&& r is Err
                &&& is_error(r->Err_0, "HIK rotation failed: "@ + e.message_text())
            },
        },
        old(state).wf() ==> final(state).wf(),
{
    match state.identity.rotate(saved) {
        Ok(_) => {
            proof {
                use_type_invariant(&state.identity.pair);
            }
            let request = match state.device_id {
                Some(device_id) => Some(
                    client.update_device_hik(
                        device_id,
                        &state.identity.export_public_hik(),
                        state.identity.version,
                        now,
                    ),
                ),
                None => None,
            };
            Ok(HikUpdate { client, user_id, sender: state.identity.secret().clone(), request })
        },
        Err(e) => Err(IpcResponse::Error(join2("HIK rotation failed: ", &e.message()))),
    }
}

/// The personal network key at hand, to be handed out again by the new
/// identity.
pub struct Rewrap {
    pub client: SupabaseClient,
    pub user_id: String,
    pub key: PersonalNetworkKey,
    pub version: u32,
    pub sender: StaticSecret,
}

/// What to do once the broker was told of a new identity.
pub enum HikStep {
    /// The rotation is over: answer with this.
    Respond(IpcResponse),
    /// Hand the key out again, and answer with `finish_hik_rotation`.
    HandOut(Rewrap),
}

impl HikUpdate {
    /// Goes on once the request, where there was one, was sent. Where the
    /// broker refused it, the rotation ends with an error; where there is a
    /// personal network key, it goes out again; else the rotation is done.
    pub fn published(self, state: &DaemonState, outcome: Result<(), String>) -> (r: HikStep)
        ensures
            match outcome {
                Ok(_) => match state.pnk {
                    Some(pnk) => {
                        &&& r matches HikStep::HandOut(rewrap)
                        &&& rewrap.client == self.client
                        &&& rewrap.user_id == self.user_id
                        &&& rewrap.key.0@ == pnk.0@
                        &&& rewrap.version == state.key_version
                        &&& rewrap.sender == self.sender
                    },
                    None => r == HikStep::Respond(IpcResponse::Success),
                },
                Err(_) => {
                    &&& r matches HikStep::Respond(answer)
                    &&& is_error(answer, "DB update for HIK failed"@)
                },
            },
    {
        if outcome.is_err() {
            return HikStep::Respond(error("DB update for HIK failed"));
        }
        match &state.pnk {
            Some(pnk) => HikStep::HandOut(
                Rewrap {
                    client: self.client,
                    user_id: self.user_id,
                    key: PersonalNetworkKey(pnk.0),
                    version: state.key_version,
                    sender: self.sender,
                },
            ),
            None => HikStep::Respond(IpcResponse::Success),
        }
    }
}

impl Rewrap {
    /// Asks the broker for the devices that are to have the key. The answer
    /// goes to `devices_fetched`.
    pub fn devices_request(&self) -> (r: BrokerRequest)
        ensures
            r@ == reading(
                self.client.devices_url(),
                seq![("user_id"@, eq_filter(self.user_id@)), ("select"@, "id,public_hik"@)],
            ),
    {
        self.client.get_devices_for_key_distribution(&self.user_id)
    }

    /// The handing out of the key, to no device where they are not known. What
    /// comes of its pushes does not matter.
    pub fn devices_fetched(self, fetched: Result<Vec<DeviceKeyInfo>, String>) -> (r: Distribution)
        ensures
            r.wf(),
            r.key == self.key,
            r.version == self.version,
            r.sender == self.sender,
            r.owner_user_id == owner_of(self.user_id@),
            match fetched {
                Ok(devices) => r.devices == devices,
                Err(_) => r.devices@.len() == 0,
            },
            r.next == 0,
            r.failed == 0,
    {
        let devices: Vec<DeviceKeyInfo> = match fetched {
            Ok(devices) => devices,
            Err(_) => Vec::new(),
        };
        Distribution::begin(self.key, self.version, self.sender, &self.user_id, devices)
    }
}

/// Ends the rotation of the hardware identity, after all pushes of the key's
/// handing out. The answer is a success, whatever came of them.
pub fn finish_hik_rotation(_handout: Distribution) -> (r: IpcResponse)
    ensures
        r is Success,
{
    IpcResponse::Success
}

} // verus!
