//! Logging in: the device registers with the broker and finds the user's
//! personal network key, in the device's own storage or at the broker, or makes
//! one and hands it out.

use crate::broker::{
    eq_filter, reading, BrokerRequest, DeviceKeyInfo, Registration, SupabaseClient, WrappedPnk,
};
use crate::crypto::{PersonalNetworkKey, StaticSecret};
use crate::distribution::{owner_of, receive_key, received_key, Distribution};
use crate::encoding::base64_text;
use crate::ipc::IpcResponse;
use crate::keychain::{store_pnk, LoadError, StorePlan, PNK_ACCOUNT};
use crate::identifier::uuid_text;
use crate::state::{DaemonState, FIRST_KEY_VERSION};
use vstd::prelude::*;

verus! {

/// A login whose device is to be registered.
pub struct Login {
    pub client: SupabaseClient,
    pub user_id: String,
}

/// Logs a user in. Where the broker is configured, there is more to do; else
/// the login is done.
pub fn log_in(state: &mut DaemonState, user_id: String) -> (r: Option<Login>)
    ensures
        *final(state) == (DaemonState { logged_in_user: Some(user_id), ..*old(state) }),
        r is Some <==> old(state).broker is Some,
        r matches Some(login) ==> {
            &&& Some(login.client) == old(state).broker
            &&& login.user_id == user_id
        },
        old(state).wf() ==> final(state).wf(),
{
    state.logged_in_user = Some(user_id.clone());
    match &state.broker {
        Some(client) => Some(Login { client: client.clone(), user_id }),
        None => None,
    }
}

/// A login whose device is registered, and whose key is looked for in the
/// device's own storage.
pub struct Registered {
    pub client: SupabaseClient,
    pub user_id: String,
    pub device_id: u128,
}

impl Login {
    /// The registration of the device, on the host and system of the given
    /// names.
    pub fn registration(&self, state: &DaemonState, hostname: String, os_version: String) -> (r:
        Registration)
        ensures
            r.user_id == self.user_id,
            r.device_name == hostname,
            r.public_hik@ == base64_text(state.identity.public_bytes()),
            r.os_version == os_version,
    {
        Registration {
            user_id: self.user_id.clone(),
            device_name: hostname,
            public_hik: state.identity.export_public_hik(),
            os_version,
        }
    }

    /// Goes on with a device that was registered. Where that failed, the login
    /// is done.
    pub fn registered(self, outcome: Result<u128, String>) -> (r: Option<Registered>)
        ensures
            match outcome {
                Ok(device_id) => r == Some(
                    (Registered { client: self.client, user_id: self.user_id, device_id }),
                ),
                Err(_) => r is None,
            },
    {
        match outcome {
            Ok(device_id) => Some(
                Registered { client: self.client, user_id: self.user_id, device_id },
            ),
            Err(_) => None,
        }
    }
}

/// A login whose key is looked for at the broker.
pub struct KeySearch {
    pub client: SupabaseClient,
    pub user_id: String,
    pub device_id: u128,
}

impl Registered {
    /// Goes on from what `load_pnk` gave: a stored key is taken on and the login
    /// is done, else the key is looked for at the broker.
    pub fn key_loaded(self, state: &mut DaemonState, loaded: Result<[u8; 32], LoadError>) -> (r:
        Option<KeySearch>)
        ensures
            match loaded {
                Ok(key) => {
                    &&& r is None
                    &&& *final(state) == old(state).with_key(
                        PersonalNetworkKey(key),
                        self.device_id,
                    )
                    &&& *final(state) == (DaemonState {
                        pnk: Some(PersonalNetworkKey(key)),
                        device_id: Some(self.device_id),
                        ..*old(state)
                    })
                },
                Err(_) => {
                    &&& r == Some(
                        (KeySearch {
                            client: self.client,
                            user_id: self.user_id,
                            device_id: self.device_id,
                        }),
                    )
                    &&& *final(state) == *old(state)
                },
            },
            old(state).wf() ==> final(state).wf(),
    {
        match loaded {
            Ok(key) => {
                state.adopt(PersonalNetworkKey(key), self.device_id);
                None
            },
            Err(_) => Some(
                KeySearch {
                    client: self.client,
                    user_id: self.user_id,
                    device_id: self.device_id,
                },
            ),
        }
    }
}

/// What the broker's answer means for a login.
pub enum FoundKey {
    /// It has a key for the device, which is to be stored and then taken on.
    Received(ReceivedKey),
    /// The key that it has for the device cannot be read: the login is done.
    Unreadable,
    /// It has none: a new key is to be stored and handed out.
    Fresh(FreshKey),
}

/// A key from the broker. The outcome of storing it does not matter.
pub struct ReceivedKey {
    pub key: PersonalNetworkKey,
    pub store: StorePlan,
    pub device_id: u128,
}

/// A new key. The outcome of storing it does not matter.
pub struct FreshKey {
    pub client: SupabaseClient,
    pub user_id: String,
    pub device_id: u128,
    pub key: PersonalNetworkKey,
    pub store: StorePlan,
    pub sender: StaticSecret,
}

impl KeySearch {
    /// Asks the broker for the device's keys, the latest first. The answer goes
    /// to `keys_fetched`.
    pub fn keys_request(&self) -> (r: BrokerRequest)
        ensures
            r@ == reading(
                self.client.keys_url(),
                seq![
                    ("target_device_id"@, eq_filter(uuid_text(self.device_id))),
                    ("order"@, "version.desc"@),
                ],
            ),
    {
        self.client.fetch_wrapped_pnks_for_device(self.device_id)
    }

    /// Goes on from the broker's answer: with the first of the keys, or with a
    /// new random one where there are none or the broker did not answer.
    pub fn keys_fetched(self, state: &DaemonState, fetched: Result<Vec<WrappedPnk>, String>) -> (r:
        FoundKey)
        ensures
            fetched is Ok && fetched->Ok_0@.len() > 0 ==> match received_key(
                state.identity,
                fetched->Ok_0@[0].wrapped_pnk@,
            ) {
                Some(key) => {
                    &&& r matches FoundKey::Received(found)
                    &&& found.key.0@ == key
                    &&& found.store.stores(PNK_ACCOUNT@, key)
                    &&& found.device_id == self.device_id
                },
                None => r is Unreadable,
            },
            fetched is Err || fetched->Ok_0@.len() == 0 ==> {
                &&& r matches FoundKey::Fresh(new)
                &&& new.client == self.client
                &&& new.user_id == self.user_id
                &&& new.device_id == self.device_id
                &&& new.store.stores(PNK_ACCOUNT@, new.key.0@)
                &&& new.sender == state.identity.secret_key()
            },
    {
        if let Ok(wrapped_pnks) = &fetched {
            if wrapped_pnks.len() > 0 {
                return match receive_key(&state.identity, &wrapped_pnks[0].wrapped_pnk) {
                    Some(key) => match store_pnk(&key.0) {
                        Ok(store) => FoundKey::Received(
                            ReceivedKey { key, store, device_id: self.device_id },
                        ),
                        Err(_) => FoundKey::Unreadable,
                    },
                    None => FoundKey::Unreadable,
                };
            }
        }
        match self.with_fresh_key(state, PersonalNetworkKey::new_random()) {
            Ok(new) => FoundKey::Fresh(new),
            Err(_) => FoundKey::Unreadable,
        }
    }

    /// Goes on with the given key as the new one. It can always be stored.
    pub fn with_fresh_key(self, state: &DaemonState, key: PersonalNetworkKey) -> (r: Result<
        FreshKey,
        String,
    >)
        ensures
            r is Ok,
            r->Ok_0.client == self.client,
            r->Ok_0.user_id == self.user_id,
            r->Ok_0.device_id == self.device_id,
            r->Ok_0.key == key,
            r->Ok_0.store.stores(PNK_ACCOUNT@, key.0@),
            r->Ok_0.sender == state.identity.secret_key(),
    {
        match store_pnk(&key.0) {
            Ok(store) => Ok(
                FreshKey {
                    client: self.client,
                    user_id: self.user_id,
                    device_id: self.device_id,
                    key,
                    store,
                    sender: state.identity.secret().clone(),
                },
            ),
            Err(e) => Err(e),
        }
    }
}

impl ReceivedKey {
    /// Takes the key on, which ends the login.
    pub fn take_on(self, state: &mut DaemonState)
        ensures
            *final(state) == old(state).with_key(self.key, self.device_id),
            *final(state) == (DaemonState {
                pnk: Some(self.key),
                device_id: Some(self.device_id),
                ..*old(state)
            }),
            old(state).wf() ==> final(state).wf(),
    {
        state.adopt(self.key, self.device_id);
    }
}

/// A new key that is being handed out. What comes of the pushes does not
/// matter.
pub struct KeyHandout {
    pub handout: Distribution,
    pub device_id: u128,
}

impl FreshKey {
    /// Asks the broker for the devices that are to have the key. The answer
    /// goes to `devices_fetched`.
    pub fn devices_request(&self) -> (r: BrokerRequest)
        ensures
            r@ == reading(
                self.client.devices_url(),
                seq![("user_id"@, eq_filter(self.user_id@)), ("select"@, "id,public_hik"@)],
            ),
    {
        self.client.get_devices_for_key_distribution(&self.user_id)
    }

    /// The handing out of the key as the first version, to no device where they
    /// are not known.
    pub fn devices_fetched(self, fetched: Result<Vec<DeviceKeyInfo>, String>) -> (r: KeyHandout)
        ensures
            r.device_id == self.device_id,
            r.handout.wf(),
            r.handout.key == self.key,
            r.handout.version == FIRST_KEY_VERSION,
            r.handout.sender == self.sender,
            r.handout.owner_user_id == owner_of(self.user_id@),
            match fetched {
                Ok(devices) => r.handout.devices == devices,
                Err(_) => r.handout.devices@.len() == 0,
            },
            r.handout.next == 0,
            r.handout.failed == 0,
    {
        let devices: Vec<DeviceKeyInfo> = match fetched {
            Ok(devices) => devices,
            Err(_) => Vec::new(),
        };
        KeyHandout {
            handout: Distribution::begin(
                self.key,
                FIRST_KEY_VERSION,
                self.sender,
                &self.user_id,
                devices,
            ),
            device_id: self.device_id,
        }
    }
}

impl KeyHandout {
    /// Takes the key on, which ends the login.
    pub fn take_on(self, state: &mut DaemonState)
        ensures
            *final(state) == old(state).with_key(self.handout.key, self.device_id),
            *final(state) == (DaemonState {
                pnk: Some(self.handout.key),
                device_id: Some(self.device_id),
                ..*old(state)
            }),
            old(state).wf() ==> final(state).wf(),
    {
        state.adopt(self.handout.key, self.device_id);
    }
}

/// Ends a login, whatever came of it: the files that waited for a key, to be
/// encrypted in order, and the answer, which is a success.
pub fn finish_login(state: &mut DaemonState) -> (r: (Vec<String>, IpcResponse))
    ensures
        r.0@ == old(state).pending_encrypt@,
        r.1 is Success,
        final(state).pending_encrypt@.len() == 0,
        *final(state) == (DaemonState {
            pending_encrypt: final(state).pending_encrypt,
            ..*old(state)
        }),
        old(state).wf() ==> final(state).wf(),
{
    (state.drain_pending(), IpcResponse::Success)
}

// ---- Laws ---------------------------------------------------------------

/// A login that finds a key ends with the user who logged in, the key and the
/// device's identifier, and, where the broker is configured, with a session.
pub proof fn login_ends_with_its_user(
    before: DaemonState,
    user_id: String,
    key: PersonalNetworkKey,
    device_id: u128,
)
    ensures
        ({
            let after = (DaemonState { logged_in_user: Some(user_id), ..before }).with_key(
                key,
                device_id,
            );
            &&& after.logged_in_user == Some(user_id)
            &&& after.pnk == Some(key)
            &&& after.device_id == Some(device_id)
            &&& before.broker is Some ==> after.has_session()
            &&& after.identity == before.identity
            &&& after.broker == before.broker
            &&& after.key_version == before.key_version
            &&& after.user_email == before.user_email
            &&& after.user_image == before.user_image
        }),
{
}

} // verus!
