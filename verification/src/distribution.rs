//! Handing a personal network key to all devices of a user: one wrapped copy
//! for each device that published a usable public key.

use crate::broker::{adding, BrokerRequest, DeviceKeyInfo, FieldView, SupabaseClient};
use crate::crypto::{
    parse_public_hik, published_key, reaches, unwrapped_key, wrapped_key, HardwareIdentity,
    PersonalNetworkKey, StaticSecret, NONCE_LEN, WRAPPED_LEN,
};
use crate::encoding::{
    base64_bytes, base64_bytes_have_their_text, base64_text, base64_text_is_read_back,
    base64_text_is_unambiguous,
};
use crate::identifier::{uuid_of, uuid_text};
use crate::outside::{
    aead_opened, aead_sealed, base64_decode, base64_encode, uuid_from_text, x25519_public, x25519_shared};
use vstd::prelude::*;

verus! {

/// A wrapped key to leave with the broker for one device.
#[derive(Debug)]
pub struct Push {
    pub target_device_id: u128,
    pub owner_user_id: u128,
    /// The wrapped key, in base64.
    pub wrapped_pnk: String,
    pub version: u32,
}

impl Push {
    /// The request that leaves the key with the broker.
    pub fn request(self, client: &SupabaseClient) -> (r: BrokerRequest)
        ensures
            r@ == adding(
                client.keys_url(),
                "return=minimal"@,
                seq![
                    ("target_device_id"@, FieldView::Text(uuid_text(self.target_device_id))),
                    ("owner_user_id"@, FieldView::Text(uuid_text(self.owner_user_id))),
                    ("wrapped_pnk"@, FieldView::Text(self.wrapped_pnk@)),
                    ("version"@, FieldView::Number(self.version)),
                ],
            ),
    {
        client.push_wrapped_pnk(
            self.target_device_id,
            self.owner_user_id,
            self.wrapped_pnk,
            self.version,
        )
    }
}

/// Whether bytes are the key, wrapped for `target` by `sender`: some nonce and
/// the key encrypted with it under the shared secret of the two.
pub open spec fn wraps(
    wrapped: Seq<u8>,
    key: Seq<u8>,
    sender: Seq<u8>,
    target: Seq<u8>,
) -> bool {
    &&& wrapped.len() == WRAPPED_LEN
    &&& exists|nonce: Seq<u8>|
        nonce.len() == NONCE_LEN && wrapped == #[trigger] wrapped_key(
            key,
            x25519_shared(sender, target),
            nonce,
        )
    &&& unwrapped_key(wrapped, x25519_shared(sender, target)) == Some(key)
    &&& reaches(wrapped, target, sender, key)
}

/// Whether a text is the base64 of the key, wrapped for `target` by `sender`.
pub open spec fn carries(text: Seq<char>, key: Seq<u8>, sender: Seq<u8>, target: Seq<u8>) -> bool {
    exists|wrapped: Seq<u8>| #[trigger]
        base64_text(wrapped) == text && base64_bytes(text) == Some(wrapped) && wraps(
            wrapped,
            key,
            sender,
            target,
        )
}

/// Whether a text is the base64 text of a key's 32 bytes.
pub open spec fn is_key_text(text: Seq<char>) -> bool {
    exists|key: Seq<u8>| key.len() == 32 && #[trigger] base64_text(key) == text
}

/// Whether the device at place `i` published a usable public key.
pub open spec fn reachable(devices: Seq<DeviceKeyInfo>, i: int) -> bool {
    published_key(devices[i].public_hik@) is Some
}

/// The first place, from `from` on, of a device with a usable public key, or
/// the number of devices.
pub open spec fn next_reachable(devices: Seq<DeviceKeyInfo>, from: int) -> int
    decreases devices.len() - from,
{
    if from >= devices.len() {
        devices.len() as int
    } else if reachable(devices, from) {
        from
    } else {
        next_reachable(devices, from + 1)
    }
}

/// The places of the devices that a distribution serves, in order, from `from`
/// on.
pub open spec fn served(devices: Seq<DeviceKeyInfo>, from: int) -> Seq<int>
    decreases devices.len() - from,
{
    if from >= devices.len() {
        Seq::empty()
    } else if reachable(devices, from) {
        seq![from] + served(devices, from + 1)
    } else {
        served(devices, from + 1)
    }
}

/// The user that a text identifies, the nil one where it identifies none.
pub open spec fn owner_of(user_id: Seq<char>) -> u128 {
    match uuid_of(user_id) {
        Some(id) => id,
        None => 0,
    }
}

/// The handing out of one key, under way.
pub struct Distribution {
    pub key: PersonalNetworkKey,
    pub version: u32,
    pub sender: StaticSecret,
    pub owner_user_id: u128,
    pub devices: Vec<DeviceKeyInfo>,
    /// The place of the device to look at next.
    pub next: usize,
    /// How many devices the broker refused the key for.
    pub failed: usize,
}

impl Distribution {
    /// The next place is one of a device, or just behind them all.
    pub open spec fn wf(&self) -> bool {
        self.next <= self.devices@.len()
    }

    /// Begins to hand `key` to `devices`, in the name of a user.
    pub fn begin(
        key: PersonalNetworkKey,
        version: u32,
        sender: StaticSecret,
        user_id: &str,
        devices: Vec<DeviceKeyInfo>,
    ) -> (r: Self)
        ensures
            r.wf(),
            r.key == key,
            r.version == version,
            r.sender == sender,
            r.owner_user_id == owner_of(user_id@),
            match uuid_of(user_id@) {
                Some(id) => r.owner_user_id == id,
                None => r.owner_user_id == 0,
            },
            r.devices == devices,
            r.next == 0,
            r.failed == 0,
    {
        let owner_user_id: u128 = match uuid_from_text(user_id) {
            Some(id) => id,
            None => 0,
        };
        Distribution { key, version, sender, owner_user_id, devices, next: 0, failed: 0 }
    }

    /// The next wrapped key to leave with the broker, if any is left. Devices
    /// whose public key is not usable are passed over.
    pub fn next_push(&mut self) -> (r: Option<Push>)
        requires
            old(self).wf(),
        ensures
            final(self).wf(),
            final(self).key == old(self).key,
            final(self).version == old(self).version,
            final(self).sender == old(self).sender,
            final(self).owner_user_id == old(self).owner_user_id,
            final(self).devices == old(self).devices,
            final(self).failed == old(self).failed,
            ({
                let devices = old(self).devices@;
                let at = next_reachable(devices, old(self).next as int);
                match r {
                    Some(push) => {
                        &&& at < devices.len()
                        &&& final(self).next == at + 1
                        &&& push.target_device_id == devices[at].id
                        &&& push.owner_user_id == old(self).owner_user_id
                        &&& push.version == old(self).version
                        &&& carries(
                            push.wrapped_pnk@,
                            old(self).key.0@,
                            old(self).sender.bytes@,
                            published_key(devices[at].public_hik@)->0,
                        )
                    },
                    None => at == devices.len() && final(self).next == devices.len(),
                }
            }),
            match r {
                Some(push) => {
                    let at = final(self).next - 1;
                    let hik = old(self).devices@[at].public_hik@;
                    &&& old(self).next <= at < old(self).devices@.len()
                    &&& forall|k: int|
                        old(self).next <= k < at ==> !is_key_text(
                            (#[trigger] old(self).devices@[k]).public_hik@,
                        )
                    &&& is_key_text(hik)
                    &&& push.target_device_id == old(self).devices@[at].id
                    &&& exists|target: Seq<u8>, nonce: Seq<u8>|
                        {
                            &&& base64_text(target) == hik
                            &&& nonce.len() == 12
                            &&& push.wrapped_pnk@ == base64_text(
                                nonce + #[trigger] aead_sealed(
                                    x25519_shared(old(self).sender.bytes@, target),
                                    nonce,
                                    old(self).key.0@,
                                ),
                            )
                        }
                },
                None => forall|k: int|
                    old(self).next <= k < old(self).devices@.len() ==> !is_key_text(
                        (#[trigger] old(self).devices@[k]).public_hik@,
                    ),
            },
    {
        let ghost start = self.next as int;
        while self.next < self.devices.len()
            invariant
                self.next <= self.devices@.len(),
                start == old(self).next,
                next_reachable(self.devices@, start) == next_reachable(
                    self.devices@,
                    self.next as int,
                ),
                self.key == old(self).key,
                self.version == old(self).version,
                self.sender == old(self).sender,
                self.owner_user_id == old(self).owner_user_id,
                self.devices == old(self).devices,
                self.failed == old(self).failed,
                old(self).next <= self.next,
                forall|k: int|
                    old(self).next <= k < self.next ==> !is_key_text(
                        (#[trigger] self.devices@[k]).public_hik@,
                    ),
            decreases self.devices@.len() - self.next,
        {
            let at: usize = self.next;
            self.next = at + 1;
            if let Ok(target) = parse_public_hik(&self.devices[at].public_hik) {
                if let Ok(wrapped) = self.key.wrap(&target, &self.sender) {
                    let text = base64_encode(wrapped.as_slice());
                    proof {
                        let nonce = wrapped@.take(12);
                        assert(wrapped@ == nonce + aead_sealed(
                            x25519_shared(self.sender.bytes@, target.bytes@),
                            nonce,
                            self.key.0@,
                        ));
                        assert(target.bytes@.len() == 32);
                        assert(is_key_text(self.devices@[at as int].public_hik@));
                    }
                    assert(carries(text@, self.key.0@, self.sender.bytes@, target.bytes@)) by {
                        assert(base64_text(wrapped@) == text@);
                        base64_text_is_read_back(wrapped@);
                        assert(wraps(
                            wrapped@,
                            self.key.0@,
                            self.sender.bytes@,
                            target.bytes@,
                        ));
                    }
                    return Some(
                        Push {
                            target_device_id: self.devices[at].id,
                            owner_user_id: self.owner_user_id,
                            wrapped_pnk: text,
                            version: self.version,
                        },
                    );
                }
            }
        }
        None
    }

    /// Notes whether the broker took the last push.
    pub fn pushed(&mut self, outcome: Result<(), String>)
        ensures
            final(self).key == old(self).key,
            final(self).version == old(self).version,
            final(self).sender == old(self).sender,
            final(self).owner_user_id == old(self).owner_user_id,
            final(self).devices == old(self).devices,
            final(self).next == old(self).next,
            final(self).failed == (if outcome is Err && old(self).failed < usize::MAX {
                old(self).failed + 1
            } else {
                old(self).failed as int
            }),
    {
        if outcome.is_err() {
            self.failed = self.failed.saturating_add(1);
        }
    }
}

// ---- Receiving ----------------------------------------------------------

/// The key that a device finds in a wrapped key, if it finds one. It looks with
/// its own public key: a device receives what it sent to itself.
pub open spec fn received_key(identity: HardwareIdentity, text: Seq<char>) -> Option<Seq<u8>> {
    match base64_bytes(text) {
        Some(wrapped) => unwrapped_key(
            wrapped,
            x25519_shared(identity.secret_bytes(), identity.public_bytes()),
        ),
        None => None,
    }
}

/// The key in a wrapped key for this device.
pub fn receive_key(identity: &HardwareIdentity, text: &str) -> (r: Option<PersonalNetworkKey>)
    ensures
        match r {
            Some(key) => received_key(*identity, text@) == Some(key.0@),
            None => received_key(*identity, text@) is None,
        },
        match r {
            Some(key) => exists|wrapped: Seq<u8>|
                {
                    &&& #[trigger] base64_text(wrapped) == text@
                    &&& wrapped.len() == 60
                    &&& aead_opened(
                        x25519_shared(identity.secret_bytes(), identity.public_bytes()),
                        wrapped.take(12),
                        wrapped.skip(12),
                    ) == Some(key.0@)
                },
            None => forall|wrapped: Seq<u8>| #[trigger]
                base64_text(wrapped) == text@ && wrapped.len() == 60 ==> aead_opened(
                    x25519_shared(identity.secret_bytes(), identity.public_bytes()),
                    wrapped.take(12),
                    wrapped.skip(12),
                ) is None,
        },
{
    let wrapped: Vec<u8> = match base64_decode(text) {
        Ok(bytes) => {
            proof {
                base64_bytes_have_their_text(text@, bytes@);
                assert forall|other: Seq<u8>| #[trigger] base64_text(other) == text@ implies other
                    == bytes@ by {
                    base64_text_is_unambiguous(other, bytes@);
                }
            }
            bytes
        },
        Err(_) => Vec::new(),
    };
    assert(wrapped@.len() > 0 ==> base64_text(wrapped@) == text@);
    match PersonalNetworkKey::unwrap(wrapped.as_slice(), identity.public_key(), identity.secret()) {
        Ok(key) => Some(key),
        Err(_) => None,
    }
}

// ---- Laws ---------------------------------------------------------------

/// A text is that of a key exactly when it publishes one.
pub proof fn key_texts_are_those_that_publish(text: Seq<char>)
    ensures
        is_key_text(text) <==> published_key(text) is Some,
        is_key_text(text) <==> exists|key: Seq<u8>|
            key.len() == 32 && #[trigger] base64_text(key) == text,
{
    if is_key_text(text) {
        let key = choose|key: Seq<u8>| key.len() == 32 && #[trigger] base64_text(key) == text;
        base64_bytes_have_their_text(text, key);
    }
    if let Some(key) = published_key(text) {
        base64_bytes_have_their_text(text, key);
        assert(base64_text(key) == text);
    }
}

/// A distribution serves exactly the devices whose published text is the base64
/// text of 32 bytes, each once, in their order, wherever they stand in the list
/// and however long it is.
pub proof fn every_reachable_device_is_served_once(devices: Seq<DeviceKeyInfo>, from: int)
    requires
        0 <= from,
    ensures
        forall|i: int|
            from <= i < devices.len() ==> (#[trigger] reachable(devices, i) <==> served(
                devices,
                from,
            ).contains(i)),
        forall|i: int|
            from <= i < devices.len() ==> (published_key((#[trigger] devices[i]).public_hik@)
                is Some <==> served(devices, from).contains(i)),
        forall|i: int, key: Seq<u8>|
            from <= i < devices.len() && key.len() == 32 && (#[trigger] devices[i]).public_hik@
                == #[trigger] base64_text(key) ==> served(devices, from).contains(i),
        forall|k: int|
            0 <= k < served(devices, from).len() ==> from <= #[trigger] served(devices, from)[k]
                < devices.len(),
        forall|k: int, l: int|
            0 <= k < l < served(devices, from).len() ==> #[trigger] served(devices, from)[k]
                < #[trigger] served(devices, from)[l],
{
    lemma_served(devices, from);
    assert forall|i: int| from <= i < devices.len() implies (published_key(
        (#[trigger] devices[i]).public_hik@,
    ) is Some <==> served(devices, from).contains(i)) by {
        assert(reachable(devices, i) <==> served(devices, from).contains(i));
    }
    assert forall|i: int, key: Seq<u8>|
        from <= i < devices.len() && key.len() == 32 && (#[trigger] devices[i]).public_hik@
            == #[trigger] base64_text(key) implies served(devices, from).contains(i) by {
        assert(reachable(devices, i) <==> served(devices, from).contains(i));
        base64_bytes_have_their_text(devices[i].public_hik@, key);
    }
}

/// The place that is looked at first for push `j`: the one behind the push
/// before it.
pub open spec fn start_of(places: Seq<int>, j: int) -> int {
    if j <= 0 {
        0
    } else {
        places[j - 1] + 1
    }
}

/// The pushes of a distribution, taken one after the other until none is left,
/// go to each device with a usable public key once and to no other. `places`
/// are the places of the devices that they went to.
pub proof fn a_whole_run_serves_each_usable_device_once(
    devices: Seq<DeviceKeyInfo>,
    places: Seq<int>,
)
    requires
        forall|j: int|
            0 <= j < places.len() ==> {
                &&& start_of(places, j) <= #[trigger] places[j] < devices.len()
                &&& published_key(devices[places[j]].public_hik@) is Some
            },
        forall|j: int, k: int|
            0 <= j < places.len() && start_of(places, j) <= k < #[trigger] places[j]
                ==> published_key((#[trigger] devices[k]).public_hik@) is None,
        forall|k: int|
            start_of(places, places.len() as int) <= k < devices.len() ==> published_key(
                (#[trigger] devices[k]).public_hik@,
            ) is None,
    ensures
        forall|i: int|
            0 <= i < devices.len() ==> (published_key((#[trigger] devices[i]).public_hik@) is Some
                <==> places.contains(i)),
        forall|j: int, k: int|
            0 <= j < k < places.len() ==> #[trigger] places[j] < #[trigger] places[k],
{
    lemma_run_up_to(devices, places, places.len() as int);
    assert forall|i: int| 0 <= i < devices.len() implies (published_key(
        (#[trigger] devices[i]).public_hik@,
    ) is Some <==> places.contains(i)) by {
        if places.contains(i) {
            let j = places.index_of(i);
            assert(places[j] == i);
        }
        if published_key(devices[i].public_hik@) is Some {
            assert(i < start_of(places, places.len() as int));
        }
    }
}

proof fn lemma_run_up_to(devices: Seq<DeviceKeyInfo>, places: Seq<int>, n: int)
    requires
        0 <= n <= places.len(),
        forall|j: int|
            0 <= j < places.len() ==> start_of(places, j) <= #[trigger] places[j] < devices.len(),
        forall|j: int, k: int|
            0 <= j < places.len() && start_of(places, j) <= k < #[trigger] places[j]
                ==> published_key((#[trigger] devices[k]).public_hik@) is None,
    ensures
        forall|i: int|
            0 <= i < start_of(places, n) && published_key((#[trigger] devices[i]).public_hik@)
                is Some ==> places.contains(i),
        forall|j: int, k: int| 0 <= j < k < n ==> #[trigger] places[j] < #[trigger] places[k],
    decreases n,
{
    if n > 0 {
        lemma_run_up_to(devices, places, n - 1);
        assert(start_of(places, n - 1) <= places[n - 1]);
        assert forall|i: int|
            0 <= i < start_of(places, n) && published_key((#[trigger] devices[i]).public_hik@)
                is Some implies places.contains(i) by {
            if i == places[n - 1] {
            } else if i >= start_of(places, n - 1) {
                assert(start_of(places, n - 1) <= i < places[n - 1]);
            }
        }
        assert forall|j: int, k: int| 0 <= j < k < n implies #[trigger] places[j]
            < #[trigger] places[k] by {
            if k == n - 1 && j < n - 2 {
                assert(places[j] < places[n - 2]);
            }
        }
    }
}

/// A device finds a key in a text exactly when the text is the base64 text of 60
/// bytes of which the last 48 decrypt to the key, under the secret that the
/// device shares with itself and the first 12 as nonce.
pub proof fn key_is_received_as_it_decrypts(
    identity: HardwareIdentity,
    text: Seq<char>,
    key: Seq<u8>,
)
    ensures
        received_key(identity, text) == Some(key) <==> exists|wrapped: Seq<u8>|
            {
                &&& #[trigger] base64_text(wrapped) == text
                &&& wrapped.len() == 60
                &&& aead_opened(
                    x25519_shared(identity.secret_bytes(), identity.public_bytes()),
                    wrapped.take(12),
                    wrapped.skip(12),
                ) == Some(key)
            },
{
    if let Some(wrapped) = base64_bytes(text) {
        base64_bytes_have_their_text(text, wrapped);
        assert(base64_text(wrapped) == text);
        assert forall|other: Seq<u8>| #[trigger] base64_text(other) == text implies other
            == wrapped by {
            base64_text_is_unambiguous(other, wrapped);
        }
    } else {
        assert forall|other: Seq<u8>| #[trigger] base64_text(other) != text by {
            base64_bytes_have_their_text(text, other);
        }
    }
}

/// A push is made in the name of the user whose identifier the text is, or of
/// the nil user.
pub proof fn owner_is_the_named_user(user_id: Seq<char>)
    ensures
        match uuid_of(user_id) {
            Some(id) => owner_of(user_id) == id,
            None => owner_of(user_id) == 0,
        },
{
}

/// What a push carries is the key, sealed under the shared secret of the sender
/// and the target with the nonce before it.
pub proof fn carried_key_is_sealed_for_its_target(
    text: Seq<char>,
    key: Seq<u8>,
    sender: Seq<u8>,
    target: Seq<u8>,
)
    requires
        carries(text, key, sender, target),
    ensures
        exists|nonce: Seq<u8>|
            nonce.len() == 12 && text == base64_text(
                nonce + #[trigger] aead_sealed(x25519_shared(sender, target), nonce, key),
            ),
{
    let wrapped = choose|wrapped: Seq<u8>| #[trigger]
        base64_text(wrapped) == text && base64_bytes(text) == Some(wrapped) && wraps(
            wrapped,
            key,
            sender,
            target,
        );
    let nonce = choose|nonce: Seq<u8>|
        nonce.len() == NONCE_LEN && wrapped == #[trigger] wrapped_key(
            key,
            x25519_shared(sender, target),
            nonce,
        );
    assert(wrapped == nonce + aead_sealed(x25519_shared(sender, target), nonce, key));
}

proof fn lemma_served(devices: Seq<DeviceKeyInfo>, from: int)
    requires
        0 <= from,
    ensures
        forall|i: int|
            from <= i < devices.len() ==> (#[trigger] reachable(devices, i) <==> served(
                devices,
                from,
            ).contains(i)),
        forall|k: int|
            0 <= k < served(devices, from).len() ==> from <= #[trigger] served(devices, from)[k]
                < devices.len(),
        forall|k: int, l: int|
            0 <= k < l < served(devices, from).len() ==> #[trigger] served(devices, from)[k]
                < #[trigger] served(devices, from)[l],
    decreases devices.len() - from,
{
    if from < devices.len() {
        lemma_served(devices, from + 1);
        let rest = served(devices, from + 1);
        let all = served(devices, from);
        if reachable(devices, from) {
            assert(all == seq![from] + rest);
            assert(all[0] == from);
            assert forall|i: int| from <= i < devices.len() implies (#[trigger] reachable(
                devices,
                i,
            ) <==> all.contains(i)) by {
                if i > from {
                    if rest.contains(i) {
                        let k = rest.index_of(i);
                        assert(all[k + 1] == i);
                    }
                    if all.contains(i) {
                        let k = all.index_of(i);
                        assert(rest[k - 1] == i);
                    }
                }
            }
            assert forall|k: int| 0 <= k < all.len() implies from <= #[trigger] all[k]
                < devices.len() by {
                if k > 0 {
                    assert(all[k] == rest[k - 1]);
                }
            }
            assert forall|k: int, l: int| 0 <= k < l < all.len() implies #[trigger] all[k]
                < #[trigger] all[l] by {
                assert(all[l] == rest[l - 1]);
                if k > 0 {
                    assert(all[k] == rest[k - 1]);
                }
            }
        } else {
            assert forall|i: int| from <= i < devices.len() implies (#[trigger] reachable(
                devices,
                i,
            ) <==> all.contains(i)) by {
                if i == from && all.contains(i) {
                    let k = all.index_of(i);
                    assert(rest[k] == i);
                }
            }
        }
    }
}

/// The pushes of a distribution go to the served devices one by one: the next
/// one is the first of those left, and the rest are left after it.
pub proof fn pushes_follow_the_served_devices(devices: Seq<DeviceKeyInfo>, from: int)
    requires
        0 <= from <= devices.len(),
    ensures
        from <= next_reachable(devices, from) <= devices.len(),
        next_reachable(devices, from) == devices.len() <==> served(devices, from).len() == 0,
        next_reachable(devices, from) < devices.len() ==> served(devices, from) == seq![
            next_reachable(devices, from),
        ] + served(devices, next_reachable(devices, from) + 1),
    decreases devices.len() - from,
{
    if from < devices.len() && !reachable(devices, from) {
        pushes_follow_the_served_devices(devices, from + 1);
    }
}

/// A key that a device wrapped for itself is the key that it receives.
pub proof fn own_key_is_received(identity: HardwareIdentity, text: Seq<char>, key: Seq<u8>)
    requires
        identity.wf(),
        carries(text, key, identity.secret_bytes(), identity.public_bytes()),
    ensures
        received_key(identity, text) == Some(key),
{
}

/// A key that a device wrapped for another is the key that the other unwraps
/// when it uses the sender's public key.
pub proof fn wrapped_key_reaches_its_target(
    text: Seq<char>,
    key: Seq<u8>,
    sender: Seq<u8>,
    recipient: Seq<u8>,
)
    requires
        recipient.len() == 32,
        carries(text, key, sender, x25519_public(recipient)),
    ensures
        base64_bytes(text) is Some,
        unwrapped_key(base64_bytes(text)->0, x25519_shared(recipient, x25519_public(sender)))
            == Some(key),
{
}

} // verus!
