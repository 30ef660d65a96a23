//! Secrets in the Windows Credential Manager: how an account names an entry,
//! what is written for it, and what the manager's replies mean. The calls
//! themselves are the caller's; a function here says what to call with, or what
//! to make of the outcome.

use crate::crypto::{key_array, KEY_LEN};
use crate::outside::{utf16_lossy, utf16_lossy_text};
use crate::text::{contains, decimal, decimal_of, join2, join3, occurs};
use vstd::prelude::*;

verus! {

/// The prefix of every entry's name, so that the agent's entries stand together.
pub const SERVICE: &'static str = "com.hashnet.csid";

/// The account under which the personal network key is stored.
pub const PNK_ACCOUNT: &'static str = "pnk";

/// The type of every entry, `CRED_TYPE_GENERIC`.
pub const CREDENTIAL_TYPE: u32 = 1;

/// How long every entry stays, `CRED_PERSIST_LOCAL_MACHINE`: for all sessions on
/// this machine.
pub const CREDENTIAL_PERSISTENCE: u32 = 2;

/// The largest secret, in bytes, that the Credential Manager takes.
pub const MAX_SECRET: usize = 5120;

// ---- Wide strings -------------------------------------------------------

/// One character as UTF-16 code units.
pub open spec fn utf16_units(c: char) -> Seq<u16> {
    let code = c as u32;
    if code < 0x1_0000 {
        seq![code as u16]
    } else {
        seq![
            (0xd800 + (code - 0x1_0000) / 0x400) as u16,
            (0xdc00 + (code - 0x1_0000) % 0x400) as u16,
        ]
    }
}

/// A text as UTF-16 code units.
pub open spec fn utf16_of(s: Seq<char>) -> Seq<u16>
    decreases s.len(),
{
    if s.len() == 0 {
        Seq::empty()
    } else {
        utf16_of(s.drop_last()) + utf16_units(s.last())
    }
}

/// A text as the wide Windows calls expect it: UTF-16, ended by a zero.
pub open spec fn wide_of(s: Seq<char>) -> Seq<u16> {
    utf16_of(s).push(0)
}

/// A text as the wide Windows calls expect it.
pub fn to_wide(s: &str) -> (r: Vec<u16>)
    ensures
        r@ == wide_of(s@),
        r@ == utf16_of(s@).push(0),
{
    let mut out: Vec<u16> = Vec::new();
    for c in it: s.chars()
        invariant
            it.seq() == s@,
            out@ == utf16_of(s@.take(it.index() as int)),
    {
        let code: u32 = c as u32;
        if code < 0x1_0000 {
            out.push(code as u16);
        } else {
            let high: u32 = 0xd800 + (code - 0x1_0000) / 0x400;
            let low: u32 = 0xdc00 + (code - 0x1_0000) % 0x400;
            out.push(high as u16);
            out.push(low as u16);
        }
        let ghost next = s@.take(it.index() + 1);
        assert(next.drop_last() == s@.take(it.index() as int));
        assert(next.last() == c);
        assert(out@ =~= utf16_of(next));
    }
    assert(s@.take(s@.len() as int) == s@);
    out.push(0);
    out
}

/// The text in wide code units, all of them, with what is not UTF-16 replaced.
/// It undoes the encoding of a text.
pub fn from_wide_lossy(units: &[u16]) -> (r: String)
    ensures
        r@ == utf16_lossy_text(units@),
        forall|text: Seq<char>| #[trigger] utf16_of(text) == units@ ==> r@ == text,
{
    utf16_lossy(units)
}

/// The name of the entry of `account`.
pub open spec fn target_of(account: Seq<char>) -> Seq<u16> {
    wide_of(SERVICE@ + ":"@ + account)
}

/// The name of the entry of `account`, as a wide string.
pub fn target_name(account: &str) -> (r: Vec<u16>)
    ensures
        r@ == target_of(account@),
        r@ == utf16_of("com.hashnet.csid"@ + ":"@ + account@).push(0),
{
    let name = join3(SERVICE, ":", account);
    to_wide(&name)
}

// ---- Entries ------------------------------------------------------------

/// An entry to write: its type, how long it stays, its name, the user it is
/// filed under, a comment, and the secret.
pub struct Credential {
    pub credential_type: u32,
    pub persistence: u32,
    pub target: Vec<u16>,
    pub user: Vec<u16>,
    pub comment: Vec<u16>,
    pub blob: Vec<u8>,
}

impl Credential {
    /// The entry that holds `secret` for `account`.
    pub open spec fn holds(&self, account: Seq<char>, secret: Seq<u8>) -> bool {
        &&& self.credential_type == CREDENTIAL_TYPE
        &&& self.persistence == CREDENTIAL_PERSISTENCE
        &&& self.target@ == target_of(account)
        &&& self.user@ == wide_of(account)
        &&& self.comment@ == wide_of("BlueHash "@ + account + " key"@)
        &&& self.blob@ == secret
    }
}

/// How to store a secret: first delete the entry of that name, whatever comes
/// of it, then write the new one.
pub struct StorePlan {
    pub delete: Vec<u16>,
    pub write: Credential,
}

impl StorePlan {
    /// The plan that stores `secret` for `account`.
    pub open spec fn stores(&self, account: Seq<char>, secret: Seq<u8>) -> bool {
        &&& self.delete@ == target_of(account)
        &&& self.write.holds(account, secret)
    }
}

/// What came back from reading an entry.
pub enum CredentialRead {
    /// The call failed because there is no such entry; its message.
    NotFound(String),
    /// The call failed for another reason; its message.
    Failed(String),
    /// The call succeeded and gave no entry.
    Null,
    /// The secret of the entry.
    Blob(Vec<u8>),
}

/// The message for a secret that is too large.
pub open spec fn too_large_text(len: nat) -> Seq<char> {
    "secret too large for Credential Manager ("@ + decimal_of(len) + " bytes > 5120)"@
}

/// How to store `secret` for `account`, or why it cannot be stored.
pub fn store_device_secret(account: &str, secret: &[u8]) -> (r: Result<StorePlan, String>)
    ensures
        match r {
            Ok(plan) => secret@.len() <= MAX_SECRET && plan.stores(account@, secret@),
            Err(e) => secret@.len() > MAX_SECRET && e@ == too_large_text(secret@.len()),
        },
        r is Ok <==> secret@.len() <= 5120,
        r matches Ok(plan) ==> {
            &&& plan.delete@ == utf16_of("com.hashnet.csid"@ + ":"@ + account@).push(0)
            &&& plan.write.target@ == plan.delete@
            &&& plan.write.user@ == utf16_of(account@).push(0)
            &&& plan.write.comment@ == utf16_of("BlueHash "@ + account@ + " key"@).push(0)
            &&& plan.write.blob@ == secret@
            &&& plan.write.credential_type == 1
            &&& plan.write.persistence == 2
        },
        r matches Err(e) ==> e@ == "secret too large for Credential Manager ("@ + decimal_of(
            secret@.len(),
        ) + " bytes > 5120)"@,
{
    if secret.len() > MAX_SECRET {
        return Err(
            join3(
                "secret too large for Credential Manager (",
                &decimal(secret.len() as u64),
                " bytes > 5120)",
            ),
        );
    }
    let mut blob: Vec<u8> = Vec::new();
    blob.extend_from_slice(secret);
    assert(blob@ =~= secret@);
    Ok(
        StorePlan {
            delete: delete_device_secret(account),
            write: Credential {
                credential_type: CREDENTIAL_TYPE,
                persistence: CREDENTIAL_PERSISTENCE,
                target: target_name(account),
                user: to_wide(account),
                comment: to_wide(&join3("BlueHash ", account, " key")),
                blob,
            },
        },
    )
}

/// What the outcome of writing an entry means.
pub fn store_outcome(written: Result<(), String>) -> (r: Result<(), String>)
    ensures
        match written {
            Ok(_) => r is Ok,
            Err(e) => r is Err && r->Err_0@ == "CredWriteW failed: "@ + e@,
        },
{
    match written {
        Ok(_) => Ok(()),
        Err(e) => Err(join2("CredWriteW failed: ", &e)),
    }
}

/// The name of the entry to read for `account`.
pub fn load_device_secret(account: &str) -> (r: Vec<u16>)
    ensures
        r@ == target_of(account@),
        r@ == utf16_of("com.hashnet.csid"@ + ":"@ + account@).push(0),
{
    target_name(account)
}

/// Why there is no secret of an account.
#[derive(Debug)]
pub enum LoadError {
    /// None is stored; a message.
    NotFound(String),
    /// It could not be read; a message.
    Failed(String),
}

impl LoadError {
    /// The text that `message` gives.
    pub open spec fn message_text(&self) -> Seq<char> {
        match self {
            LoadError::NotFound(m) => m@,
            LoadError::Failed(m) => m@,
        }
    }

    /// The error in words.
    pub fn message(&self) -> (r: String)
        ensures
            r@ == self.message_text(),
            match self {
                LoadError::NotFound(m) => r@ == m@,
                LoadError::Failed(m) => r@ == m@,
            },
    {
        match self {
            LoadError::NotFound(m) => m.clone(),
            LoadError::Failed(m) => m.clone(),
        }
    }
}

/// What came back from a read that failed, from its message.
pub fn read_failed(message: String) -> (r: CredentialRead)
    ensures
        r == (if says_not_found(message@) {
            CredentialRead::NotFound(message)
        } else {
            CredentialRead::Failed(message)
        }),
{
    if not_found(&message) {
        CredentialRead::NotFound(message)
    } else {
        CredentialRead::Failed(message)
    }
}

/// The message for a read of the entry of `account` that failed.
pub open spec fn unread_text(account: Seq<char>, reason: Seq<char>) -> Seq<char> {
    "credential not found for "@ + account + ": "@ + reason
}

/// What the outcome of reading the entry of `account` means. An entry that is
/// not there is told from one that could not be read.
pub fn load_outcome(account: &str, read: CredentialRead) -> (r: Result<Vec<u8>, LoadError>)
    ensures
        match read {
            CredentialRead::NotFound(e) => {
                &&& r matches Err(LoadError::NotFound(m))
                &&& m@ == unread_text(account@, e@)
            },
            CredentialRead::Failed(e) => {
                &&& r matches Err(LoadError::Failed(m))
                &&& m@ == unread_text(account@, e@)
            },
            CredentialRead::Null => {
                &&& r matches Err(LoadError::Failed(m))
                &&& m@ == "CredReadW returned null pointer for "@ + account@
            },
            CredentialRead::Blob(bytes) => r == Ok::<Vec<u8>, LoadError>(bytes),
        },
        match read {
            CredentialRead::NotFound(e) => {
                &&& r matches Err(LoadError::NotFound(m))
                &&& m@ == "credential not found for "@ + account@ + ": "@ + e@
            },
            CredentialRead::Failed(e) => {
                &&& r matches Err(LoadError::Failed(m))
                &&& m@ == "credential not found for "@ + account@ + ": "@ + e@
            },
            _ => true,
        },
{
    match read {
        CredentialRead::NotFound(e) => Err(
            LoadError::NotFound(join2(&join3("credential not found for ", account, ": "), &e)),
        ),
        CredentialRead::Failed(e) => Err(
            LoadError::Failed(join2(&join3("credential not found for ", account, ": "), &e)),
        ),
        CredentialRead::Null => Err(
            LoadError::Failed(join2("CredReadW returned null pointer for ", account)),
        ),
        CredentialRead::Blob(bytes) => Ok(bytes),
    }
}

/// The name of the entry to delete for `account`.
pub fn delete_device_secret(account: &str) -> (r: Vec<u16>)
    ensures
        r@ == target_of(account@),
        r@ == utf16_of("com.hashnet.csid"@ + ":"@ + account@).push(0),
{
    target_name(account)
}

/// Whether a failed call says that there is no such entry: the code
/// ERROR_NOT_FOUND, in hexadecimal or in decimal.
pub open spec fn says_not_found(message: Seq<char>) -> bool {
    occurs(message, "0x80070490"@) || occurs(message, "(1168)"@)
}

/// Whether a failed call says that there is no such entry.
pub fn not_found(message: &str) -> (r: bool)
    ensures
        r == says_not_found(message@),
        r <==> occurs(message@, "0x80070490"@) || occurs(message@, "(1168)"@),
{
    contains(message, "0x80070490") || contains(message, "(1168)")
}

/// What the outcome of deleting an entry means: one that was not there is as
/// good as deleted.
pub fn delete_outcome(deleted: Result<(), String>) -> (r: Result<(), String>)
    ensures
        match deleted {
            Ok(_) => r is Ok,
            Err(e) => if says_not_found(e@) {
                r is Ok
            } else {
                r is Err && r->Err_0@ == "CredDeleteW failed: "@ + e@
            },
        },
{
    match deleted {
        Ok(_) => Ok(()),
        Err(e) => {
            if not_found(&e) {
                Ok(())
            } else {
                Err(join2("CredDeleteW failed: ", &e))
            }
        },
    }
}

// ---- Personal network key -----------------------------------------------

/// How to store the personal network key.
pub fn store_pnk(key_bytes: &[u8; 32]) -> (r: Result<StorePlan, String>)
    ensures
        r is Ok,
        r->Ok_0.stores(PNK_ACCOUNT@, key_bytes@),
        r->Ok_0.delete@ == utf16_of("com.hashnet.csid"@ + ":"@ + "pnk"@).push(0),
        r->Ok_0.write.target@ == r->Ok_0.delete@,
        r->Ok_0.write.user@ == utf16_of("pnk"@).push(0),
        r->Ok_0.write.blob@ == key_bytes@,
{
    store_device_secret(PNK_ACCOUNT, key_bytes.as_slice())
}

/// The message for a stored key of the wrong length.
pub open spec fn wrong_length_text(len: nat) -> Seq<char> {
    "PNK must be 32 bytes, got "@ + decimal_of(len)
}

/// The key that stored bytes hold, if they are of its length.
pub open spec fn key_in(bytes: Seq<u8>) -> Option<Seq<u8>> {
    if bytes.len() == KEY_LEN {
        Some(bytes)
    } else {
        None
    }
}

/// The personal network key, from what `load_outcome` made of its entry.
pub fn load_pnk(loaded: Result<Vec<u8>, LoadError>) -> (r: Result<[u8; 32], LoadError>)
    ensures
        match loaded {
            Ok(bytes) => match key_in(bytes@) {
                Some(key) => r is Ok && r->Ok_0@ == key,
                None => {
                    &&& r matches Err(LoadError::Failed(m))
                    &&& m@ == wrong_length_text(bytes@.len())
                },
            },
            Err(e) => r == Err::<[u8; 32], LoadError>(e),
        },
        r is Ok <==> loaded is Ok && loaded->Ok_0@.len() == 32,
        r is Ok ==> r->Ok_0@ == loaded->Ok_0@,
        loaded is Ok && r is Err ==> r->Err_0 is Failed && r->Err_0->Failed_0@
            == "PNK must be 32 bytes, got "@ + decimal_of(loaded->Ok_0@.len()),
{
    match loaded {
        Ok(bytes) => {
            if bytes.len() != KEY_LEN {
                let text = join2("PNK must be 32 bytes, got ", &decimal(bytes.len() as u64));
                return Err(LoadError::Failed(text));
            }
            Ok(key_array(bytes.as_slice()))
        },
        Err(e) => Err(e),
    }
}

/// The name of the entry of the personal network key, to delete it.
pub fn delete_pnk() -> (r: Vec<u16>)
    ensures
        r@ == target_of(PNK_ACCOUNT@),
        r@ == utf16_of("com.hashnet.csid"@ + ":"@ + "pnk"@).push(0),
{
    delete_device_secret(PNK_ACCOUNT)
}

// ---- Laws ---------------------------------------------------------------

proof fn lemma_utf16_injective(a: Seq<char>, b: Seq<char>)
    requires
        utf16_of(a) == utf16_of(b),
    ensures
        a == b,
    decreases a.len(),
{
    let u = utf16_of(a);
    if a.len() == 0 || b.len() == 0 {
        if a.len() > 0 {
            assert(u.len() > 0);
        }
        if b.len() > 0 {
            assert(u.len() > 0);
        }
        assert(a =~= b);
    } else {
        let ua = utf16_units(a.last());
        let ub = utf16_units(b.last());
        assert(u.last() == ua.last());
        assert(u.last() == ub.last());
        lemma_utf16_last(a.last(), b.last());
        assert(ua.len() == ub.len());
        assert(utf16_of(a.drop_last()) == u.take(u.len() - ua.len()));
        assert(utf16_of(b.drop_last()) == u.take(u.len() - ub.len()));
        lemma_utf16_injective(a.drop_last(), b.drop_last());
        assert(ua == u.skip(u.len() - ua.len()));
        assert(ub == u.skip(u.len() - ub.len()));
        lemma_utf16_unit_injective(a.last(), b.last());
        assert(a =~= a.drop_last().push(a.last()));
        assert(b =~= b.drop_last().push(b.last()));
    }
}

/// The last code unit of a character tells how many it has: a low surrogate
/// never stands alone.
proof fn lemma_utf16_last(a: char, b: char)
    requires
        utf16_units(a).last() == utf16_units(b).last(),
    ensures
        utf16_units(a).len() == utf16_units(b).len(),
{
}

proof fn lemma_utf16_unit_injective(a: char, b: char)
    requires
        utf16_units(a) == utf16_units(b),
    ensures
        a == b,
{
    let x = a as u32;
    let y = b as u32;
    let ua = utf16_units(a);
    let ub = utf16_units(b);
    if ua.len() == 1 {
        assert(ua[0] == x as u16 && ub[0] == y as u16);
        assert(x == y);
    } else {
        assert(ua[0] == 0xd800 + (x - 0x1_0000) / 0x400 && ub[0] == 0xd800 + (y - 0x1_0000) / 0x400);
        assert(ua[1] == 0xdc00 + (x - 0x1_0000) % 0x400 && ub[1] == 0xdc00 + (y - 0x1_0000) % 0x400);
        assert(x == y);
    }
}

/// A plan stores a secret for an account exactly when it deletes and writes the
/// account's entry, with the account as its user, the secret as its blob, and the
/// type and persistence of all entries.
pub proof fn plan_stores_by_its_entry(plan: StorePlan, account: Seq<char>, secret: Seq<u8>)
    ensures
        plan.stores(account, secret) <==> {
            &&& plan.delete@ == utf16_of("com.hashnet.csid"@ + ":"@ + account).push(0)
            &&& plan.write.target@ == utf16_of("com.hashnet.csid"@ + ":"@ + account).push(0)
            &&& plan.write.user@ == utf16_of(account).push(0)
            &&& plan.write.comment@ == utf16_of("BlueHash "@ + account + " key"@).push(0)
            &&& plan.write.blob@ == secret
            &&& plan.write.credential_type == 1
            &&& plan.write.persistence == 2
        },
{
}

/// The code units of a character stand for it: one unit for a character of the
/// basic plane, else a high and a low surrogate that together give its number.
pub proof fn code_units_stand_for_their_character(c: char)
    ensures
        (c as int) < 0x1_0000 ==> utf16_units(c).len() == 1 && utf16_units(c)[0] == c as int,
        (c as int) >= 0x1_0000 ==> {
            &&& utf16_units(c).len() == 2
            &&& 0xd800 <= utf16_units(c)[0] < 0xdc00
            &&& 0xdc00 <= utf16_units(c)[1] < 0xe000
            &&& 0x1_0000 + (utf16_units(c)[0] - 0xd800) * 0x400 + (utf16_units(c)[1] - 0xdc00)
                == c as int
        },
{
    let code = c as u32;
    assert(code <= 0x10_ffff);
    if code >= 0x1_0000 {
        let high = 0xd800 + (code - 0x1_0000) / 0x400;
        let low = 0xdc00 + (code - 0x1_0000) % 0x400;
        assert(utf16_units(c)[0] == high);
        assert(utf16_units(c)[1] == low);
    }
}

/// The code units of a text are those of its parts, one after the other.
pub proof fn code_units_of_parts_follow_each_other(a: Seq<char>, b: Seq<char>)
    ensures
        utf16_of(a + b) == utf16_of(a) + utf16_of(b),
        b.len() == 1 ==> utf16_of(b) == utf16_units(b[0]),
        b.len() == 0 ==> utf16_of(b).len() == 0,
    decreases b.len(),
{
    if b.len() == 0 {
        assert(a + b == a);
        assert(utf16_of(a) + utf16_of(b) == utf16_of(a));
    } else {
        code_units_of_parts_follow_each_other(a, b.drop_last());
        assert((a + b).drop_last() == a + b.drop_last());
        assert((a + b).last() == b.last());
        assert(utf16_of(a + b) =~= utf16_of(a) + utf16_of(b));
        if b.len() == 1 {
            assert(b.drop_last().len() == 0);
            assert(utf16_of(b.drop_last()) =~= Seq::<u16>::empty());
            assert(utf16_of(b) =~= utf16_units(b[0]));
        }
    }
}

/// Two accounts never share an entry.
pub proof fn accounts_have_their_own_entries(a: Seq<char>, b: Seq<char>)
    requires
        target_of(a) == target_of(b),
    ensures
        a == b,
{
    let x = SERVICE@ + ":"@ + a;
    let y = SERVICE@ + ":"@ + b;
    assert(utf16_of(x) == target_of(a).drop_last());
    assert(utf16_of(y) == target_of(b).drop_last());
    lemma_utf16_injective(x, y);
    let n = (SERVICE@ + ":"@).len() as int;
    assert(a == x.skip(n));
    assert(b == y.skip(n));
}

/// The entries, by name, once a plan was carried out.
pub open spec fn after_store(entries: Map<Seq<u16>, Seq<u8>>, plan: StorePlan) -> Map<
    Seq<u16>,
    Seq<u8>,
> {
    entries.remove(plan.delete@).insert(plan.write.target@, plan.write.blob@)
}

/// What was stored for an account is what a read for that account finds, and
/// the entries of all other accounts are as before.
pub proof fn stored_secret_is_read_back(
    entries: Map<Seq<u16>, Seq<u8>>,
    plan: StorePlan,
    account: Seq<char>,
    secret: Seq<u8>,
)
    requires
        plan.stores(account, secret),
    ensures
        after_store(entries, plan).dom().contains(target_of(account)),
        after_store(entries, plan)[target_of(account)] == secret,
        forall|other: Seq<char>|
            other != account ==> {
                &&& after_store(entries, plan).dom().contains(#[trigger] target_of(other))
                    == entries.dom().contains(target_of(other))
                &&& after_store(entries, plan)[target_of(other)] == entries[target_of(other)]
            },
{
    assert forall|other: Seq<char>| other != account implies target_of(account)
        != #[trigger] target_of(other) by {
        if target_of(account) == target_of(other) {
            accounts_have_their_own_entries(account, other);
        }
    }
}

/// A stored personal network key is read back as it was.
pub proof fn stored_pnk_is_read_back(
    entries: Map<Seq<u16>, Seq<u8>>,
    plan: StorePlan,
    key: Seq<u8>,
)
    requires
        key.len() == KEY_LEN,
        plan.stores(PNK_ACCOUNT@, key),
    ensures
        key_in(after_store(entries, plan)[target_of(PNK_ACCOUNT@)]) == Some(key),
{
    stored_secret_is_read_back(entries, plan, PNK_ACCOUNT@, key);
}

} // verus!
