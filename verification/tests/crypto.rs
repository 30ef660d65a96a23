use bluehash::crypto::{
    parse_public_hik, public_key_of, CryptoError, HardwareIdentity, HikError, IdentityPlan, PersonalNetworkKey,
    PublicKey, StaticSecret,
};
use bluehash::keychain::LoadError;

fn run(from: u8) -> [u8; 32] {
    let mut out = [0u8; 32];
    for (i, b) in out.iter_mut().enumerate() {
        *b = from + i as u8;
    }
    out
}

fn hex(text: &str) -> Vec<u8> {
    (0..text.len() / 2).map(|i| u8::from_str_radix(&text[2 * i..2 * i + 2], 16).unwrap()).collect()
}

fn identity(secret: [u8; 32], version: u32) -> HardwareIdentity {
    let unsaved = HardwareIdentity::generated(secret, version);
    unsaved.secret_stored(Ok(())).unwrap().version_stored(Ok(())).unwrap()
}

const NONCE: [u8; 12] = [50, 51, 52, 53, 54, 55, 56, 57, 58, 59, 60, 61];

const WRAPPED: &str = "32333435363738393a3b3c3dd37cf27977e92ebfd6fa35ab1a6d1f1e99fe38056764af7d\
d67f54dd9e566feaa301a2a32691aab6179029caaf85db2f";

#[test]
fn public_key_of_a_known_secret() {
    let id = identity(run(1), 3);
    assert_eq!(
        id.public_key().bytes.to_vec(),
        hex("07a37cbc142093c8b755dc1b10e86cb426374ad16aa853ed0bdfc0b2b86d1c7c")
    );
    assert_eq!(id.export_public_hik(), "B6N8vBQgk8i3VdwbEOhstCY3StFqqFPtC9/AsrhtHHw=");
    assert_eq!(id.secret().bytes, run(1));
    assert_eq!(id.version, 3);
}

#[test]
fn wrap_of_known_values() {
    let target = identity(run(101), 0);
    let sender = StaticSecret { bytes: run(1) };
    let key = PersonalNetworkKey(run(200));
    let wrapped = key.wrap_with_nonce(target.public_key(), &sender, NONCE).unwrap();
    assert_eq!(wrapped, hex(WRAPPED));
}

#[test]
fn unwrap_of_known_values() {
    let sender = identity(run(1), 0);
    let recipient = identity(run(101), 0);
    let key =
        PersonalNetworkKey::unwrap(&hex(WRAPPED), sender.public_key(), recipient.secret()).unwrap();
    assert_eq!(key.0, run(200));
}

#[test]
fn wrapped_key_is_unwrapped_by_its_target_alone() {
    let sender = identity(run(1), 0);
    let recipient = identity(run(101), 0);
    let other = identity(run(7), 0);
    let key = PersonalNetworkKey::new_random();
    let wrapped = key.wrap(recipient.public_key(), sender.secret()).unwrap();
    assert_eq!(wrapped.len(), 60);
    let back =
        PersonalNetworkKey::unwrap(&wrapped, sender.public_key(), recipient.secret()).unwrap();
    assert_eq!(back.0, key.0);
    let failed = PersonalNetworkKey::unwrap(&wrapped, sender.public_key(), other.secret());
    assert!(matches!(failed, Err(CryptoError::DecryptionFailed)));
}

#[test]
fn two_wraps_use_two_nonces() {
    let id = identity(run(1), 0);
    let key = PersonalNetworkKey(run(200));
    let a = key.wrap(id.public_key(), id.secret()).unwrap();
    let b = key.wrap(id.public_key(), id.secret()).unwrap();
    assert_ne!(a[..12], b[..12]);
}

#[test]
fn unwrap_refuses_other_lengths_and_changed_bytes() {
    let sender = identity(run(1), 0);
    let recipient = identity(run(101), 0);
    let wrapped = hex(WRAPPED);
    for n in [0usize, 11, 12, 28, 59] {
        let failed =
            PersonalNetworkKey::unwrap(&wrapped[..n], sender.public_key(), recipient.secret());
        assert!(matches!(failed, Err(CryptoError::DecryptionFailed)));
    }
    let mut longer = wrapped.clone();
    longer.push(0);
    assert!(PersonalNetworkKey::unwrap(&longer, sender.public_key(), recipient.secret()).is_err());
    for i in [0usize, 12, 43, 59] {
        let mut changed = wrapped.clone();
        changed[i] ^= 1;
        assert!(
            PersonalNetworkKey::unwrap(&changed, sender.public_key(), recipient.secret()).is_err()
        );
    }
}

#[test]
fn key_in_base64() {
    assert_eq!(
        PersonalNetworkKey(run(200)).as_base64(),
        "yMnKy8zNzs/Q0dLT1NXW19jZ2tvc3d7f4OHi4+Tl5uc="
    );
}

#[test]
fn random_keys_differ() {
    assert_ne!(PersonalNetworkKey::new_random().0, PersonalNetworkKey::new_random().0);
}

#[test]
fn stored_identity_is_loaded() {
    match HardwareIdentity::load_or_generate(Ok(run(1).to_vec())) {
        Ok(IdentityPlan::LoadVersion(found)) => {
            let id = found.finish(Ok(vec![4, 3, 2, 1]));
            assert_eq!(id.version, 0x0102_0304);
            assert_eq!(id.secret().bytes, run(1));
            assert_eq!(id.export_public_hik(), "B6N8vBQgk8i3VdwbEOhstCY3StFqqFPtC9/AsrhtHHw=");
        }
        _ => panic!("the stored secret was not used"),
    }
}

#[test]
fn stored_identity_of_the_wrong_length_is_refused() {
    match HardwareIdentity::load_or_generate(Ok(vec![1; 31])) {
        Err(e) => {
            assert_eq!(e.message(), "Key format error: Invalid HIK length in keychain")
        }
        Ok(_) => panic!("31 bytes are no secret"),
    }
}

#[test]
fn missing_identity_is_generated() {
    match HardwareIdentity::load_or_generate(Err(LoadError::NotFound("none".to_string()))) {
        Ok(IdentityPlan::Save(new)) => {
            let secret = new.secret_to_store();
            assert_eq!(secret.len(), 32);
            let saved = new.secret_stored(Ok(())).unwrap();
            assert_eq!(saved.version_to_store(), vec![0, 0, 0, 0]);
            let id = saved.version_stored(Ok(())).unwrap();
            assert_eq!(id.version, 0);
            assert_eq!(id.secret().bytes.to_vec(), secret);
        }
        _ => panic!("no identity was generated"),
    }
}

#[test]
fn failures_of_the_storage_are_reported() {
    let failed = HardwareIdentity::generated(run(1), 0).secret_stored(Err("full".to_string()));
    match failed {
        Err(e) => assert_eq!(e.message(), "Keychain error: full"),
        Ok(_) => panic!("the secret was not stored"),
    }
    let saved = HardwareIdentity::generated(run(1), 0).secret_stored(Ok(())).unwrap();
    match saved.version_stored(Err("locked".to_string())) {
        Err(e) => assert_eq!(e.message(), "Keychain error: locked"),
        Ok(_) => panic!("the version was not stored"),
    }
}

#[test]
fn error_messages() {
    assert_eq!(CryptoError::EncryptionFailed.message(), "Encryption failed");
    assert_eq!(CryptoError::DecryptionFailed.message(), "Decryption failed");
    assert_eq!(CryptoError::from("x".to_string()).message(), "Keychain error: x");
}

#[test]
fn versions_are_read_back() {
    for v in [0u32, 1, 255, 256, 0x0102_0304, u32::MAX] {
        assert_eq!(HardwareIdentity::store_version(v), v.to_le_bytes().to_vec());
        assert_eq!(HardwareIdentity::load_version(Ok(v.to_le_bytes().to_vec())), v);
    }
    assert_eq!(HardwareIdentity::load_version(Ok(vec![7, 0, 0, 0, 9])), 7);
    assert_eq!(HardwareIdentity::load_version(Ok(vec![7, 0, 0])), 0);
    let unread = LoadError::NotFound("none".to_string());
    assert_eq!(HardwareIdentity::load_version(Err(unread)), 0);
}

#[test]
fn rotation_replaces_the_identity() {
    let mut id = identity(run(1), 4);
    let before = id.public_key().bytes;
    let new = id.begin_rotation().secret_stored(Ok(())).unwrap();
    assert_eq!(new.version_to_store(), vec![5, 0, 0, 0]);
    let replaced = id.rotate(new.version_stored(Ok(()))).unwrap();
    assert_eq!(replaced.bytes, before);
    assert_ne!(id.public_key().bytes, before);
    assert_eq!(id.version, 5);
}

#[test]
fn failed_rotation_keeps_the_identity() {
    let mut id = identity(run(1), 4);
    let before = id.public_key().bytes;
    assert!(id.rotate(Err(CryptoError::Keychain("no".to_string()))).is_err());
    assert_eq!(id.public_key().bytes, before);
    assert_eq!(id.version, 4);
}

#[test]
fn highest_version_stays() {
    let id = identity(run(1), u32::MAX);
    let new = id.begin_rotation().secret_stored(Ok(())).unwrap();
    assert_eq!(new.version_to_store(), vec![255, 255, 255, 255]);
}

#[test]
fn published_keys_are_parsed() {
    let key: PublicKey = parse_public_hik("B6N8vBQgk8i3VdwbEOhstCY3StFqqFPtC9/AsrhtHHw=").unwrap();
    assert_eq!(key.bytes, identity(run(1), 0).public_key().bytes);
    assert!(matches!(parse_public_hik("not base64!"), Err(HikError::Encoding(_))));
    assert!(matches!(parse_public_hik("AAAA"), Err(HikError::Length(3))));
    assert!(matches!(parse_public_hik(""), Err(HikError::Length(0))));
    let short = parse_public_hik("AAECAw==").err().unwrap();
    assert_eq!(short.message(), "invalid HIK length: 4");
    let wrong = parse_public_hik("AA?A").err().unwrap();
    assert_eq!(wrong.message(), "Invalid symbol 63, offset 2.");
}

#[test]
fn cloned_identity_is_the_same() {
    let id = identity(run(1), 9);
    let copy = id.clone();
    assert_eq!(copy.public_key().bytes, id.public_key().bytes);
    assert_eq!(copy.secret().bytes, id.secret().bytes);
    assert_eq!(copy.version, 9);
}

#[test]
fn unreadable_identity_is_not_replaced() {
    let failed = LoadError::Failed("Access is denied. (0x80070005)".to_string());
    match HardwareIdentity::load_or_generate(Err(failed)) {
        Err(e) => {
            assert_eq!(e.message(), "Keychain error: Access is denied. (0x80070005)")
        }
        Ok(_) => panic!("the stored identity would be replaced"),
    }
}

#[test]
fn public_keys_have_one_length() {
    assert_eq!(public_key_of(&run(5)).unwrap().bytes, run(5));
    assert!(matches!(public_key_of(&[0; 31]), Err(HikError::Length(31))));
    assert!(matches!(public_key_of(&[]), Err(HikError::Length(0))));
}

#[test]
fn published_key_has_one_text() {
    let text = "B6N8vBQgk8i3VdwbEOhstCY3StFqqFPtC9/AsrhtHHw=";
    assert!(parse_public_hik(text).is_ok());
    for other in [
        "B6N8vBQgk8i3VdwbEOhstCY3StFqqFPtC9/AsrhtHHw",
        "B6N8vBQgk8i3VdwbEOhstCY3StFqqFPtC9/AsrhtHHx=",
        "B6N8vBQgk8i3VdwbEOhstCY3StFqqFPtC9_AsrhtHHw=",
        "B6N8vBQgk8i3VdwbEOhstCY3StFqqFPtC9/AsrhtHHw=\n",
        " B6N8vBQgk8i3VdwbEOhstCY3StFqqFPtC9/AsrhtHHw=",
    ] {
        assert!(matches!(parse_public_hik(other), Err(HikError::Encoding(_))), "{other}");
    }
}

#[test]
fn keys_in_base64_use_the_whole_alphabet() {
    let mut bytes = [0xffu8; 32];
    bytes[0] = 0;
    bytes[1] = 0x10;
    bytes[2] = 0x83;
    assert_eq!(
        PersonalNetworkKey(bytes).as_base64(),
        "ABCD////////////////////////////////////////"
            .chars()
            .take(40)
            .chain("//8=".chars())
            .collect::<String>()
    );
    bytes = [0xfb; 32];
    assert_eq!(PersonalNetworkKey(bytes).as_base64(), "+/v7+/v7+/v7+/v7+/v7+/v7+/v7+/v7+/v7+/v7+/s=");
}
