use bluehash::keychain::{
    delete_device_secret, delete_outcome, delete_pnk, from_wide_lossy, load_device_secret,
    load_outcome, load_pnk, not_found, read_failed, store_device_secret, store_outcome, store_pnk,
    target_name, to_wide, CredentialRead, LoadError, CREDENTIAL_PERSISTENCE, CREDENTIAL_TYPE,
};
use std::collections::HashMap;

fn wide(text: &str) -> Vec<u16> {
    text.encode_utf16().chain(std::iter::once(0)).collect()
}

#[test]
fn wide_strings_end_in_zero() {
    for text in ["", "pnk", "com.hashnet.csid:pnk", "gr\u{fc}n \u{20ac} \u{1f511}\u{ffff}\u{10000}"] {
        assert_eq!(to_wide(text), wide(text));
    }
}

#[test]
fn wide_strings_are_read_back() {
    for text in ["", "pnk", "\u{1f511} key"] {
        let units = to_wide(text);
        assert_eq!(from_wide_lossy(&units[..units.len() - 1]), text);
        assert_eq!(from_wide_lossy(&units), format!("{text}\0"));
    }
    assert_eq!(from_wide_lossy(&[0x61, 0xd800, 0x62]), "a\u{fffd}b");
}

#[test]
fn accounts_name_entries() {
    assert_eq!(target_name("pnk"), wide("com.hashnet.csid:pnk"));
    assert_eq!(load_device_secret("hardware_identity_key"), wide("com.hashnet.csid:hardware_identity_key"));
    assert_eq!(delete_device_secret("a"), wide("com.hashnet.csid:a"));
    assert_eq!(delete_pnk(), wide("com.hashnet.csid:pnk"));
    assert_ne!(target_name("a"), target_name("b"));
}

#[test]
fn plan_to_store_a_secret() {
    let plan = store_device_secret("hardware_identity_key", &[1, 2, 3]).unwrap();
    assert_eq!(plan.delete, wide("com.hashnet.csid:hardware_identity_key"));
    assert_eq!(plan.write.target, wide("com.hashnet.csid:hardware_identity_key"));
    assert_eq!(plan.write.user, wide("hardware_identity_key"));
    assert_eq!(plan.write.comment, wide("BlueHash hardware_identity_key key"));
    assert_eq!(plan.write.blob, vec![1, 2, 3]);
    assert_eq!((plan.write.credential_type, plan.write.persistence), (1, 2));
    assert_eq!((CREDENTIAL_TYPE, CREDENTIAL_PERSISTENCE), (1, 2));
}

#[test]
fn secrets_have_a_largest_size() {
    assert!(store_device_secret("a", &vec![0; 5120]).is_ok());
    match store_device_secret("a", &vec![0; 5121]) {
        Err(e) => {
            assert_eq!(e, "secret too large for Credential Manager (5121 bytes > 5120)")
        }
        Ok(_) => panic!("too large"),
    }
}

#[test]
fn stored_secrets_are_found_again() {
    let mut entries: HashMap<Vec<u16>, Vec<u8>> = HashMap::new();
    for (account, secret) in [("a", vec![1u8]), ("b", vec![2]), ("a", vec![3])] {
        let plan = store_device_secret(account, &secret).unwrap();
        entries.remove(&plan.delete);
        entries.insert(plan.write.target, plan.write.blob);
    }
    assert_eq!(entries[&load_device_secret("a")], vec![3]);
    assert_eq!(entries[&load_device_secret("b")], vec![2]);
    assert_eq!(entries.len(), 2);
}

#[test]
fn outcomes_of_storing() {
    assert_eq!(store_outcome(Ok(())), Ok(()));
    assert_eq!(store_outcome(Err("denied".into())), Err("CredWriteW failed: denied".to_string()));
}

#[test]
fn outcomes_of_loading() {
    assert_eq!(load_outcome("pnk", CredentialRead::Blob(vec![5])).unwrap(), vec![5]);
    match load_outcome("pnk", CredentialRead::NotFound("gone".into())) {
        Err(LoadError::NotFound(m)) => assert_eq!(m, "credential not found for pnk: gone"),
        _ => panic!("nothing is stored"),
    }
    match load_outcome("pnk", CredentialRead::Failed("denied".into())) {
        Err(LoadError::Failed(m)) => assert_eq!(m, "credential not found for pnk: denied"),
        _ => panic!("the read failed"),
    }
    match load_outcome("pnk", CredentialRead::Null) {
        Err(LoadError::Failed(m)) => assert_eq!(m, "CredReadW returned null pointer for pnk"),
        _ => panic!("the read failed"),
    }
}

#[test]
fn missing_entry_is_told_from_a_failed_read() {
    let missing = "Element not found. (0x80070490)";
    assert!(not_found(missing) && not_found("(1168)"));
    assert!(!not_found("Access is denied. (0x80070005)"));
    assert!(matches!(read_failed(missing.into()), CredentialRead::NotFound(m) if m == missing));
    let denied = "Access is denied. (0x80070005)";
    assert!(matches!(read_failed(denied.into()), CredentialRead::Failed(m) if m == denied));
    assert_eq!(LoadError::NotFound("a".into()).message(), "a");
    assert_eq!(LoadError::Failed("b".into()).message(), "b");
}

#[test]
fn outcomes_of_deleting() {
    assert_eq!(delete_outcome(Ok(())), Ok(()));
    assert_eq!(delete_outcome(Err("Element not found. (0x80070490)".into())), Ok(()));
    assert_eq!(delete_outcome(Err("error (1168)".into())), Ok(()));
    assert_eq!(
        delete_outcome(Err("error 1168".into())),
        Err("CredDeleteW failed: error 1168".to_string())
    );
}

#[test]
fn personal_network_key_is_stored_and_loaded() {
    let key = [9u8; 32];
    let plan = store_pnk(&key).unwrap();
    assert_eq!(plan.write.target, wide("com.hashnet.csid:pnk"));
    assert_eq!(plan.write.comment, wide("BlueHash pnk key"));
    assert_eq!(load_pnk(Ok(plan.write.blob)).unwrap(), key);
    match load_pnk(Ok(vec![1; 33])) {
        Err(LoadError::Failed(m)) => assert_eq!(m, "PNK must be 32 bytes, got 33"),
        _ => panic!("33 bytes are no key"),
    }
    let gone = LoadError::NotFound("gone".into());
    assert!(matches!(load_pnk(Err(gone)), Err(LoadError::NotFound(m)) if m == "gone"));
}
