use bluehash::broker::{DeviceKeyInfo, Field, SupabaseClient};
use bluehash::crypto::{HardwareIdentity, PersonalNetworkKey};
use bluehash::distribution::{receive_key, Distribution};

const USER: u128 = 0x0123_4567_89ab_cdef_0123_4567_89ab_cdef;
const USER_TEXT: &str = "01234567-89ab-cdef-0123-456789abcdef";

fn identity(first: u8) -> HardwareIdentity {
    let mut secret = [0u8; 32];
    for (i, b) in secret.iter_mut().enumerate() {
        *b = first + i as u8;
    }
    let unsaved = HardwareIdentity::generated(secret, 0);
    unsaved.secret_stored(Ok(())).unwrap().version_stored(Ok(())).unwrap()
}

fn device(id: u128, public_hik: &str) -> DeviceKeyInfo {
    DeviceKeyInfo { id, public_hik: public_hik.to_string() }
}

fn key() -> PersonalNetworkKey {
    PersonalNetworkKey([200; 32])
}

#[test]
fn each_usable_device_gets_one_push() {
    let me = identity(1);
    let other = identity(101);
    let devices = vec![
        device(10, "?"),
        device(11, &me.export_public_hik()),
        device(12, "AAAA"),
        device(13, &other.export_public_hik()),
        device(14, ""),
    ];
    let mut handout = Distribution::begin(key(), 4, me.secret().clone(), USER_TEXT, devices);
    let first = handout.next_push().unwrap();
    assert_eq!((first.target_device_id, first.owner_user_id, first.version), (11, USER, 4));
    assert_eq!(receive_key(&me, &first.wrapped_pnk).unwrap().0, [200; 32]);
    handout.pushed(Ok(()));
    let second = handout.next_push().unwrap();
    assert_eq!(second.target_device_id, 13);
    handout.pushed(Err("refused".into()));
    assert!(handout.next_push().is_none());
    assert!(handout.next_push().is_none());
    assert_eq!(handout.failed, 1);
}

#[test]
fn unknown_owner_is_nil() {
    let me = identity(1);
    let hik = me.export_public_hik();
    let devices = vec![device(1, &hik)];
    let mut handout = Distribution::begin(key(), 1, me.secret().clone(), "user_2abc", devices);
    assert_eq!(handout.next_push().unwrap().owner_user_id, 0);
}

#[test]
fn owner_is_parsed_in_every_form() {
    for text in [
        "0123456789abcdef0123456789ABCDEF",
        "{01234567-89ab-cdef-0123-456789abcdef}",
        "urn:uuid:01234567-89ab-cdef-0123-456789abcdef",
        "URN:Uuid:01234567-89AB-cdef-0123-456789abcdef",
        USER_TEXT,
    ] {
        let me = identity(1);
        let handout = Distribution::begin(key(), 1, me.secret().clone(), text, vec![]);
        assert_eq!(handout.owner_user_id, USER);
    }
}

#[test]
fn known_wrapped_key_is_received() {
    let text = "MjM0NTY3ODk6Ozw9V1wSZ6i3WFdzoCrXW0sC+V1e1HzFy6uAU1FP3AXxJpFJgV787ILEOyS5tKmfumWa";
    let found = receive_key(&identity(1), text).unwrap();
    let expected: Vec<u8> = (200..232).collect();
    assert_eq!(found.0.to_vec(), expected);
}

#[test]
fn key_of_another_sender_is_not_received() {
    let me = identity(1);
    let other = identity(101);
    let devices = vec![device(1, &me.export_public_hik())];
    let mut handout = Distribution::begin(key(), 1, other.secret().clone(), "u", devices);
    let push = handout.next_push().unwrap();
    assert!(receive_key(&me, &push.wrapped_pnk).is_none());
    assert!(receive_key(&me, "not base64").is_none());
    assert!(receive_key(&me, "").is_none());
}

#[test]
fn push_becomes_a_request() {
    let me = identity(1);
    let devices = vec![device(1, &me.export_public_hik())];
    let mut handout = Distribution::begin(key(), 4, me.secret().clone(), USER_TEXT, devices);
    let push = handout.next_push().unwrap();
    let wrapped = push.wrapped_pnk.clone();
    let client = SupabaseClient::new(Some("https://x.co".into()), Some("k".into())).unwrap();
    let request = push.request(&client);
    assert_eq!(request.url, "https://x.co/rest/v1/key_broker");
    let body = request.body.unwrap();
    assert!(
        matches!(&body[0].1, Field::Text(t) if t == "00000000-0000-0000-0000-000000000001")
    );
    assert!(matches!(&body[1].1, Field::Text(t) if t == USER_TEXT));
    assert!(matches!(&body[2].1, Field::Text(t) if *t == wrapped));
    assert!(matches!(body[3].1, Field::Number(4)));
}

#[test]
fn other_texts_name_no_owner() {
    for text in [
        "",
        "0123456789abcdef0123456789abcde",
        "0123456789abcdef0123456789abcdeg",
        "01234567-89ab-cdef-0123_456789abcdef",
        "{01234567-89ab-cdef-0123-456789abcdef)",
        "{0123456789abcdef0123456789abcdef}",
        "uri:uuid:01234567-89ab-cdef-0123-456789abcdef",
        " 01234567-89ab-cdef-0123-456789abcdef",
        "0123456789abcdef0123456789abcd\u{e9}",
    ] {
        let me = identity(1);
        let handout = Distribution::begin(key(), 1, me.secret().clone(), text, vec![]);
        assert_eq!(handout.owner_user_id, 0, "{text}");
    }
}
