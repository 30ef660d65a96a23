use bluehash::broker::{
    BrokerError, BrokerRequest, CreateReply, Field, Method, RegisterStep, Registration,
    SupabaseClient,
};

const ID: u128 = 0x0123_4567_89ab_cdef_0123_4567_89ab_cdef;
const ID_TEXT: &str = "01234567-89ab-cdef-0123-456789abcdef";

fn client() -> SupabaseClient {
    SupabaseClient::new(Some("https://x.co".into()), Some("key".into())).unwrap()
}

fn query(request: &BrokerRequest) -> Vec<(&str, &str)> {
    request.query.iter().map(|(k, v)| (k.as_str(), v.as_str())).collect()
}

fn body(request: &BrokerRequest) -> Vec<(String, String)> {
    let members = request.body.as_ref().unwrap();
    members
        .iter()
        .map(|(k, v)| {
            let value = match v {
                Field::Text(t) => format!("text {t}"),
                Field::Flag(b) => format!("{b}"),
                Field::Number(n) => format!("{n}"),
                Field::Null => "null".to_string(),
            };
            (k.clone(), value)
        })
        .collect()
}

fn pairs(list: &[(&str, &str)]) -> Vec<(String, String)> {
    list.iter().map(|(k, v)| (k.to_string(), v.to_string())).collect()
}

fn registration() -> Registration {
    Registration {
        user_id: "u".into(),
        device_name: "host".into(),
        public_hik: "hik".into(),
        os_version: "Windows 10".into(),
    }
}

#[test]
fn client_needs_a_url_and_a_key() {
    let made = client();
    assert_eq!(made.url, "https://x.co");
    assert_eq!(made.api_key, "key");
    assert_eq!(made.authorization, "Bearer key");
    let copy = made.clone();
    assert_eq!(copy.authorization, "Bearer key");
    assert!(matches!(SupabaseClient::new(None, None), Err(BrokerError::NoUrl)));
    assert!(matches!(SupabaseClient::new(Some("u".into()), None), Err(BrokerError::NoKey)));
    for bad in ["a\nb", "\u{7f}", "\0"] {
        let refused = SupabaseClient::new(Some("u".into()), Some(bad.into()));
        assert!(matches!(refused, Err(BrokerError::BadKey)));
    }
    for good in ["", "a\tb", "\u{e9} ~"] {
        assert!(SupabaseClient::new(Some("u".into()), Some(good.into())).is_ok());
    }
}

#[test]
fn configuration_errors_in_words() {
    assert_eq!(BrokerError::NoUrl.message(), "SUPABASE_PROJECT_URL must be set");
    assert_eq!(BrokerError::NoKey.message(), "SUPABASE_ANON_KEY must be set");
    assert_eq!(BrokerError::BadKey.message(), "Invalid anon key format");
    assert_eq!(BrokerError::BadBearer.message(), "Invalid anon key format for bearer");
}

#[test]
fn requests_that_read() {
    let c = client();
    let r = c.get_active_devices("u 1");
    assert_eq!(r.method, Method::Get);
    assert_eq!(r.url, "https://x.co/rest/v1/devices");
    assert_eq!(query(&r), vec![("user_id", "eq.u 1"), ("select", "device_name")]);
    assert!(r.prefer.is_none() && r.body.is_none());
    let r = c.get_devices_for_key_distribution("u");
    assert_eq!(query(&r), vec![("user_id", "eq.u"), ("select", "id,public_hik")]);
    let r = c.fetch_my_wrapped_pnks(ID);
    assert_eq!(r.url, "https://x.co/rest/v1/key_broker");
    assert_eq!(query(&r), vec![("target_device_id", format!("eq.{ID_TEXT}").as_str())]);
    let r = c.fetch_wrapped_pnks_for_device(ID);
    assert_eq!(
        query(&r),
        vec![("target_device_id", format!("eq.{ID_TEXT}").as_str()), ("order", "version.desc")]
    );
    let r = c.get_latest_key_version(ID);
    assert_eq!(
        query(&r),
        vec![
            ("target_device_id", format!("eq.{ID_TEXT}").as_str()),
            ("select", "version"),
            ("order", "version.desc"),
            ("limit", "1"),
        ]
    );
    let r = c.get_connections("u");
    assert_eq!(r.url, "https://x.co/rest/v1/connections");
    assert_eq!(
        query(&r),
        vec![
            ("or", "(initiator_user_id.eq.u,target_user_id.eq.u)"),
            ("status", "eq.accepted"),
            ("select", "id"),
        ]
    );
}

#[test]
fn request_that_leaves_a_key() {
    let r = client().push_wrapped_pnk(ID, 0, "w".into(), 3);
    assert_eq!(r.method, Method::Post);
    assert_eq!(r.url, "https://x.co/rest/v1/key_broker");
    assert_eq!(r.prefer.as_deref(), Some("return=minimal"));
    assert!(r.query.is_empty());
    assert_eq!(
        body(&r),
        pairs(&[
            ("target_device_id", "text 01234567-89ab-cdef-0123-456789abcdef"),
            ("owner_user_id", "text 00000000-0000-0000-0000-000000000000"),
            ("wrapped_pnk", "text w"),
            ("version", "3"),
        ])
    );
}

#[test]
fn known_device_is_refreshed() {
    let c = client();
    let r = c.register_device(&registration());
    assert_eq!(query(&r), vec![("public_hik", "eq.hik")]);
    match c.device_checked(&registration(), &vec![ID, 5], "now") {
        RegisterStep::Refresh { device_id, request } => {
            assert_eq!(device_id, ID);
            assert_eq!(request.method, Method::Patch);
            assert_eq!(request.url, format!("https://x.co/rest/v1/devices?id=eq.{ID_TEXT}"));
            assert_eq!(
                body(&request),
                pairs(&[
                    ("is_active", "true"),
                    ("os_version", "text Windows 10"),
                    ("last_seen_at", "text now"),
                    ("disconnected_at", "null"),
                ])
            );
        }
        _ => panic!("the device is known"),
    }
}

#[test]
fn new_device_is_added() {
    match client().device_checked(&registration(), &vec![], "now") {
        RegisterStep::Create { request } => {
            assert_eq!(request.method, Method::Post);
            assert_eq!(request.url, "https://x.co/rest/v1/devices");
            assert_eq!(request.prefer.as_deref(), Some("return=representation"));
            assert_eq!(
                body(&request),
                pairs(&[
                    ("user_id", "text u"),
                    ("device_name", "text host"),
                    ("public_hik", "text hik"),
                    ("os_version", "text Windows 10"),
                    ("is_active", "true"),
                ])
            );
        }
        _ => panic!("the device is new"),
    }
}

#[test]
fn replies_to_a_new_device() {
    assert_eq!(SupabaseClient::device_created(CreateReply::Created(vec![ID, 1])), Ok(ID));
    assert_eq!(
        SupabaseClient::device_created(CreateReply::Created(vec![])),
        Err("No device returned from register_device".to_string())
    );
    let refused = CreateReply::Refused { status: "409 Conflict".into(), body: "dup".into() };
    assert_eq!(
        SupabaseClient::device_created(refused),
        Err("register_device failed 409 Conflict: dup".to_string())
    );
}

#[test]
fn device_status_requests() {
    let c = client();
    let r = c.set_device_status("hik=", true, "now");
    assert_eq!(r.url, "https://x.co/rest/v1/devices?public_hik=eq.hik=");
    assert_eq!(
        body(&r),
        pairs(&[("is_active", "true"), ("last_seen_at", "text now"), ("disconnected_at", "null")])
    );
    let r = c.set_device_status("hik=", false, "now");
    assert_eq!(body(&r), pairs(&[("is_active", "false"), ("disconnected_at", "text now")]));
    let r = c.update_last_seen("hik=", "now");
    assert_eq!(r.method, Method::Patch);
    assert_eq!(body(&r), pairs(&[("last_seen_at", "text now")]));
    let r = c.update_device_hik(ID, "new", 4, "now");
    assert_eq!(r.url, format!("https://x.co/rest/v1/devices?id=eq.{ID_TEXT}"));
    assert_eq!(
        body(&r),
        pairs(&[("public_hik", "text new"), ("hik_version", "4"), ("last_seen_at", "text now")])
    );
}

#[test]
fn replies_that_list() {
    assert_eq!(SupabaseClient::connection_names(&vec![ID, 1]), vec![
        ID_TEXT.to_string(),
        "00000000-0000-0000-0000-000000000001".to_string(),
    ]);
    assert_eq!(SupabaseClient::latest_key_version(&vec![7, 6]), Some(7));
    assert_eq!(SupabaseClient::latest_key_version(&vec![]), None);
}

#[test]
fn later_keys_are_synced() {
    assert!(SupabaseClient::check_key_sync_needed(Some(2), 1));
    assert!(!SupabaseClient::check_key_sync_needed(Some(1), 1));
    assert!(!SupabaseClient::check_key_sync_needed(None, 0));
}
