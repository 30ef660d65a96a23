//! The broker: a database behind HTTP through which a user's devices find each
//! other and exchange wrapped keys. Here are the requests to send and what the
//! replies mean; sending them is the caller's.

use crate::identifier::uuid_text;
use crate::outside::{fits_header, is_header_byte, is_header_value, uuid_to_text};
use crate::text::{join2, join3, texts};
use vstd::prelude::*;
use vstd::utf8::encode_utf8;

verus! {

/// A wrapped key that waits for a device.
#[derive(Debug)]
pub struct WrappedPnk {
    pub id: Option<u128>,
    pub target_device_id: u128,
    /// The wrapped key, in base64.
    pub wrapped_pnk: String,
    pub version: u32,
    pub created_at: Option<String>,
}

/// A device and the public key that it published, in base64.
#[derive(Debug)]
pub struct DeviceKeyInfo {
    pub id: u128,
    pub public_hik: String,
}

/// An HTTP method.
#[derive(Debug, Clone, Copy, PartialEq, Eq, Structural)]
pub enum Method {
    Get,
    Post,
    Patch,
}

/// A value in a JSON body.
#[derive(Debug)]
pub enum Field {
    Text(String),
    Flag(bool),
    Number(u32),
    Null,
}

/// A request to send to the broker.
#[derive(Debug)]
pub struct BrokerRequest {
    pub method: Method,
    pub url: String,
    /// The parameters to add to the URL, not yet encoded.
    pub query: Vec<(String, String)>,
    /// The value of the header `Prefer`, where it is sent.
    pub prefer: Option<String>,
    /// The members of the JSON object to send, where one is sent.
    pub body: Option<Vec<(String, Field)>>,
}

/// A value in a JSON body, as a plain value.
#[verifier::ext_equal]
pub ghost enum FieldView {
    Text(Seq<char>),
    Flag(bool),
    Number(u32),
    Null,
}

/// A request to send to the broker, as plain values.
#[verifier::ext_equal]
pub ghost struct RequestView {
    pub method: Method,
    pub url: Seq<char>,
    pub query: Seq<(Seq<char>, Seq<char>)>,
    pub prefer: Option<Seq<char>>,
    pub body: Option<Seq<(Seq<char>, FieldView)>>,
}

impl View for Field {
    type V = FieldView;

    open spec fn view(&self) -> FieldView {
        match self {
            Field::Text(s) => FieldView::Text(s@),
            Field::Flag(b) => FieldView::Flag(*b),
            Field::Number(n) => FieldView::Number(*n),
            Field::Null => FieldView::Null,
        }
    }
}

/// The parameters of a request, as plain values.
pub open spec fn pairs(query: Seq<(String, String)>) -> Seq<(Seq<char>, Seq<char>)> {
    query.map_values(|p: (String, String)| (p.0@, p.1@))
}

/// The members of a body, as plain values.
pub open spec fn members(body: Seq<(String, Field)>) -> Seq<(Seq<char>, FieldView)> {
    body.map_values(|p: (String, Field)| (p.0@, p.1@))
}

impl View for BrokerRequest {
    type V = RequestView;

    open spec fn view(&self) -> RequestView {
        RequestView {
            method: self.method,
            url: self.url@,
            query: pairs(self.query@),
            prefer: match self.prefer {
                Some(p) => Some(p@),
                None => None,
            },
            body: match self.body {
                Some(b) => Some(members(b@)),
                None => None,
            },
        }
    }
}

/// Adds a parameter.
fn add_param(query: &mut Vec<(String, String)>, key: &str, value: &str)
    ensures
        pairs(final(query)@) == pairs(old(query)@).push((key@, value@)),
{
    query.push((key.to_owned(), value.to_owned()));
    assert(pairs(query@) =~= pairs(old(query)@).push((key@, value@)));
}

/// Adds a member.
fn add_member(body: &mut Vec<(String, Field)>, key: &str, value: Field)
    ensures
        members(final(body)@) == members(old(body)@).push((key@, value@)),
{
    body.push((key.to_owned(), value));
    assert(members(body@) =~= members(old(body)@).push((key@, value@)));
}

/// No parameters.
fn no_params() -> (r: Vec<(String, String)>)
    ensures
        pairs(r@) == Seq::<(Seq<char>, Seq<char>)>::empty(),
{
    let out: Vec<(String, String)> = Vec::new();
    assert(pairs(out@) =~= Seq::<(Seq<char>, Seq<char>)>::empty());
    out
}

/// No members.
fn no_members() -> (r: Vec<(String, Field)>)
    ensures
        members(r@) == Seq::<(Seq<char>, FieldView)>::empty(),
{
    let out: Vec<(String, Field)> = Vec::new();
    assert(members(out@) =~= Seq::<(Seq<char>, FieldView)>::empty());
    out
}

/// A request that reads.
pub open spec fn reading(url: Seq<char>, query: Seq<(Seq<char>, Seq<char>)>) -> RequestView {
    RequestView { method: Method::Get, url, query, prefer: None, body: None }
}

/// A request that changes rows.
pub open spec fn changing(url: Seq<char>, body: Seq<(Seq<char>, FieldView)>) -> RequestView {
    RequestView {
        method: Method::Patch,
        url,
        query: Seq::empty(),
        prefer: None,
        body: Some(body),
    }
}

/// A request that adds a row, and asks for the given reply.
pub open spec fn adding(
    url: Seq<char>,
    prefer: Seq<char>,
    body: Seq<(Seq<char>, FieldView)>,
) -> RequestView {
    RequestView {
        method: Method::Post,
        url,
        query: Seq::empty(),
        prefer: Some(prefer),
        body: Some(body),
    }
}

/// The filter for rows with the given value.
pub open spec fn eq_filter(value: Seq<char>) -> Seq<char> {
    "eq."@ + value
}

fn eq_value(value: &str) -> (r: String)
    ensures
        r@ == eq_filter(value@),
{
    join2("eq.", value)
}

/// Why there is no client.
#[derive(Debug)]
pub enum BrokerError {
    /// The URL of the project is not configured.
    NoUrl,
    /// The key of the project is not configured.
    NoKey,
    /// The key cannot stand in a header.
    BadKey,
    /// The key cannot stand in the header `Authorization`.
    BadBearer,
}

impl BrokerError {
    /// The text that `message` gives.
    pub open spec fn message_text(&self) -> Seq<char> {
        match self {
            BrokerError::NoUrl => "SUPABASE_PROJECT_URL must be set"@,
            BrokerError::NoKey => "SUPABASE_ANON_KEY must be set"@,
            BrokerError::BadKey => "Invalid anon key format"@,
            BrokerError::BadBearer => "Invalid anon key format for bearer"@,
        }
    }

    /// The error in words.
    pub fn message(&self) -> (r: String)
        ensures
            r@ == self.message_text(),
            match self {
                BrokerError::NoUrl => r@ == "SUPABASE_PROJECT_URL must be set"@,
                BrokerError::NoKey => r@ == "SUPABASE_ANON_KEY must be set"@,
                BrokerError::BadKey => r@ == "Invalid anon key format"@,
                BrokerError::BadBearer => r@ == "Invalid anon key format for bearer"@,
            },
    {
        match self {
            BrokerError::NoUrl => "SUPABASE_PROJECT_URL must be set".to_owned(),
            BrokerError::NoKey => "SUPABASE_ANON_KEY must be set".to_owned(),
            BrokerError::BadKey => "Invalid anon key format".to_owned(),
            BrokerError::BadBearer => "Invalid anon key format for bearer".to_owned(),
        }
    }
}

/// Who registers: a user's device, with the public key that it publishes.
#[derive(Debug)]
pub struct Registration {
    pub user_id: String,
    pub device_name: String,
    pub public_hik: String,
    pub os_version: String,
}

/// What to do once the broker said which devices have the public key.
#[derive(Debug)]
pub enum RegisterStep {
    /// The device is known: send the request, and it is registered.
    Refresh { device_id: u128, request: BrokerRequest },
    /// The device is new: send the request, and give the reply to
    /// `device_created`.
    Create { request: BrokerRequest },
}

/// The broker's reply to a new device.
#[derive(Debug)]
pub enum CreateReply {
    /// It was refused, with this status and text.
    Refused { status: String, body: String },
    /// It was accepted; the identifiers of the rows that came back.
    Created(Vec<u128>),
}

/// How to reach the broker.
#[derive(Debug)]
pub struct SupabaseClient {
    pub url: String,
    /// The header `apikey` of every request.
    pub api_key: String,
    /// The header `Authorization` of every request.
    pub authorization: String,
}

impl Clone for SupabaseClient {
    fn clone(&self) -> (r: Self)
        ensures
            r == *self,
    {
        SupabaseClient {
            url: self.url.clone(),
            api_key: self.api_key.clone(),
            authorization: self.authorization.clone(),
        }
    }
}

impl SupabaseClient {
    /// The address of the table of devices.
    pub open spec fn devices_url(&self) -> Seq<char> {
        self.url@ + "/rest/v1/devices"@
    }

    /// The address of the table of wrapped keys.
    pub open spec fn keys_url(&self) -> Seq<char> {
        self.url@ + "/rest/v1/key_broker"@
    }

    /// The address of the table of connections.
    pub open spec fn connections_url(&self) -> Seq<char> {
        self.url@ + "/rest/v1/connections"@
    }

    /// The client for the configured project and key.
    pub fn new(project_url: Option<String>, anon_key: Option<String>) -> (r: Result<
        Self,
        BrokerError,
    >)
        ensures
            match r {
                Ok(client) => {
                    &&& project_url == Some(client.url)
                    &&& anon_key == Some(client.api_key)
                    &&& fits_header(client.api_key@)
                    &&& client.authorization@ == "Bearer "@ + client.api_key@
                    &&& fits_header(client.authorization@)
                },
                Err(BrokerError::NoUrl) => project_url is None,
                Err(BrokerError::NoKey) => project_url is Some && anon_key is None,
                Err(BrokerError::BadKey) => {
                    &&& project_url is Some
                    &&& anon_key is Some
                    &&& !fits_header(anon_key->0@)
                },
                Err(BrokerError::BadBearer) => false,
            },
    {
        let url = match project_url {
            Some(url) => url,
            None => {
                return Err(BrokerError::NoUrl);
            },
        };
        let api_key = match anon_key {
            Some(key) => key,
            None => {
                return Err(BrokerError::NoKey);
            },
        };
        if !is_header_value(&api_key) {
            return Err(BrokerError::BadKey);
        }
        let authorization = join2("Bearer ", &api_key);
        proof {
            bearer_fits_when_key_does(api_key@);
        }
        if !is_header_value(&authorization) {
            return Err(BrokerError::BadBearer);
        }
        Ok(SupabaseClient { url, api_key, authorization })
    }

    fn devices(&self) -> (r: String)
        ensures
            r@ == self.devices_url(),
    {
        join2(&self.url, "/rest/v1/devices")
    }

    fn keys(&self) -> (r: String)
        ensures
            r@ == self.keys_url(),
    {
        join2(&self.url, "/rest/v1/key_broker")
    }

    /// Asks for the names of a user's devices.
    pub fn get_active_devices(&self, user_id: &str) -> (r: BrokerRequest)
        ensures
            r@ == reading(
                self.devices_url(),
                seq![("user_id"@, eq_filter(user_id@)), ("select"@, "device_name"@)],
            ),
    {
        let mut query = no_params();
        add_param(&mut query, "user_id", &eq_value(user_id));
        add_param(&mut query, "select", "device_name");
        BrokerRequest { method: Method::Get, url: self.devices(), query, prefer: None, body: None }
    }

    /// Asks for the devices of a user and their public keys, to wrap a key for
    /// each of them.
    pub fn get_devices_for_key_distribution(&self, user_id: &str) -> (r: BrokerRequest)
        ensures
            r@ == reading(
                self.devices_url(),
                seq![("user_id"@, eq_filter(user_id@)), ("select"@, "id,public_hik"@)],
            ),
    {
        let mut query = no_params();
        add_param(&mut query, "user_id", &eq_value(user_id));
        add_param(&mut query, "select", "id,public_hik");
        BrokerRequest { method: Method::Get, url: self.devices(), query, prefer: None, body: None }
    }

    /// Leaves a wrapped key for a device.
    pub fn push_wrapped_pnk(
        &self,
        target_device_id: u128,
        owner_user_id: u128,
        wrapped_pnk: String,
        version: u32,
    ) -> (r: BrokerRequest)
        ensures
            r@ == adding(
                self.keys_url(),
                "return=minimal"@,
                seq![
                    ("target_device_id"@, FieldView::Text(uuid_text(target_device_id))),
                    ("owner_user_id"@, FieldView::Text(uuid_text(owner_user_id))),
                    ("wrapped_pnk"@, FieldView::Text(wrapped_pnk@)),
                    ("version"@, FieldView::Number(version)),
                ],
            ),
    {
        let mut body = no_members();
        add_member(&mut body, "target_device_id", Field::Text(uuid_to_text(target_device_id)));
        add_member(&mut body, "owner_user_id", Field::Text(uuid_to_text(owner_user_id)));
        add_member(&mut body, "wrapped_pnk", Field::Text(wrapped_pnk));
        add_member(&mut body, "version", Field::Number(version));
        BrokerRequest {
            method: Method::Post,
            url: self.keys(),
            query: no_params(),
            prefer: Some("return=minimal".to_owned()),
            body: Some(body),
        }
    }

    /// Asks for the wrapped keys of this device.
    pub fn fetch_my_wrapped_pnks(&self, my_device_id: u128) -> (r: BrokerRequest)
        ensures
            r@ == reading(
                self.keys_url(),
                seq![("target_device_id"@, eq_filter(uuid_text(my_device_id)))],
            ),
    {
        let mut query = no_params();
        add_param(&mut query, "target_device_id", &eq_value(&uuid_to_text(my_device_id)));
        BrokerRequest { method: Method::Get, url: self.keys(), query, prefer: None, body: None }
    }

    /// Begins a registration: asks which devices have the public key. The
    /// answer goes to `device_checked`.
    pub fn register_device(&self, registration: &Registration) -> (r: BrokerRequest)
        ensures
            r@ == reading(
                self.devices_url(),
                seq![("public_hik"@, eq_filter(registration.public_hik@))],
            ),
    {
        let mut query = no_params();
        add_param(&mut query, "public_hik", &eq_value(&registration.public_hik));
        BrokerRequest { method: Method::Get, url: self.devices(), query, prefer: None, body: None }
    }

    /// Goes on with a registration: a device that is known already is marked
    /// active, a new one is added. `now` is the time in RFC 3339.
    pub fn device_checked(
        &self,
        registration: &Registration,
        existing: &Vec<u128>,
        now: &str,
    ) -> (r: RegisterStep)
        ensures
            match r {
                RegisterStep::Refresh { device_id, request } => {
                    &&& existing@.len() > 0
                    &&& device_id == existing@[0]
                    &&& request@ == changing(
                        self.devices_url() + "?id=eq."@ + uuid_text(device_id),
                        seq![
                            ("is_active"@, FieldView::Flag(true)),
                            ("os_version"@, FieldView::Text(registration.os_version@)),
                            ("last_seen_at"@, FieldView::Text(now@)),
                            ("disconnected_at"@, FieldView::Null),
                        ],
                    )
                },
                RegisterStep::Create { request } => {
                    &&& existing@.len() == 0
                    &&& request@ == adding(
                        self.devices_url(),
                        "return=representation"@,
                        seq![
                            ("user_id"@, FieldView::Text(registration.user_id@)),
                            ("device_name"@, FieldView::Text(registration.device_name@)),
                            ("public_hik"@, FieldView::Text(registration.public_hik@)),
                            ("os_version"@, FieldView::Text(registration.os_version@)),
                            ("is_active"@, FieldView::Flag(true)),
                        ],
                    )
                },
            },
    {
        let mut body = no_members();
        if existing.len() > 0 {
            let device_id: u128 = existing[0];
            add_member(&mut body, "is_active", Field::Flag(true));
            add_member(&mut body, "os_version", Field::Text(registration.os_version.clone()));
            add_member(&mut body, "last_seen_at", Field::Text(now.to_owned()));
            add_member(&mut body, "disconnected_at", Field::Null);
            return RegisterStep::Refresh {
                device_id,
                request: BrokerRequest {
                    method: Method::Patch,
                    url: join3(&self.devices(), "?id=eq.", &uuid_to_text(device_id)),
                    query: no_params(),
                    prefer: None,
                    body: Some(body),
                },
            };
        }
        add_member(&mut body, "user_id", Field::Text(registration.user_id.clone()));
        add_member(&mut body, "device_name", Field::Text(registration.device_name.clone()));
        add_member(&mut body, "public_hik", Field::Text(registration.public_hik.clone()));
        add_member(&mut body, "os_version", Field::Text(registration.os_version.clone()));
        add_member(&mut body, "is_active", Field::Flag(true));
        RegisterStep::Create {
            request: BrokerRequest {
                method: Method::Post,
                url: self.devices(),
                query: no_params(),
                prefer: Some("return=representation".to_owned()),
                body: Some(body),
            },
        }
    }

    /// Ends the registration of a new device: its identifier, or why there is
    /// none.
    pub fn device_created(reply: CreateReply) -> (r: Result<u128, String>)
        ensures
            match reply {
                CreateReply::Refused { status, body } => {
                    &&& r is Err
                    &&& r->Err_0@ == "register_device failed "@ + status@ + ": "@ + body@
                },
                CreateReply::Created(ids) => if ids@.len() > 0 {
                    r == Ok::<u128, String>(ids@[0])
                } else {
                    r is Err && r->Err_0@ == "No device returned from register_device"@
                },
            },
    {
        match reply {
            CreateReply::Refused { status, body } => Err(
                join2(&join3("register_device failed ", &status, ": "), &body),
            ),
            CreateReply::Created(ids) => {
                if ids.len() > 0 {
                    Ok(ids[0])
                } else {
                    Err("No device returned from register_device".to_owned())
                }
            },
        }
    }

    /// The row of the device with a public key.
    pub open spec fn device_row(&self, public_hik: Seq<char>) -> Seq<char> {
        self.devices_url() + "?public_hik=eq."@ + public_hik
    }

    /// Marks a device active or inactive. `now` is the time in RFC 3339.
    pub fn set_device_status(&self, public_hik: &str, is_active: bool, now: &str) -> (r:
        BrokerRequest)
        ensures
            is_active ==> r@ == changing(
                self.device_row(public_hik@),
                seq![
                    ("is_active"@, FieldView::Flag(true)),
                    ("last_seen_at"@, FieldView::Text(now@)),
                    ("disconnected_at"@, FieldView::Null),
                ],
            ),
            !is_active ==> r@ == changing(
                self.device_row(public_hik@),
                seq![
                    ("is_active"@, FieldView::Flag(false)),
                    ("disconnected_at"@, FieldView::Text(now@)),
                ],
            ),
    {
        let mut body = no_members();
        add_member(&mut body, "is_active", Field::Flag(is_active));
        if is_active {
            add_member(&mut body, "last_seen_at", Field::Text(now.to_owned()));
            add_member(&mut body, "disconnected_at", Field::Null);
        } else {
            add_member(&mut body, "disconnected_at", Field::Text(now.to_owned()));
        }
        BrokerRequest {
            method: Method::Patch,
            url: join3(&self.devices(), "?public_hik=eq.", public_hik),
            query: no_params(),
            prefer: None,
            body: Some(body),
        }
    }

    /// Notes that a device was seen. `now` is the time in RFC 3339.
    pub fn update_last_seen(&self, public_hik: &str, now: &str) -> (r: BrokerRequest)
        ensures
            r@ == changing(
                self.device_row(public_hik@),
                seq![("last_seen_at"@, FieldView::Text(now@))],
            ),
    {
        let mut body = no_members();
        add_member(&mut body, "last_seen_at", Field::Text(now.to_owned()));
        BrokerRequest {
            method: Method::Patch,
            url: join3(&self.devices(), "?public_hik=eq.", public_hik),
            query: no_params(),
            prefer: None,
            body: Some(body),
        }
    }

    /// Asks for the accepted connections of a user, from either side.
    pub fn get_connections(&self, user_id: &str) -> (r: BrokerRequest)
        ensures
            r@ == reading(
                self.connections_url(),
                seq![
                    (
                        "or"@,
                        "(initiator_user_id.eq."@ + user_id@ + ",target_user_id.eq."@ + user_id@
                            + ")"@,
                    ),
                    ("status"@, "eq.accepted"@),
                    ("select"@, "id"@),
                ],
            ),
    {
        let either = join3(
            &join3("(initiator_user_id.eq.", user_id, ",target_user_id.eq."),
            user_id,
            ")",
        );
        let mut query = no_params();
        add_param(&mut query, "or", &either);
        add_param(&mut query, "status", "eq.accepted");
        add_param(&mut query, "select", "id");
        BrokerRequest {
            method: Method::Get,
            url: join2(&self.url, "/rest/v1/connections"),
            query,
            prefer: None,
            body: None,
        }
    }

    /// The connections as text, from the identifiers that came back.
    pub fn connection_names(ids: &Vec<u128>) -> (r: Vec<String>)
        ensures
            texts(r@) == ids@.map_values(|id: u128| uuid_text(id)),
    {
        let mut out: Vec<String> = Vec::new();
        let mut i: usize = 0;
        while i < ids.len()
            invariant
                i <= ids@.len(),
                texts(out@) == ids@.take(i as int).map_values(|id: u128| uuid_text(id)),
            decreases ids@.len() - i,
        {
            let ghost before = out@;
            out.push(uuid_to_text(ids[i]));
            assert(texts(out@) =~= texts(before).push(uuid_text(ids@[i as int])));
            i += 1;
        }
        assert(ids@.take(i as int) == ids@);
        out
    }

    /// Asks for the latest version of the keys of a device.
    pub fn get_latest_key_version(&self, device_id: u128) -> (r: BrokerRequest)
        ensures
            r@ == reading(
                self.keys_url(),
                seq![
                    ("target_device_id"@, eq_filter(uuid_text(device_id))),
                    ("select"@, "version"@),
                    ("order"@, "version.desc"@),
                    ("limit"@, "1"@),
                ],
            ),
    {
        let mut query = no_params();
        add_param(&mut query, "target_device_id", &eq_value(&uuid_to_text(device_id)));
        add_param(&mut query, "select", "version");
        add_param(&mut query, "order", "version.desc");
        add_param(&mut query, "limit", "1");
        BrokerRequest { method: Method::Get, url: self.keys(), query, prefer: None, body: None }
    }

    /// The latest version, from the versions that came back, latest first.
    pub fn latest_key_version(versions: &Vec<u32>) -> (r: Option<u32>)
        ensures
            r == (if versions@.len() > 0 {
                Some(versions@[0])
            } else {
                None
            }),
    {
        if versions.len() > 0 {
            Some(versions[0])
        } else {
            None
        }
    }

    /// Whether the broker has a later key than the one at hand.
    pub fn check_key_sync_needed(latest: Option<u32>, local_version: u32) -> (r: bool)
        ensures
            r <==> latest is Some && latest->0 > local_version,
    {
        match latest {
            Some(version) => version > local_version,
            None => false,
        }
    }

    /// Publishes a new public key of a device. `now` is the time in RFC 3339.
    pub fn update_device_hik(
        &self,
        device_id: u128,
        new_public_hik: &str,
        hik_version: u32,
        now: &str,
    ) -> (r: BrokerRequest)
        ensures
            r@ == changing(
                self.devices_url() + "?id=eq."@ + uuid_text(device_id),
                seq![
                    ("public_hik"@, FieldView::Text(new_public_hik@)),
                    ("hik_version"@, FieldView::Number(hik_version)),
                    ("last_seen_at"@, FieldView::Text(now@)),
                ],
            ),
    {
        let mut body = no_members();
        add_member(&mut body, "public_hik", Field::Text(new_public_hik.to_owned()));
        add_member(&mut body, "hik_version", Field::Number(hik_version));
        add_member(&mut body, "last_seen_at", Field::Text(now.to_owned()));
        BrokerRequest {
            method: Method::Patch,
            url: join3(&self.devices(), "?id=eq.", &uuid_to_text(device_id)),
            query: no_params(),
            prefer: None,
            body: Some(body),
        }
    }

    /// Asks for the wrapped keys of a device, the latest first.
    pub fn fetch_wrapped_pnks_for_device(&self, device_id: u128) -> (r: BrokerRequest)
        ensures
            r@ == reading(
                self.keys_url(),
                seq![
                    ("target_device_id"@, eq_filter(uuid_text(device_id))),
                    ("order"@, "version.desc"@),
                ],
            ),
    {
        let mut query = no_params();
        add_param(&mut query, "target_device_id", &eq_value(&uuid_to_text(device_id)));
        add_param(&mut query, "order", "version.desc");
        BrokerRequest { method: Method::Get, url: self.keys(), query, prefer: None, body: None }
    }
}

// ---- Laws ---------------------------------------------------------------

proof fn lemma_encode_concat(a: Seq<char>, b: Seq<char>)
    ensures
        encode_utf8(a + b) == encode_utf8(a) + encode_utf8(b),
    decreases a.len(),
{
    if a.len() == 0 {
        assert(a + b == b);
        assert(encode_utf8(a) + encode_utf8(b) == encode_utf8(b));
    } else {
        lemma_encode_concat(a.drop_first(), b);
        assert((a + b).drop_first() == a.drop_first() + b);
        assert(encode_utf8(a + b) =~= encode_utf8(a) + encode_utf8(b));
    }
}

/// A request seen as plain values holds what the request holds, part by part.
pub proof fn request_is_seen_as_it_is(r: BrokerRequest)
    ensures
        r@.method == r.method,
        r@.url == r.url@,
        r@.query.len() == r.query@.len(),
        forall|i: int|
            0 <= i < r.query@.len() ==> (#[trigger] r@.query[i]).0 == r.query@[i].0@
                && r@.query[i].1 == r.query@[i].1@,
        r.prefer is None <==> r@.prefer is None,
        r.prefer is Some ==> r@.prefer->0 == r.prefer->0@,
        r.body is None <==> r@.body is None,
        r.body is Some ==> r@.body->0.len() == r.body->0@.len(),
        forall|i: int|
            r.body is Some && 0 <= i < r.body->0@.len() ==> (#[trigger] r@.body->0[i]).0
                == r.body->0@[i].0@,
        forall|i: int|
            r.body is Some && 0 <= i < r.body->0@.len() ==> match r.body->0@[i].1 {
                Field::Text(t) => (#[trigger] r@.body->0[i]).1 == FieldView::Text(t@),
                Field::Flag(b) => r@.body->0[i].1 == FieldView::Flag(b),
                Field::Number(n) => r@.body->0[i].1 == FieldView::Number(n),
                Field::Null => r@.body->0[i].1 == FieldView::Null,
            },
{
}

/// A request that reads is a `GET` with the given address and parameters and
/// nothing else.
pub proof fn reading_sends_nothing(url: Seq<char>, query: Seq<(Seq<char>, Seq<char>)>)
    ensures
        reading(url, query).method == Method::Get,
        reading(url, query).url == url,
        reading(url, query).query == query,
        reading(url, query).prefer is None,
        reading(url, query).body is None,
{
}

/// A request that changes rows is a `PATCH` of the rows at the address, with the
/// given members alone.
pub proof fn changing_sends_its_members(url: Seq<char>, body: Seq<(Seq<char>, FieldView)>)
    ensures
        changing(url, body).method == Method::Patch,
        changing(url, body).url == url,
        changing(url, body).query.len() == 0,
        changing(url, body).prefer is None,
        changing(url, body).body == Some(body),
{
}

/// A request that adds a row is a `POST` of the given members, and asks for the
/// given reply.
pub proof fn adding_sends_its_members(
    url: Seq<char>,
    prefer: Seq<char>,
    body: Seq<(Seq<char>, FieldView)>,
)
    ensures
        adding(url, prefer, body).method == Method::Post,
        adding(url, prefer, body).url == url,
        adding(url, prefer, body).query.len() == 0,
        adding(url, prefer, body).prefer == Some(prefer),
        adding(url, prefer, body).body == Some(body),
{
}

/// A filter is the value behind `eq.`, so two values are never filtered alike.
pub proof fn filter_keeps_its_value(value: Seq<char>, other: Seq<char>)
    ensures
        eq_filter(value) == "eq."@ + value,
        eq_filter(value) == eq_filter(other) ==> value == other,
{
    if eq_filter(value) == eq_filter(other) {
        let n = "eq."@.len() as int;
        assert(eq_filter(value).skip(n) == value);
        assert(eq_filter(other).skip(n) == other);
    }
}

/// The tables are below the project's address, and a device's row is the one
/// with its public key.
pub proof fn tables_are_below_the_project(client: SupabaseClient, public_hik: Seq<char>)
    ensures
        client.devices_url() == client.url@ + "/rest/v1/devices"@,
        client.keys_url() == client.url@ + "/rest/v1/key_broker"@,
        client.connections_url() == client.url@ + "/rest/v1/connections"@,
        client.device_row(public_hik) == client.url@ + "/rest/v1/devices"@ + "?public_hik=eq."@
            + public_hik,
{
}

/// A key that can stand in a header can also stand in the header
/// `Authorization`, behind its scheme.
pub proof fn bearer_fits_when_key_does(key: Seq<char>)
    requires
        fits_header(key),
    ensures
        fits_header("Bearer "@ + key),
{
    reveal_strlit("Bearer ");
    let scheme = "Bearer "@;
    vstd::utf8::is_ascii_chars_encode_utf8(scheme);
    lemma_encode_concat(scheme, key);
    let all = encode_utf8(scheme + key);
    assert forall|i: int| 0 <= i < all.len() implies is_header_byte(#[trigger] all[i]) by {
        if i < encode_utf8(scheme).len() {
            assert(all[i] == encode_utf8(scheme)[i]);
            assert(all[i] == scheme[i] as u8);
        } else {
            assert(is_header_byte(encode_utf8(key)[i - encode_utf8(scheme).len()]));
        }
    }
}

} // verus!
