//! Logging in through the browser: the daemon opens a session at the broker,
//! sends the user to a login page, and asks until the session is linked to a
//! user or the time is up.

use crate::ipc::{error, is_error, IpcResponse};
use crate::login::{log_in, Login};
use crate::identifier::uuid_text;
use crate::outside::{
    is_unreserved, percent_byte, percent_encoded, upper_hex, url_encode, uuid_to_text,
};
use crate::state::DaemonState;
use crate::text::join2;
use vstd::prelude::*;
use vstd::utf8::encode_utf8;

verus! {

/// The login page, up to the address that it leads to afterwards.
pub const LOGIN_PAGE: &'static str = "https://bluehashsecurity.com/login?redirect_url=";

/// The page that links a session to a user, up to the session.
pub const LINK_PAGE: &'static str = "/desktop-link?session=";

/// How many seconds pass before each question.
pub const POLL_INTERVAL_SECS: u64 = 2;

/// How often the daemon asks before it gives up.
pub const MAX_POLLS: u32 = 150;

/// The user that a session was linked to.
#[derive(Debug)]
pub struct LinkedUser {
    pub user_id: String,
    pub email: Option<String>,
    pub image_url: Option<String>,
}

/// The address of the login page for a session.
pub open spec fn login_url(session_id: u128) -> Seq<char> {
    LOGIN_PAGE@ + percent_encoded(encode_utf8(LINK_PAGE@ + uuid_text(session_id)))
}

/// What to do when a login in the browser was asked for.
pub enum PairingStart {
    /// It cannot begin: answer with this.
    Refused(IpcResponse),
    /// Create a session at the broker, and give the outcome to
    /// `session_created`.
    CreateSession,
}

/// Begins a login in the browser, unless one is under way or the broker is not
/// configured.
pub fn begin_pairing(state: &mut DaemonState) -> (r: PairingStart)
    ensures
        old(state).oauth_listening ==> {
            &&& r matches PairingStart::Refused(answer)
            &&& is_error(answer, "Login already in progress. Check your browser."@)
            &&& *final(state) == *old(state)
        },
        !old(state).oauth_listening && old(state).broker is None ==> {
            &&& r matches PairingStart::Refused(answer)
            &&& is_error(answer, "Supabase broker not configured (missing env vars)"@)
            &&& *final(state) == *old(state)
        },
        !old(state).oauth_listening && old(state).broker is Some ==> {
            &&& r is CreateSession
            &&& *final(state) == (DaemonState { oauth_listening: true, ..*old(state) })
        },
        old(state).wf() ==> final(state).wf(),
{
    if state.oauth_listening {
        return PairingStart::Refused(error("Login already in progress. Check your browser."));
    }
    if state.broker.is_none() {
        return PairingStart::Refused(error("Supabase broker not configured (missing env vars)"));
    }
    state.oauth_listening = true;
    PairingStart::CreateSession
}

/// A session whose login page is to be opened.
#[derive(Debug)]
pub struct LoginPage {
    pub session_id: u128,
    pub url: String,
}

/// Goes on from the outcome of creating a session: the page to open in the
/// browser, or the answer that ends the login.
pub fn session_created(state: &mut DaemonState, created: Result<u128, String>) -> (r: Result<
    LoginPage,
    IpcResponse,
>)
    ensures
        match created {
            Ok(session_id) => {
                &&& r matches Ok(page)
                &&& page.session_id == session_id
                &&& page.url@ == login_url(session_id)
                &&& page.url@ == "https://bluehashsecurity.com/login?redirect_url="@
                    + percent_encoded(
                    encode_utf8("/desktop-link?session="@ + uuid_text(session_id)),
                )
                &&& *final(state) == *old(state)
            },
            Err(e) => {
                &&& r is Err
                &&& is_error(r->Err_0, "Could not create desktop session: "@ + e@)
                &&& *final(state) == (DaemonState { oauth_listening: false, ..*old(state) })
            },
        },
        old(state).wf() ==> final(state).wf(),
{
    match created {
        Ok(session_id) => {
            let inner = join2(LINK_PAGE, &uuid_to_text(session_id));
            Ok(LoginPage { session_id, url: join2(LOGIN_PAGE, &url_encode(&inner)) })
        },
        Err(e) => {
            state.oauth_listening = false;
            Err(IpcResponse::Error(join2("Could not create desktop session: ", &e)))
        },
    }
}

/// A session that the daemon asks for: wait `POLL_INTERVAL_SECS`, ask the
/// broker, and give the answer to `polled`.
#[derive(Debug)]
pub struct DesktopPoll {
    pub session_id: u128,
    /// Which question comes next, from 1 to `MAX_POLLS`.
    pub attempt: u32,
}

impl LoginPage {
    /// Answers the request for a login in the browser, from the outcome of
    /// opening the page. Where it is open, the answer is a success, and the
    /// daemon asks for the session; else the login is over.
    pub fn opened(self, state: &mut DaemonState, outcome: Result<(), String>) -> (r: (
        IpcResponse,
        Option<DesktopPoll>,
    ))
        ensures
            match outcome {
                Ok(_) => {
                    &&& r.0 is Success
                    &&& r.1 matches Some(poll)
                    &&& poll.wf()
                    &&& poll.session_id == self.session_id
                    &&& poll.attempt == 1
                    &&& *final(state) == *old(state)
                },
                Err(e) => {
                    &&& is_error(r.0, "Failed to open browser: "@ + e@)
                    &&& r.1 is None
                    &&& *final(state) == (DaemonState { oauth_listening: false, ..*old(state) })
                },
            },
            old(state).wf() ==> final(state).wf(),
    {
        match outcome {
            Ok(_) => (
                IpcResponse::Success,
                Some(DesktopPoll { session_id: self.session_id, attempt: 1 }),
            ),
            Err(e) => {
                state.oauth_listening = false;
                (IpcResponse::Error(join2("Failed to open browser: ", &e)), None)
            },
        }
    }
}

/// What the answer to a question means.
pub enum PollStep {
    /// Ask again.
    Again(DesktopPoll),
    /// The time is up: the login is over.
    TimedOut,
    /// The session is linked to a user: end it at the broker, whatever comes of
    /// it, and give the user to `linked`.
    Linked(LinkedUser),
}

/// The user that the answer to a question names, if it names one. A failed
/// question names none.
pub open spec fn named(reply: Result<Option<LinkedUser>, String>) -> Option<LinkedUser> {
    match reply {
        Ok(user) => user,
        Err(_) => None,
    }
}

impl DesktopPoll {
    /// The next question is one of those allowed.
    pub open spec fn wf(&self) -> bool {
        1 <= self.attempt <= MAX_POLLS
    }

    /// Goes on from the answer to a question.
    pub fn polled(self, state: &mut DaemonState, reply: Result<Option<LinkedUser>, String>) -> (r:
        PollStep)
        requires
            self.wf(),
        ensures
            match named(reply) {
                Some(user) => r == PollStep::Linked(user) && *final(state) == *old(state),
                None => if self.attempt < MAX_POLLS {
                    &&& r matches PollStep::Again(next)
                    &&& next.wf()
                    &&& next.session_id == self.session_id
                    &&& next.attempt == self.attempt + 1
                    &&& *final(state) == *old(state)
                } else {
                    &&& r is TimedOut
                    &&& *final(state) == (DaemonState { oauth_listening: false, ..*old(state) })
                },
            },
            match reply {
                Ok(Some(user)) => r == PollStep::Linked(user),
                Ok(None) => r !is Linked,
                Err(_) => r !is Linked,
            },
            r is TimedOut <==> self.attempt == 150 && (reply is Err || reply->Ok_0 is None),
            r matches PollStep::Again(next) ==> next.attempt == self.attempt + 1
                && next.session_id == self.session_id,
            old(state).wf() ==> final(state).wf(),
    {
        if let Ok(Some(user)) = reply {
            return PollStep::Linked(user);
        }
        if self.attempt < MAX_POLLS {
            PollStep::Again(DesktopPoll { session_id: self.session_id, attempt: self.attempt + 1 })
        } else {
            state.oauth_listening = false;
            PollStep::TimedOut
        }
    }
}

/// Logs the linked user in, which ends the login in the browser.
pub fn linked(state: &mut DaemonState, user: LinkedUser) -> (r: Option<Login>)
    ensures
        *final(state) == (DaemonState {
            oauth_listening: false,
            logged_in_user: Some(user.user_id),
            user_email: user.email,
            user_image: user.image_url,
            ..*old(state)
        }),
        r is Some <==> old(state).broker is Some,
        r matches Some(login) ==> {
            &&& Some(login.client) == old(state).broker
            &&& login.user_id == user.user_id
        },
        old(state).wf() ==> final(state).wf(),
{
    state.oauth_listening = false;
    state.user_email = user.email;
    state.user_image = user.image_url;
    log_in(state, user.user_id)
}

// ---- Laws ---------------------------------------------------------------

/// The user that a login ends with when the daemon gets the given answers, from
/// question `attempt` on; `None` where the time runs out.
pub open spec fn pairing_result(
    replies: Seq<Result<Option<LinkedUser>, String>>,
    attempt: int,
) -> Option<LinkedUser>
    decreases MAX_POLLS + 1 - attempt,
{
    if attempt > MAX_POLLS {
        None
    } else {
        match named(replies[attempt - 1]) {
            Some(user) => Some(user),
            None => pairing_result(replies, attempt + 1),
        }
    }
}

/// A login ends with the first user that the daemon is told of, and with none
/// just where none of the allowed answers names one.
pub proof fn pairing_ends_with_the_first_link(
    replies: Seq<Result<Option<LinkedUser>, String>>,
    attempt: int,
)
    requires
        1 <= attempt,
    ensures
        match pairing_result(replies, attempt) {
            Some(user) => exists|k: int|
                attempt <= k <= MAX_POLLS && #[trigger] named(replies[k - 1]) == Some(user)
                    && forall|j: int|
                    attempt <= j < k ==> #[trigger] named(replies[j - 1]) is None,
            None => forall|j: int|
                attempt <= j <= MAX_POLLS ==> #[trigger] named(replies[j - 1]) is None,
        },
        match pairing_result(replies, attempt) {
            Some(user) => exists|k: int|
                {
                    &&& attempt <= k <= 150
                    &&& #[trigger] replies[k - 1] == Ok::<Option<LinkedUser>, String>(Some(user))
                    &&& forall|j: int|
                        attempt <= j < k ==> !(#[trigger] replies[j - 1] is Ok
                            && replies[j - 1]->Ok_0 is Some)
                },
            None => forall|j: int|
                attempt <= j <= 150 ==> !(#[trigger] replies[j - 1] is Ok && replies[j - 1]->Ok_0
                    is Some),
        },
    decreases MAX_POLLS + 1 - attempt,
{
    if attempt <= MAX_POLLS {
        match named(replies[attempt - 1]) {
            Some(user) => {
                assert(named(replies[attempt - 1]) == Some(user));
            },
            None => {
                pairing_ends_with_the_first_link(replies, attempt + 1);
            },
        }
    }
}

/// The answer to a question names a user exactly when it holds one, whatever is
/// known of that user.
pub proof fn answer_names_the_user_it_holds(
    reply: Result<Option<LinkedUser>, String>,
    user: LinkedUser,
)
    ensures
        named(reply) == Some(user) <==> reply == Ok::<Option<LinkedUser>, String>(Some(user)),
        named(reply) is None <==> reply is Err || reply->Ok_0 is None,
{
}

/// The login page of a session leads back to the page that links that session:
/// what stands behind the page's address decodes to it.
pub proof fn login_page_leads_to_its_session(session_id: u128)
    ensures
        ({
            let page = "https://bluehashsecurity.com/login?redirect_url="@;
            let rest = login_url(session_id).skip(page.len() as int);
            &&& login_url(session_id) == page + rest
            &&& percent_decoded(rest) == encode_utf8(
                "/desktop-link?session="@ + uuid_text(session_id),
            )
            &&& forall|i: int| 0 <= i < rest.len() ==> !is_query_mark(#[trigger] rest[i])
        }),
{
    let page = "https://bluehashsecurity.com/login?redirect_url="@;
    let inner = encode_utf8("/desktop-link?session="@ + uuid_text(session_id));
    encoded_text_survives_a_query(inner);
    assert(login_url(session_id).skip(page.len() as int) =~= percent_encoded(inner));
    assert(login_url(session_id) =~= page + percent_encoded(inner));
}

/// A login in the browser is given up after 150 questions, one every two
/// seconds: five minutes.
pub proof fn pairing_lasts_five_minutes()
    ensures
        MAX_POLLS == 150,
        MAX_POLLS * POLL_INTERVAL_SECS == 300,
{
}

/// The bytes that a percent-encoded text stands for.
pub open spec fn percent_decoded(text: Seq<char>) -> Seq<u8>
    decreases text.len(),
{
    if text.len() == 0 {
        Seq::empty()
    } else if text[0] == '%' && text.len() >= 3 {
        seq![(16 * hex_value(text[1]) + hex_value(text[2])) as u8] + percent_decoded(text.skip(3))
    } else {
        seq![text[0] as u8] + percent_decoded(text.skip(1))
    }
}

/// The value of an upper-case hexadecimal digit.
pub open spec fn hex_value(c: char) -> int {
    if c <= '9' {
        c as int - '0' as int
    } else {
        c as int - 'A' as int + 10
    }
}

/// Whether a character has a meaning of its own in the query of an address.
pub open spec fn is_query_mark(c: char) -> bool {
    c == '?' || c == '&' || c == '=' || c == '#' || c == '/' || c == '+' || c == ' '
}

proof fn lemma_percent_byte(b: u8)
    ensures
        forall|i: int|
            0 <= i < percent_byte(b).len() ==> !is_query_mark(#[trigger] percent_byte(b)[i]),
        !is_unreserved(b) ==> hex_value(upper_hex(b as int / 16)) == b as int / 16 && hex_value(
            upper_hex(b as int % 16),
        ) == b as int % 16,
        is_unreserved(b) ==> b as char != '%' && (b as char) as u8 == b,
{
}

/// A percent-encoded text can stand in the query of an address, since it holds
/// no mark with a meaning there, and stands for the bytes that it was made
/// from.
pub proof fn encoded_text_survives_a_query(bytes: Seq<u8>)
    ensures
        forall|i: int|
            0 <= i < percent_encoded(bytes).len() ==> !is_query_mark(
                #[trigger] percent_encoded(bytes)[i],
            ),
        percent_decoded(percent_encoded(bytes)) == bytes,
    decreases bytes.len(),
{
    let text = percent_encoded(bytes);
    if bytes.len() == 0 {
        assert(percent_decoded(text) =~= bytes);
    } else {
        let head = percent_byte(bytes.first());
        let tail = percent_encoded(bytes.drop_first());
        encoded_text_survives_a_query(bytes.drop_first());
        lemma_percent_byte(bytes.first());
        assert forall|i: int| 0 <= i < text.len() implies !is_query_mark(#[trigger] text[i]) by {
            if i < head.len() {
                assert(text[i] == head[i]);
            } else {
                assert(text[i] == tail[i - head.len()]);
            }
        }
        assert(text.skip(head.len() as int) == tail);
        assert(text[0] == head[0]);
        if !is_unreserved(bytes.first()) {
            assert(text[1] == head[1] && text[2] == head[2]);
        }
        assert(percent_decoded(text) =~= seq![bytes.first()] + percent_decoded(tail));
        assert(bytes =~= seq![bytes.first()] + bytes.drop_first());
    }
}

} // verus!
