//! The protocol between the daemon and the tray: requests and responses, each
//! one line of JSON on a local pipe. JSON itself is the caller's; here are the
//! messages, and how they are cut into lines and put together from them.

use crate::text::{
    is_white_space, line_end, lines, lines_of, texts, trim, trimmed, without_cr,
};
use vstd::prelude::*;
use vstd::utf8::{
    decode_utf8, encode_utf8, encode_utf8_decode_utf8, encode_utf8_valid_utf8, valid_utf8,
};

verus! {

/// The name of the pipe on which the daemon listens.
pub const PIPE_NAME: &'static str = "\\\\.\\pipe\\csi";

/// How many bytes either side reads from the pipe at once.
pub const READ_BUFFER: usize = 4096;

/// An encrypted file, as the tray lists it.
#[derive(Debug)]
pub struct FileInfo {
    pub enc_path: String,
    pub original_name: String,
    pub size_bytes: u64,
    pub encrypted_at: u64,
    /// The network that the file belongs to; `None` for a personal file.
    pub network_id: Option<String>,
}

/// A network that the user belongs to.
#[derive(Debug)]
pub struct NetworkInfo {
    pub id: String,
    pub name: String,
    pub region: Option<String>,
    /// Whether the daemon holds the network's key, and so can read its files.
    pub has_key: bool,
    pub key_version: u32,
}

impl Clone for FileInfo {
    fn clone(&self) -> (r: Self)
        ensures
            r == *self,
    {
        FileInfo {
            enc_path: self.enc_path.clone(),
            original_name: self.original_name.clone(),
            size_bytes: self.size_bytes,
            encrypted_at: self.encrypted_at,
            network_id: self.network_id.clone(),
        }
    }
}

impl Clone for NetworkInfo {
    fn clone(&self) -> (r: Self)
        ensures
            r == *self,
    {
        NetworkInfo {
            id: self.id.clone(),
            name: self.name.clone(),
            region: self.region.clone(),
            has_key: self.has_key,
            key_version: self.key_version,
        }
    }
}

/// What the tray asks of the daemon.
#[derive(Debug)]
pub enum IpcRequest {
    GetStatus,
    SyncKeys,
    AcceptInvite { target_user_id: String },
    RotatePnk,
    RotateHik,
    Login { user_id: String },
    StartOAuthFlow,
    GetNetworkDevices,
    GetConnections,
    GetFiles,
    OpenFile { enc_path: String },
    Logout,
    EncryptFile { file_path: String },
    /// List the networks of the signed-in user.
    ListNetworks,
    /// Encrypt a file into a network whose key the daemon holds.
    EncryptFileToNetwork { file_path: String, network_id: String },
    /// List the files of one network.
    GetFilesInNetwork { network_id: String },
    /// Synchronise the networks now.
    SyncNetworks,
}

/// What the daemon answers.
#[derive(Debug)]
pub enum IpcResponse {
    Success,
    Error(String),
    Status {
        hostname: String,
        is_active: bool,
        state: String,
        hik: String,
        email: Option<String>,
        name: Option<String>,
        image_url: Option<String>,
    },
    NetworkDevices(Vec<String>),
    Connections(Vec<String>),
    Files(Vec<FileInfo>),
    OAuthUrl(String),
    EncryptedFile { path: String, manifest_entry: String },
    Networks(Vec<NetworkInfo>),
}

/// Whether a response is the error with the given text.
pub open spec fn is_error(r: IpcResponse, text: Seq<char>) -> bool {
    r is Error && r->Error_0@ == text
}

/// The error with the given text.
pub fn error(text: &str) -> (r: IpcResponse)
    ensures
        is_error(r, text@),
        r is Error && r->Error_0@ == text@,
{
    IpcResponse::Error(text.to_owned())
}

/// The answer to a line that is no request.
pub fn unparsable() -> (r: IpcResponse)
    ensures
        is_error(r, "Failed to parse request JSON"@),
{
    error("Failed to parse request JSON")
}

/// What one read from the pipe gave.
pub enum Received {
    /// The other side closed the pipe.
    Closed,
    /// The bytes are not UTF-8, which ends the connection.
    NotText,
    /// The lines to parse as requests, in order.
    Requests(Vec<String>),
}

/// Whether a line holds anything but white space.
pub open spec fn is_filled(line: Seq<char>) -> bool {
    trimmed(line).len() != 0
}

/// The lines of `lines` that hold anything but white space, in order.
pub open spec fn filled_lines(lines: Seq<Seq<char>>) -> Seq<Seq<char>>
    decreases lines.len(),
{
    if lines.len() == 0 {
        Seq::empty()
    } else if is_filled(lines.last()) {
        filled_lines(lines.drop_last()).push(lines.last())
    } else {
        filled_lines(lines.drop_last())
    }
}

/// The lines to parse as requests in a text.
pub open spec fn requests_in(text: Seq<char>) -> Seq<Seq<char>> {
    filled_lines(lines_of(text))
}

/// The requests in the bytes of one read. A request is a line that is not
/// blank.
pub fn receive(chunk: &[u8]) -> (r: Received)
    ensures
        match r {
            Received::Closed => chunk@.len() == 0,
            Received::NotText => chunk@.len() != 0 && !valid_utf8(chunk@),
            Received::Requests(requests) => {
                &&& chunk@.len() != 0
                &&& valid_utf8(chunk@)
                &&& texts(requests@) == requests_in(decode_utf8(chunk@))
            },
        },
{
    if chunk.len() == 0 {
        return Received::Closed;
    }
    match core::str::from_utf8(chunk) {
        Ok(text) => {
            let all = lines(text);
            let ghost whole = texts(all@);
            let mut out: Vec<String> = Vec::new();
            let mut i: usize = 0;
            while i < all.len()
                invariant
                    i <= all@.len(),
                    whole == texts(all@),
                    texts(out@) == filled_lines(whole.take(i as int)),
                decreases all@.len() - i,
            {
                let ghost before = out@;
                let ghost next = whole.take(i + 1);
                assert(next.drop_last() == whole.take(i as int));
                assert(next.last() == all@[i as int]@);
                if !trim(&all[i]).as_str().is_empty() {
                    out.push(all[i].clone());
                    assert(texts(out@) == texts(before).push(all@[i as int]@));
                }
                i += 1;
            }
            assert(whole.take(i as int) == whole);
            Received::Requests(out)
        },
        Err(_) => Received::NotText,
    }
}

/// A message as it goes over the pipe: its JSON, ended by a line feed.
pub fn frame(json: String) -> (r: String)
    ensures
        r@ == json@.push('\n'),
{
    let mut out = json;
    out.push('\n');
    out
}

/// The JSON of the response in the bytes of one read, if they are UTF-8.
pub fn response_text(chunk: &[u8]) -> (r: Option<String>)
    ensures
        match r {
            Some(json) => valid_utf8(chunk@) && json@ == trimmed(decode_utf8(chunk@)),
            None => !valid_utf8(chunk@),
        },
{
    match core::str::from_utf8(chunk) {
        Ok(text) => Some(trim(text)),
        Err(_) => None,
    }
}

// ---- Laws ---------------------------------------------------------------

/// Whether a text can go over the pipe as one message: it holds no line feed,
/// and does not start or end in white space.
pub open spec fn is_one_line(json: Seq<char>) -> bool {
    &&& json.len() > 0
    &&& !json.contains('\n')
    &&& !is_white_space(json.first())
    &&& !is_white_space(json.last())
}

/// The bytes on the pipe, as text, when messages were sent one after the other.
pub open spec fn framed(messages: Seq<Seq<char>>) -> Seq<char>
    decreases messages.len(),
{
    if messages.len() == 0 {
        Seq::empty()
    } else {
        messages.first().push('\n') + framed(messages.drop_first())
    }
}

proof fn lemma_first_line(line: Seq<char>, rest: Seq<char>)
    requires
        !line.contains('\n'),
    ensures
        lines_of(line.push('\n') + rest) == seq![without_cr(line)] + lines_of(rest),
{
    let s = line.push('\n') + rest;
    lemma_line_end_at(line, rest);
    assert(s.take(line.len() as int) == line);
    assert(s.skip((line.len() + 1) as int) == rest);
}

proof fn lemma_line_end_at(line: Seq<char>, rest: Seq<char>)
    requires
        !line.contains('\n'),
    ensures
        line_end(line.push('\n') + rest) == line.len(),
    decreases line.len(),
{
    let s = line.push('\n') + rest;
    if line.len() > 0 {
        assert(line.contains(line[0]));
        assert(s.drop_first() == line.drop_first().push('\n') + rest);
        assert forall|c: char| line.drop_first().contains(c) implies line.contains(c) by {
            let k = line.drop_first().index_of(c);
            assert(line[k + 1] == c);
        }
        lemma_line_end_at(line.drop_first(), rest);
    }
}

proof fn lemma_filled_push_front(line: Seq<char>, rest: Seq<Seq<char>>)
    requires
        is_filled(line),
    ensures
        filled_lines(seq![line] + rest) == seq![line] + filled_lines(rest),
    decreases rest.len(),
{
    let all = seq![line] + rest;
    if rest.len() == 0 {
        assert(all.drop_last() == Seq::<Seq<char>>::empty());
        assert(all.last() == line);
        assert(filled_lines(all.drop_last()) == Seq::<Seq<char>>::empty());
        assert(filled_lines(all) =~= seq![line]);
        assert(filled_lines(rest) == Seq::<Seq<char>>::empty());
        assert(seq![line] + filled_lines(rest) =~= seq![line]);
    } else {
        assert(all.drop_last() == seq![line] + rest.drop_last());
        assert(all.last() == rest.last());
        lemma_filled_push_front(line, rest.drop_last());
        assert(filled_lines(all) =~= seq![line] + filled_lines(rest));
    }
}

proof fn lemma_framed_requests(messages: Seq<Seq<char>>)
    requires
        forall|i: int| 0 <= i < messages.len() ==> is_one_line(#[trigger] messages[i]),
    ensures
        requests_in(framed(messages)) == messages,
    decreases messages.len(),
{
    if messages.len() == 0 {
        assert(requests_in(framed(messages)) =~= messages);
    } else {
        let first = messages.first();
        let rest = messages.drop_first();
        assert(is_one_line(messages[0]));
        assert forall|i: int| 0 <= i < rest.len() implies is_one_line(#[trigger] rest[i]) by {
            assert(rest[i] == messages[i + 1]);
        }
        lemma_framed_requests(rest);
        lemma_first_line(first, framed(rest));
        assert(is_white_space('\r'));
        assert(without_cr(first) == first);
        assert(is_filled(first));
        lemma_filled_push_front(first, lines_of(framed(rest)));
        assert(seq![first] + rest =~= messages);
    }
}

/// A response is an error with a text exactly when it is `Error` and holds that
/// text.
pub proof fn error_holds_its_text(r: IpcResponse, text: Seq<char>)
    ensures
        is_error(r, text) <==> r is Error && r->Error_0@ == text,
{
}

/// Whether a line holds a character that is no white space.
pub open spec fn holds_something(line: Seq<char>) -> bool {
    exists|i: int| 0 <= i < line.len() && !is_white_space(#[trigger] line[i])
}

proof fn lemma_filled(line: Seq<char>)
    ensures
        is_filled(line) <==> holds_something(line),
    decreases line.len(),
{
    if line.len() > 0 {
        assert(line[0] == line.first());
        assert(line[line.len() - 1] == line.last());
        if is_white_space(line.first()) {
            let rest = line.drop_first();
            lemma_filled(rest);
            if holds_something(line) {
                let i = choose|i: int| 0 <= i < line.len() && !is_white_space(#[trigger] line[i]);
                assert(rest[i - 1] == line[i]);
            }
            if holds_something(rest) {
                let i = choose|i: int| 0 <= i < rest.len() && !is_white_space(#[trigger] rest[i]);
                assert(line[i + 1] == rest[i]);
            }
        } else if is_white_space(line.last()) {
            let rest = line.drop_last();
            assert(rest[0] == line[0]);
            lemma_filled(rest);
        }
    }
}

/// The requests in a text are its lines that hold a character that is no white
/// space, all of them and in order.
pub proof fn requests_are_the_lines_that_hold_something(text: Seq<char>)
    ensures
        requests_in(text) == lines_of(text).filter(|line: Seq<char>| holds_something(line)),
{
    lemma_filled_lines(lines_of(text));
}

proof fn lemma_filled_lines(lines: Seq<Seq<char>>)
    ensures
        filled_lines(lines) == lines.filter(|line: Seq<char>| holds_something(line)),
    decreases lines.len(),
{
    reveal(Seq::filter);
    if lines.len() > 0 {
        lemma_filled(lines.last());
        lemma_filled_lines(lines.drop_last());
    }
}

/// Requests that were framed and sent one after the other, and that arrive in
/// one read, are received each as it was, and in that order.
pub proof fn framed_requests_are_received(messages: Seq<Seq<char>>)
    requires
        forall|i: int| 0 <= i < messages.len() ==> is_one_line(#[trigger] messages[i]),
    ensures
        valid_utf8(encode_utf8(framed(messages))),
        requests_in(decode_utf8(encode_utf8(framed(messages)))) == messages,
{
    encode_utf8_valid_utf8(framed(messages));
    encode_utf8_decode_utf8(framed(messages));
    lemma_framed_requests(messages);
}

/// A framed response that arrives in one read is read back as it was.
pub proof fn framed_response_is_read_back(json: Seq<char>)
    requires
        is_one_line(json),
    ensures
        valid_utf8(encode_utf8(json.push('\n'))),
        trimmed(decode_utf8(encode_utf8(json.push('\n')))) == json,
{
    let s = json.push('\n');
    encode_utf8_valid_utf8(s);
    encode_utf8_decode_utf8(s);
    assert(s.first() == json.first());
    assert(s.last() == '\n');
    assert(s.drop_last() == json);
    assert(trimmed(s) == trimmed(json));
    assert(trimmed(json) == json);
}

} // verus!
