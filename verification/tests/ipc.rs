use bluehash::ipc::{
    error, frame, receive, response_text, unparsable, FileInfo, IpcResponse, NetworkInfo, Received,
    PIPE_NAME, READ_BUFFER,
};

fn requests(chunk: &[u8]) -> Vec<String> {
    match receive(chunk) {
        Received::Requests(lines) => lines,
        _ => panic!("no text"),
    }
}

#[test]
fn pipe_and_buffer() {
    assert_eq!(PIPE_NAME, r"\\.\pipe\csi");
    assert_eq!(READ_BUFFER, 4096);
}

#[test]
fn empty_read_closes_the_connection() {
    assert!(matches!(receive(b""), Received::Closed));
}

#[test]
fn bytes_that_are_no_text_end_the_connection() {
    assert!(matches!(receive(&[0x22, 0xff]), Received::NotText));
    assert!(response_text(&[0xc3]).is_none());
}

#[test]
fn requests_are_the_lines_that_are_not_blank() {
    assert_eq!(requests(b"\"GetStatus\"\n"), vec!["\"GetStatus\""]);
    assert_eq!(requests(b"a\r\n\n \t\nb"), vec!["a", "b"]);
    assert_eq!(requests(b" a \n"), vec![" a "]);
    assert!(requests(b"\n \n").is_empty());
}

#[test]
fn framed_messages_arrive_as_they_were() {
    let messages = ["\"GetFiles\"", "{\"OpenFile\":{\"enc_path\":\"\u{e9} \u{1f511}\"}}"];
    let mut sent = String::new();
    for message in messages {
        sent.push_str(&frame(message.to_string()));
    }
    assert_eq!(requests(sent.as_bytes()), messages);
}

#[test]
fn framed_response_arrives_as_it_was() {
    let json = "{\"Error\":\"Not logged in\"}";
    assert_eq!(response_text(frame(json.to_string()).as_bytes()).unwrap(), json);
    assert_eq!(response_text(b"").unwrap(), "");
}

#[test]
fn error_responses() {
    assert!(matches!(error("x"), IpcResponse::Error(m) if m == "x"));
    assert!(matches!(unparsable(), IpcResponse::Error(m) if m == "Failed to parse request JSON"));
}

#[test]
fn infos_are_cloned() {
    let file = FileInfo {
        enc_path: "p".into(),
        original_name: "n".into(),
        size_bytes: 1,
        encrypted_at: 2,
        network_id: Some("i".into()),
    };
    let copy = file.clone();
    assert_eq!((copy.enc_path, copy.original_name), ("p".to_string(), "n".to_string()));
    assert_eq!((copy.size_bytes, copy.encrypted_at, copy.network_id), (1, 2, Some("i".into())));
    let network = NetworkInfo {
        id: "a".into(),
        name: "b".into(),
        region: None,
        has_key: true,
        key_version: 3,
    };
    let copy = network.clone();
    assert_eq!((copy.id, copy.name, copy.region), ("a".into(), "b".into(), None));
    assert_eq!((copy.has_key, copy.key_version), (true, 3));
}
