use rust_cli_chat::{
    classify_line, ChatError, LineClass, Role, SendStep, Session, SessionEvent,
};

/// Run the role-ordered handshake between two in-memory sessions and return
/// them established.
fn handshaken_pair() -> (Session, Session) {
    let mut server = Session::new(Role::Server);
    let mut client = Session::new(Role::Client);

    // Server speaks first; the client has nothing to say yet.
    let server_hello = server.initial_send().expect("server opens the handshake");
    assert!(client.initial_send().is_none());

    // Client receives the server's key and answers with its own.
    client.push_bytes(&server_hello);
    let reply = match client.poll() {
        Ok(Some(SessionEvent::Handshaked(Some(reply)))) => reply,
        other => panic!("client handshake did not complete: {:?}", fmt_poll(&other)),
    };
    assert!(client.is_established());

    // Server receives the client's key; it has already sent its own.
    server.push_bytes(&reply);
    match server.poll() {
        Ok(Some(SessionEvent::Handshaked(None))) => {}
        other => panic!("server handshake did not complete: {:?}", fmt_poll(&other)),
    }
    assert!(server.is_established());

    (server, client)
}

fn fmt_poll(r: &Result<Option<SessionEvent>, ChatError>) -> String {
    match r {
        Ok(None) => "Ok(None)".to_string(),
        Ok(Some(SessionEvent::Handshaked(_))) => "Ok(Handshaked)".to_string(),
        Ok(Some(SessionEvent::Message(_))) => "Ok(Message)".to_string(),
        Err(e) => format!("Err({:?})", e),
    }
}

fn send_text(from: &mut Session, to: &mut Session, text: &str) -> Vec<u8> {
    let frame = match from.submit_line(&text.as_bytes().to_vec()) {
        SendStep::Frame(f) => f,
        SendStep::Skip => panic!("line was skipped"),
        SendStep::Quit => panic!("line was taken as quit"),
    };
    to.push_bytes(&frame);
    match to.poll() {
        Ok(Some(SessionEvent::Message(m))) => m,
        other => panic!("message did not arrive: {}", fmt_poll(&other)),
    }
}

#[test]
fn end_to_end_two_peers() {
    let (mut server, mut client) = handshaken_pair();
    let got = send_text(&mut server, &mut client, "hello");
    assert_eq!(got, b"hello".to_vec());
    let got = send_text(&mut client, &mut server, "hi back");
    assert_eq!(got, b"hi back".to_vec());
}

#[test]
fn frames_arrive_whole_even_when_bytes_dribble_in() {
    let (mut server, mut client) = handshaken_pair();
    let frame = match server.submit_line(&b"split me".to_vec()) {
        SendStep::Frame(f) => f,
        _ => panic!("expected a frame"),
    };
    for chunk in frame.chunks(3) {
        // Until the last chunk lands, the client sees nothing.
        client.push_bytes(&chunk.to_vec());
    }
    match client.poll() {
        Ok(Some(SessionEvent::Message(m))) => assert_eq!(m, b"split me".to_vec()),
        other => panic!("message did not arrive: {}", fmt_poll(&other)),
    }
}

#[test]
fn partial_frame_yields_nothing_then_close_is_io_error() {
    let (_server, mut client) = handshaken_pair();
    // A length prefix announcing 5 bytes that never arrive.
    client.push_bytes(&vec![0u8, 0, 0, 5]);
    assert!(matches!(client.poll(), Ok(None)));
    assert_eq!(client.on_close(), Err(ChatError::IOError));
    assert!(client.is_closed());
}

#[test]
fn clean_close_with_empty_buffer() {
    let (mut server, _client) = handshaken_pair();
    assert_eq!(server.on_close(), Ok(()));
    assert!(server.is_closed());
    // A closed session reports nothing further.
    assert!(matches!(server.poll(), Ok(None)));
}

#[test]
fn handshake_rejects_wrong_key_length() {
    let mut server = Session::new(Role::Server);
    let _hello = server.initial_send().expect("server opens the handshake");
    // A frame whose payload is 31 bytes, one short of a public key.
    let bad = rust_cli_chat::encode_frame(&vec![7u8; 31]);
    server.push_bytes(&bad);
    assert!(matches!(server.poll(), Err(ChatError::InvalidKeyLength)));
    assert!(server.is_closed());
}

#[test]
fn garbage_ciphertext_closes_the_session() {
    let (_server, mut client) = handshaken_pair();
    // Too short to hold a nonce: malformed.
    let frame = rust_cli_chat::encode_frame(&vec![1u8; 10]);
    client.push_bytes(&frame);
    assert!(matches!(client.poll(), Err(ChatError::MalformedPayload)));
    assert!(client.is_closed());

    let (_server, mut client) = handshaken_pair();
    // Long enough for a nonce, but no honest tag: authentication fails.
    let frame = rust_cli_chat::encode_frame(&vec![1u8; 30]);
    client.push_bytes(&frame);
    assert!(matches!(client.poll(), Err(ChatError::AuthenticationFailed)));
    assert!(client.is_closed());
}

#[test]
fn blank_lines_are_skipped_and_quit_ends_the_session() {
    let (mut server, _client) = handshaken_pair();
    assert!(matches!(server.submit_line(&b"   \n".to_vec()), SendStep::Skip));
    assert!(matches!(server.submit_line(&b"".to_vec()), SendStep::Skip));
    assert!(server.is_established());
    assert!(matches!(server.submit_line(&b" /quit \n".to_vec()), SendStep::Quit));
    assert!(server.is_closed());
}

#[test]
fn line_classification() {
    assert_eq!(classify_line(&b"".to_vec()), LineClass::Blank);
    assert_eq!(classify_line(&b" \t\r\n".to_vec()), LineClass::Blank);
    assert_eq!(classify_line(&b"/quit".to_vec()), LineClass::Quit);
    assert_eq!(classify_line(&b"/quit\n".to_vec()), LineClass::Quit);
    assert_eq!(classify_line(&b"  /quit  ".to_vec()), LineClass::Quit);
    assert_eq!(classify_line(&b"/quitx".to_vec()), LineClass::Message);
    assert_eq!(classify_line(&b"/quit now".to_vec()), LineClass::Message);
    assert_eq!(classify_line(&b"hello".to_vec()), LineClass::Message);
    assert_eq!(classify_line(&b" x ".to_vec()), LineClass::Message);
}

#[test]
fn sessions_use_distinct_ephemeral_keys() {
    let a = Session::new(Role::Server);
    let b = Session::new(Role::Server);
    assert_eq!(a.public_key().len(), 32);
    assert_ne!(a.public_key(), b.public_key());
}
