use webserver::error::ProtocolError;
use webserver::framing::{decode, Message};
use webserver::handshake::{
    handshake_step, read_authentication_method, read_authentication_response, read_parameters,
    send_password, send_startup, ConnectionParameters, HandshakeAction, HandshakeEvent,
    HandshakeState,
};

fn parameters() -> ConnectionParameters {
    ConnectionParameters {
        host: "127.0.0.1".to_string(),
        port: 5432,
        user: "smgadmin".to_string(),
        password: "admin".to_string(),
        database: "memeoff".to_string(),
    }
}

fn received(tag: u8, body: &[u8]) -> HandshakeEvent {
    HandshakeEvent::Received(Message { tag, body: body.to_vec() })
}

fn authentication(code: i32) -> HandshakeEvent {
    received(b'R', &code.to_be_bytes())
}

#[test]
fn startup_message_has_version_and_parameters() {
    let bytes = send_startup("smgadmin", "memeoff").unwrap();
    let mut expected = vec![0, 0, 0, 40, 0, 3, 0, 0];
    expected.extend_from_slice(b"user\0smgadmin\0database\0memeoff\0\0");
    assert_eq!(bytes, expected);
    assert_eq!(bytes.len(), 40);
}

#[test]
fn startup_message_of_empty_names() {
    let bytes = send_startup("", "").unwrap();
    let mut expected = vec![0, 0, 0, 25, 0, 3, 0, 0];
    expected.extend_from_slice(b"user\0\0database\0\0\0");
    assert_eq!(bytes, expected);
}

#[test]
fn startup_message_counts_bytes_not_characters() {
    let bytes = send_startup("é", "db").unwrap();
    assert_eq!(&bytes[..4], &[0, 0, 0, 29]);
    assert_eq!(bytes.len(), 29);
}

#[test]
fn password_message_is_tagged_and_terminated() {
    let bytes = send_password("admin").unwrap();
    assert_eq!(bytes, b"p\x00\x00\x00\x0aadmin\x00".to_vec());
    let message = decode(&bytes).unwrap();
    assert_eq!(message.tag, b'p');
    assert_eq!(message.body, b"admin\0".to_vec());
    assert_eq!(send_password("").unwrap(), b"p\x00\x00\x00\x05\x00".to_vec());
}

#[test]
fn authentication_request_must_ask_for_a_cleartext_password() {
    let ok = Message { tag: b'R', body: vec![0, 0, 0, 3] };
    assert_eq!(read_authentication_method(&ok), Ok(()));
    for code in [0i32, 1, 2, 5, 10, -1, i32::MAX] {
        let other = Message { tag: b'R', body: code.to_be_bytes().to_vec() };
        assert_eq!(
            read_authentication_method(&other),
            Err(ProtocolError::UnsupportedAuthentication)
        );
    }
    let md5 = Message { tag: b'R', body: vec![0, 0, 0, 5, 1, 2, 3, 4] };
    assert_eq!(read_authentication_method(&md5), Err(ProtocolError::WrongLength));
    let short = Message { tag: b'R', body: vec![0, 0, 3] };
    assert_eq!(read_authentication_method(&short), Err(ProtocolError::WrongLength));
    let error = Message { tag: b'E', body: vec![0, 0, 0, 3] };
    assert_eq!(read_authentication_method(&error), Err(ProtocolError::UnexpectedTag));
}

#[test]
fn authentication_result_must_be_ok() {
    let ok = Message { tag: b'R', body: vec![0, 0, 0, 0] };
    assert_eq!(read_authentication_response(&ok), Ok(()));
    for code in [1i32, 3, 5, -1, 256] {
        let other = Message { tag: b'R', body: code.to_be_bytes().to_vec() };
        assert_eq!(
            read_authentication_response(&other),
            Err(ProtocolError::AuthenticationRejected)
        );
    }
    let long = Message { tag: b'R', body: vec![0, 0, 0, 0, 0] };
    assert_eq!(read_authentication_response(&long), Err(ProtocolError::WrongLength));
    let error = Message { tag: b'E', body: vec![0, 0, 0, 0] };
    assert_eq!(read_authentication_response(&error), Err(ProtocolError::UnexpectedTag));
}

#[test]
fn parameters_are_passed_over_until_ready() {
    assert_eq!(read_parameters(&Message { tag: b'S', body: b"a\0b\0".to_vec() }), Ok(false));
    assert_eq!(read_parameters(&Message { tag: b'K', body: vec![0; 8] }), Ok(false));
    assert_eq!(read_parameters(&Message { tag: b'Z', body: b"I".to_vec() }), Ok(true));
    assert_eq!(read_parameters(&Message { tag: b'Z', body: b"T".to_vec() }), Ok(true));
    for tag in [b'E', b'R', b'T', b'N', 0u8] {
        assert_eq!(
            read_parameters(&Message { tag, body: vec![] }),
            Err(ProtocolError::UnexpectedTag)
        );
    }
}

#[test]
fn handshake_runs_through_its_states() {
    let p = parameters();
    let (state, action) = handshake_step(HandshakeState::Connecting, &p, &HandshakeEvent::Connected);
    assert_eq!(state, HandshakeState::StartupSent);
    assert_eq!(action, HandshakeAction::Send(send_startup("smgadmin", "memeoff").unwrap()));
    let (state, action) = handshake_step(state, &p, &HandshakeEvent::Sent);
    assert_eq!(state, HandshakeState::AwaitingAuthRequest);
    assert_eq!(action, HandshakeAction::Receive);
    let (state, action) = handshake_step(state, &p, &authentication(3));
    assert_eq!(state, HandshakeState::PasswordSent);
    assert_eq!(action, HandshakeAction::Send(b"p\x00\x00\x00\x0aadmin\x00".to_vec()));
    let (state, action) = handshake_step(state, &p, &HandshakeEvent::Sent);
    assert_eq!(state, HandshakeState::AwaitingAuthResult);
    assert_eq!(action, HandshakeAction::Receive);
    let (state, action) = handshake_step(state, &p, &authentication(0));
    assert_eq!(state, HandshakeState::AwaitingBackendParams);
    assert_eq!(action, HandshakeAction::Receive);
    let (state, action) = handshake_step(state, &p, &received(b'S', b"server_version\x0016\0"));
    assert_eq!(state, HandshakeState::AwaitingBackendParams);
    assert_eq!(action, HandshakeAction::Receive);
    let (state, action) = handshake_step(state, &p, &received(b'K', &[0, 0, 1, 2, 3, 4, 5, 6]));
    assert_eq!(state, HandshakeState::AwaitingBackendParams);
    assert_eq!(action, HandshakeAction::Receive);
    let (state, action) = handshake_step(state, &p, &received(b'Z', b"I"));
    assert_eq!(state, HandshakeState::Ready);
    assert_eq!(action, HandshakeAction::Finish);
}

#[test]
fn handshake_rejects_any_method_but_cleartext() {
    let p = parameters();
    for code in [0i32, 1, 2, 4, 5, 7, 10, -3] {
        let (state, action) =
            handshake_step(HandshakeState::AwaitingAuthRequest, &p, &authentication(code));
        assert_eq!(state, HandshakeState::Failed);
        assert_eq!(action, HandshakeAction::Abort(ProtocolError::UnsupportedAuthentication));
    }
}

#[test]
fn handshake_rejects_any_result_but_ok() {
    let p = parameters();
    for code in [1i32, 2, 3, 5, -1] {
        let (state, action) =
            handshake_step(HandshakeState::AwaitingAuthResult, &p, &authentication(code));
        assert_eq!(state, HandshakeState::Failed);
        assert_eq!(action, HandshakeAction::Abort(ProtocolError::AuthenticationRejected));
    }
}

#[test]
fn failed_handshake_goes_no_further() {
    let p = parameters();
    for event in [HandshakeEvent::Connected, HandshakeEvent::Sent, authentication(0)] {
        let (state, action) = handshake_step(HandshakeState::Failed, &p, &event);
        assert_eq!(state, HandshakeState::Failed);
        assert_eq!(action, HandshakeAction::Abort(ProtocolError::OutOfOrder));
    }
}

#[test]
fn handshake_fails_on_an_event_out_of_order() {
    let p = parameters();
    let (state, action) = handshake_step(HandshakeState::Connecting, &p, &HandshakeEvent::Sent);
    assert_eq!(state, HandshakeState::Failed);
    assert_eq!(action, HandshakeAction::Abort(ProtocolError::OutOfOrder));
    let (state, action) =
        handshake_step(HandshakeState::StartupSent, &p, &authentication(3));
    assert_eq!(state, HandshakeState::Failed);
    assert_eq!(action, HandshakeAction::Abort(ProtocolError::OutOfOrder));
    let (state, _) = handshake_step(HandshakeState::Ready, &p, &HandshakeEvent::Connected);
    assert_eq!(state, HandshakeState::Failed);
}

#[test]
fn handshake_fails_on_a_foreign_tag_among_the_parameters() {
    let p = parameters();
    let (state, action) =
        handshake_step(HandshakeState::AwaitingBackendParams, &p, &received(b'E', b"x"));
    assert_eq!(state, HandshakeState::Failed);
    assert_eq!(action, HandshakeAction::Abort(ProtocolError::UnexpectedTag));
}

#[test]
fn text_too_long_for_one_message_is_refused() {
    let long = String::from_utf8(vec![b'a'; 0x7fff_fffb]).unwrap();
    assert_eq!(send_password(&long).unwrap_err(), ProtocolError::MessageTooLong);
    assert_eq!(send_startup(&long, "db").unwrap_err(), ProtocolError::MessageTooLong);
    assert_eq!(send_startup("user", &long).unwrap_err(), ProtocolError::MessageTooLong);
    assert_eq!(webserver::query::send_query(&long).unwrap_err(), ProtocolError::MessageTooLong);
    let p = ConnectionParameters {
        host: "127.0.0.1".to_string(),
        port: 5432,
        user: long,
        password: "admin".to_string(),
        database: "memeoff".to_string(),
    };
    let (state, action) = handshake_step(HandshakeState::Connecting, &p, &HandshakeEvent::Connected);
    assert_eq!(state, HandshakeState::Failed);
    assert_eq!(action, HandshakeAction::Abort(ProtocolError::MessageTooLong));
}
