use login_codec::error::ProtocolError;
use login_codec::messages::login::{LoginRequest, LoginResponse};
use login_codec::messages::message::{MessageTag, Msg, Recv, RecvState};
use login_codec::messages::Serialize;

const ABC_HASH: &[u8; 32] = b"900150983cd24fb0d6963f7d28e17f72";

fn inbound(tag_code: u32, body: &[u8]) -> Vec<u8> {
    let mut stream = Vec::new();
    stream.extend_from_slice(&(body.len() as u32 + 4).to_le_bytes());
    stream.extend_from_slice(&tag_code.to_le_bytes());
    stream.extend_from_slice(body);
    stream
}

fn receive(stream: &[u8]) -> Result<(Msg<LoginResponse>, usize), ProtocolError> {
    let mut state = RecvState::new();
    let mut at = 0usize;
    loop {
        let want = state.wanted();
        let end = (at + want).min(stream.len());
        let step: Recv<LoginResponse> = Msg::recv(state, &stream[at..end])?;
        at = end;
        match step {
            Recv::More(next) => state = next,
            Recv::Done(msg) => return Ok((msg, at)),
        }
    }
}

#[test]
fn login_message() {
    let login = LoginRequest::new("random", "random123");
    let written = Msg::send(login);
    assert_eq!(written.len(), 75);
    assert_eq!(&written[0..4], &[75, 0, 0, 0]);

    let mut body = vec![1u8, 127, 0, 0, 1];
    body.extend_from_slice(ABC_HASH);
    body.push(0);
    let stream = inbound(1, &body);
    let (message, consumed) = receive(&stream).unwrap();
    assert_eq!(consumed, stream.len());
    assert_eq!(message.tag(), MessageTag::Login);
    match message.into_message() {
        LoginResponse::Success { ip, hash, supporter } => {
            assert_eq!(ip, [127, 0, 0, 1]);
            assert_eq!(hash, ABC_HASH.to_vec());
            assert!(!supporter);
        }
        other => panic!("{:?}", other),
    }
}

#[test]
fn tag_from_known_code() {
    assert_eq!(MessageTag::from(1), Ok(MessageTag::Login));
    assert_eq!(MessageTag::Login.code(), 1);
}

#[test]
fn tag_from_unknown_code() {
    for code in [0u32, 2, 3, 160, 256, u32::MAX] {
        assert_eq!(MessageTag::from(code), Err(ProtocolError::UnknownTag));
    }
}

#[test]
fn tag_is_found_again_under_its_code() {
    let tag = MessageTag::Login;
    assert_eq!(MessageTag::from(tag.code()), Ok(tag));
}

#[test]
fn send_writes_the_payload_as_it_encodes_itself() {
    let expected = LoginRequest::new("user", "pass").encode();
    let written = Msg::send(LoginRequest::new("user", "pass"));
    assert_eq!(written, expected);
    assert_eq!(&written[32..64], b"63e780c3f321d13109c71bf81805476e");
}

#[test]
fn reception_starts_with_the_length_field() {
    let state = RecvState::new();
    assert_eq!(state, RecvState::Length);
    assert_eq!(state.wanted(), 4);
}

#[test]
fn each_state_wants_its_own_number_of_bytes() {
    assert_eq!(RecvState::Tag { body_len: 99 }.wanted(), 4);
    assert_eq!(
        RecvState::Body { tag: MessageTag::Login, body_len: 99 }.wanted(),
        99
    );
    assert_eq!(
        RecvState::Body { tag: MessageTag::Login, body_len: 0 }.wanted(),
        0
    );
}

#[test]
fn length_field_counts_the_tag() {
    let step: Recv<LoginResponse> = Msg::recv(RecvState::Length, &[42, 1, 0, 0]).unwrap();
    assert!(matches!(step, Recv::More(RecvState::Tag { body_len: 294 })));
    let step: Recv<LoginResponse> = Msg::recv(RecvState::Length, &[4, 0, 0, 0]).unwrap();
    assert!(matches!(step, Recv::More(RecvState::Tag { body_len: 0 })));
    let step: Recv<LoginResponse> =
        Msg::recv(RecvState::Length, &[255, 255, 255, 255]).unwrap();
    assert!(matches!(
        step,
        Recv::More(RecvState::Tag { body_len: 4_294_967_291 })
    ));
}

#[test]
fn length_that_does_not_cover_the_tag_is_truncated() {
    for length in 0..4u8 {
        let r: Result<Recv<LoginResponse>, ProtocolError> =
            Msg::recv(RecvState::Length, &[length, 0, 0, 0]);
        assert_eq!(r.unwrap_err(), ProtocolError::Truncated);
    }
}

#[test]
fn tag_field_is_resolved() {
    let step: Recv<LoginResponse> =
        Msg::recv(RecvState::Tag { body_len: 17 }, &[1, 0, 0, 0]).unwrap();
    assert!(matches!(
        step,
        Recv::More(RecvState::Body { tag: MessageTag::Login, body_len: 17 })
    ));
}

#[test]
fn unknown_tag_is_refused() {
    for code in [[0u8, 0, 0, 0], [2, 0, 0, 0], [1, 1, 0, 0], [1, 0, 0, 1]] {
        let r: Result<Recv<LoginResponse>, ProtocolError> =
            Msg::recv(RecvState::Tag { body_len: 17 }, &code);
        assert_eq!(r.unwrap_err(), ProtocolError::UnknownTag);
    }
    let stream = inbound(7, &[0, b'x']);
    assert_eq!(receive(&stream).unwrap_err(), ProtocolError::UnknownTag);
}

#[test]
fn short_read_is_truncated() {
    let states = [
        RecvState::Length,
        RecvState::Tag { body_len: 2 },
        RecvState::Body { tag: MessageTag::Login, body_len: 4 },
    ];
    for state in states {
        for bytes in [&[][..], &[1][..], &[1, 0, 0][..], &[1, 0, 0, 0, 0][..]] {
            let r: Result<Recv<LoginResponse>, ProtocolError> = Msg::recv(state, bytes);
            assert_eq!(r.unwrap_err(), ProtocolError::Truncated);
        }
    }
    let mut stream = inbound(1, &[0, b'n', b'o']);
    stream.pop();
    assert_eq!(receive(&stream).unwrap_err(), ProtocolError::Truncated);
}

#[test]
fn body_is_decoded_as_the_payload() {
    let state = RecvState::Body { tag: MessageTag::Login, body_len: 3 };
    let step: Recv<LoginResponse> = Msg::recv(state, &[0, b'n', b'o']).unwrap();
    match step {
        Recv::Done(msg) => {
            assert_eq!(msg.tag(), MessageTag::Login);
            match msg.message() {
                LoginResponse::Fail { reason } => assert_eq!(reason, "no"),
                other => panic!("{:?}", other),
            }
        }
        other => panic!("{:?}", other),
    }
}

#[test]
fn decode_failure_is_passed_on() {
    let state = RecvState::Body { tag: MessageTag::Login, body_len: 2 };
    let r: Result<Recv<LoginResponse>, ProtocolError> = Msg::recv(state, &[1, 9]);
    assert_eq!(r.unwrap_err(), ProtocolError::InvalidFlag);
    let r: Result<Recv<LoginResponse>, ProtocolError> = Msg::recv(state, &[1, 1]);
    assert_eq!(r.unwrap_err(), ProtocolError::TooShort);
    let stream = inbound(1, &[]);
    assert_eq!(receive(&stream).unwrap_err(), ProtocolError::TooShort);
}

#[test]
fn deliver_wraps_a_value_and_passes_an_error_on() {
    let msg = Msg::deliver(
        MessageTag::Login,
        Ok(LoginResponse::Fail { reason: String::from("later") }),
    )
    .unwrap();
    assert_eq!(msg.tag(), MessageTag::Login);
    assert!(matches!(msg.message(), LoginResponse::Fail { reason } if reason == "later"));
    let r: Result<Msg<LoginResponse>, ProtocolError> =
        Msg::deliver(MessageTag::Login, Err(ProtocolError::InvalidFlag));
    assert_eq!(r.unwrap_err(), ProtocolError::InvalidFlag);
}

#[test]
fn refusal_received_through_the_envelope() {
    let mut body = vec![0u8];
    body.extend_from_slice(b"bad credentials");
    let stream = inbound(1, &body);
    let (message, consumed) = receive(&stream).unwrap();
    assert_eq!(consumed, 24);
    match message.into_message() {
        LoginResponse::Fail { reason } => assert_eq!(reason, "bad credentials"),
        other => panic!("{:?}", other),
    }
}
