use flapit_server::codec::{DecodeError, Deserialize, Message, Serialize};

#[test]
fn round_trip_echo() {
    let b = Message::Echo.encode();
    assert_eq!(b, vec![0, 0, 0, 4, 0, 0, 0, 4]);
    let (m, n) = Message::decode(&b).unwrap();
    assert_eq!(m, Message::Echo);
    assert_eq!(n, 8);
}

#[test]
fn encode_okay() {
    assert_eq!(Message::Okay.encode(), vec![0, 0, 0, 4, 0, 0, 0, 1]);
}

#[test]
fn encode_never_sent_is_empty() {
    assert!(Message::Authenticate.encode().is_empty());
    assert!(Message::Idle.encode().is_empty());
    let m = Message::AuthAssociate("a".to_string(), "b".to_string(), "c".to_string());
    assert!(m.encode().is_empty());
}

#[test]
fn serialize_trait_matches_encode() {
    assert_eq!(Message::Echo.serialize(), Message::Echo.encode());
}

#[test]
fn decode_auth_associate() {
    let mut b: Vec<u8> = vec![0, 0, 0, 22, 0, 0, 0, 5];
    b.extend_from_slice(&[0, 0, 0, 2, b'S', b'N']);
    b.extend_from_slice(&[0, 0, 0, 1, b'M']);
    b.extend_from_slice(&[0, 0, 0, 3, b'v', b'1', b'0']);
    let (m, n) = Message::decode(&b).unwrap();
    assert_eq!(n, 26);
    assert_eq!(
        m,
        Message::AuthAssociate("SN".to_string(), "M".to_string(), "v10".to_string())
    );
}

#[test]
fn decode_auth_associate_missing_args_are_empty() {
    let b: Vec<u8> = vec![0, 0, 0, 4, 0, 0, 0, 5];
    let (m, n) = Message::decode(&b).unwrap();
    assert_eq!(n, 8);
    assert_eq!(
        m,
        Message::AuthAssociate(String::new(), String::new(), String::new())
    );
}

#[test]
fn decode_idle() {
    let b: Vec<u8> = vec![0, 0, 0, 4, 0, 0, 0, 6];
    let (m, _) = Message::decode(&b).unwrap();
    assert_eq!(m, Message::Idle);
}

#[test]
fn decode_unknown_type() {
    let b: Vec<u8> = vec![0, 0, 0, 4, 0, 0, 0, 9];
    assert_eq!(Message::decode(&b), Err(DecodeError::UnknownType));
}

#[test]
fn decode_short_header() {
    let b: Vec<u8> = vec![0, 0, 0];
    assert_eq!(Message::decode(&b), Err(DecodeError::ShortRead));
}

#[test]
fn decode_truncated_argument() {
    let b: Vec<u8> = vec![0, 0, 0, 22, 0, 0, 0, 5, 0, 0, 0, 10, b'A'];
    assert_eq!(Message::decode(&b), Err(DecodeError::ShortRead));
}

#[test]
fn decode_invalid_utf8_argument() {
    let b: Vec<u8> = vec![0, 0, 0, 9, 0, 0, 0, 5, 0, 0, 0, 1, 0xFF];
    assert_eq!(Message::decode(&b), Err(DecodeError::InvalidText));
}

#[test]
fn deserialize_trait_matches_decode() {
    let b: Vec<u8> = vec![0, 0, 0, 4, 0, 0, 0, 6];
    let (m, n) = <Message as Deserialize>::deserialize(&b).unwrap();
    assert_eq!(m, Message::Idle);
    assert_eq!(n, 8);
}
