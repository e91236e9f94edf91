use cipher_relay::peer::PeerId;
use cipher_relay::wire::{
    decode_client_text, decode_server_text, decode_server_text_as, encode, find_colon,
    get_key_text, key_reply_text, second_field_of, set_key_text, starts_with, WireError,
    WireMessage,
};

fn chars(text: &str) -> Vec<char> {
    text.chars().collect()
}

#[test]
fn client_text_publishes_a_key() {
    assert_eq!(decode_client_text("set_public_key:21"), Ok(WireMessage::SetPublicKey(21)));
    assert_eq!(decode_client_text("set_public_key:0"), Ok(WireMessage::SetPublicKey(0)));
    assert_eq!(decode_client_text("set_public_key:65535"), Ok(WireMessage::SetPublicKey(65535)));
    assert_eq!(decode_client_text("set_public_key:+7"), Ok(WireMessage::SetPublicKey(7)));
}

#[test]
fn client_text_argument_is_the_second_field() {
    assert_eq!(decode_client_text("set_public_key:12:34"), Ok(WireMessage::SetPublicKey(12)));
    assert_eq!(decode_client_text("set_public_key:12:"), Ok(WireMessage::SetPublicKey(12)));
    assert_eq!(decode_client_text("set_public_key::12"), Err(WireError::MalformedArgument));
}

#[test]
fn client_text_with_a_malformed_argument_is_refused() {
    for text in [
        "set_public_key:",
        "set_public_key:abc",
        "set_public_key:65536",
        "set_public_key:-1",
        "set_public_key: 21",
        "set_public_key:21 ",
        "set_public_key:2 1",
        "set_public_key:٣",
    ] {
        assert_eq!(decode_client_text(text), Err(WireError::MalformedArgument), "{:?}", text);
    }
}

#[test]
fn client_text_asks_for_a_key() {
    assert_eq!(decode_client_text("get_public_key"), Ok(WireMessage::GetPublicKeyRequest));
    assert_eq!(decode_client_text("get_public_key:5"), Ok(WireMessage::GetPublicKeyRequest));
    assert_eq!(decode_client_text("get_public_keys"), Ok(WireMessage::GetPublicKeyRequest));
}

#[test]
fn client_text_is_chat_content_otherwise() {
    for text in ["", "hello", "vw", "Set_public_key:21", " set_public_key:21", "set_public_key", "get_public_ke", "a:b:c"] {
        assert_eq!(decode_client_text(text), Ok(WireMessage::Payload(text.to_string())), "{:?}", text);
    }
}

#[test]
fn server_text_announces_an_identity() {
    let id = PeerId(0x550e8400_e29b_41d4_a716_446655440000);
    assert_eq!(
        decode_server_text("550e8400-e29b-41d4-a716-446655440000"),
        Ok(WireMessage::PeerIdAnnounce(id))
    );
    assert_eq!(decode_server_text(&id.to_text()), Ok(WireMessage::PeerIdAnnounce(id)));
}

#[test]
fn server_text_delivers_a_key() {
    assert_eq!(decode_server_text("get_public_key:17"), Ok(WireMessage::GetPublicKeyResponse(17)));
    assert_eq!(decode_server_text("get_public_key:17:9"), Ok(WireMessage::GetPublicKeyResponse(17)));
    assert_eq!(decode_server_text("get_public_key:"), Err(WireError::MalformedArgument));
    assert_eq!(decode_server_text("get_public_key:x"), Err(WireError::MalformedArgument));
    assert_eq!(decode_server_text("get_public_key:70000"), Err(WireError::MalformedArgument));
}

#[test]
fn server_text_is_chat_content_otherwise() {
    for text in ["", "vw", "get_public_key", "set_public_key:21", "hello there"] {
        assert_eq!(decode_server_text(text), Ok(WireMessage::Payload(text.to_string())), "{:?}", text);
    }
}

#[test]
fn server_text_with_a_given_reading() {
    let id = PeerId(5);
    assert_eq!(decode_server_text_as("anything", Some(id)), Ok(WireMessage::PeerIdAnnounce(id)));
    assert_eq!(decode_server_text_as("get_public_key:3", Some(id)), Ok(WireMessage::PeerIdAnnounce(id)));
    assert_eq!(decode_server_text_as("get_public_key:3", None), Ok(WireMessage::GetPublicKeyResponse(3)));
    assert_eq!(decode_server_text_as("anything", None), Ok(WireMessage::Payload("anything".to_string())));
}

#[test]
fn encode_exact_values() {
    assert_eq!(encode(&WireMessage::SetPublicKey(21)), Some("set_public_key:21".to_string()));
    assert_eq!(encode(&WireMessage::GetPublicKeyRequest), Some("get_public_key".to_string()));
    assert_eq!(encode(&WireMessage::GetPublicKeyResponse(17)), Some("get_public_key:17".to_string()));
    assert_eq!(encode(&WireMessage::GetPublicKeyResponse(0)), Some("get_public_key:0".to_string()));
    assert_eq!(encode(&WireMessage::Payload("vw".to_string())), Some("vw".to_string()));
    assert_eq!(
        encode(&WireMessage::PeerIdAnnounce(PeerId(0x550e8400_e29b_41d4_a716_446655440000))),
        Some("550e8400-e29b-41d4-a716-446655440000".to_string())
    );
    assert_eq!(encode(&WireMessage::Close), None);
    assert_eq!(set_key_text(65535), "set_public_key:65535");
    assert_eq!(key_reply_text(100), "get_public_key:100");
    assert_eq!(get_key_text(), "get_public_key");
}

#[test]
fn frames_are_read_back_as_they_were_written() {
    for value in [0u16, 1, 9, 10, 21, 255, 1000, 65535] {
        let sent = WireMessage::SetPublicKey(value);
        assert_eq!(decode_client_text(&encode(&sent).unwrap()), Ok(sent));
        let sent = WireMessage::GetPublicKeyResponse(value);
        assert_eq!(decode_server_text(&encode(&sent).unwrap()), Ok(sent));
    }
    let sent = WireMessage::GetPublicKeyRequest;
    assert_eq!(decode_client_text(&encode(&sent).unwrap()), Ok(sent));
    let sent = WireMessage::Payload("Khoor, Zruog!".to_string());
    assert_eq!(decode_client_text(&encode(&sent).unwrap()), Ok(WireMessage::Payload("Khoor, Zruog!".to_string())));
    assert_eq!(decode_server_text(&encode(&sent).unwrap()), Ok(sent));
    let sent = WireMessage::PeerIdAnnounce(PeerId::generate());
    assert_eq!(decode_server_text(&encode(&sent).unwrap()), Ok(sent));
}

#[test]
fn prefix_test() {
    assert!(starts_with(&chars("set_public_key:1"), &chars("set_public_key:")));
    assert!(starts_with(&chars("abc"), &chars("")));
    assert!(starts_with(&chars("abc"), &chars("abc")));
    assert!(!starts_with(&chars("ab"), &chars("abc")));
    assert!(!starts_with(&chars("xbc"), &chars("abc")));
    assert!(!starts_with(&chars("abx"), &chars("abc")));
}

#[test]
fn colon_search() {
    assert_eq!(find_colon(&chars("a:b:c"), 0), 1);
    assert_eq!(find_colon(&chars("a:b:c"), 1), 1);
    assert_eq!(find_colon(&chars("a:b:c"), 2), 3);
    assert_eq!(find_colon(&chars("a:b:c"), 4), 5);
    assert_eq!(find_colon(&chars("a:b:c"), 5), 5);
    assert_eq!(find_colon(&chars(""), 0), 0);
}

#[test]
fn second_field_agrees_with_split() {
    for text in ["", "a", "a:", ":a", "a:b", "a:b:c", "::", "a::b", "é:ü:ö", "set_public_key:21"] {
        let expected: Option<Vec<char>> = text.split(':').nth(1).map(|field| field.chars().collect());
        assert_eq!(second_field_of(&chars(text)), expected, "{:?}", text);
    }
}
