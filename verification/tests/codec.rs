use chat_application::codec::decode;
use chat_application::codec::encode;
use chat_application::codec::Message;

fn bv(s: &str) -> Vec<u8> {
    s.as_bytes().to_vec()
}

#[test]
fn chat_exact_wire_form() {
    let payload = encode(&Message::Chat { text: bv("hi") });
    assert_eq!(payload, vec![1u8, 104, 105]);
}

#[test]
fn presence_exact_wire_form() {
    let arrival = encode(&Message::Presence { name: bv("alice"), joining: true });
    assert_eq!(arrival, vec![2u8, 1, 97, 108, 105, 99, 101]);
    let departure = encode(&Message::Presence { name: bv("alice"), joining: false });
    assert_eq!(departure, vec![2u8, 0, 97, 108, 105, 99, 101]);
}

#[test]
fn introduction_exact_wire_form() {
    let payload = encode(&Message::Introduction { name: bv("bob"), receiver: bv("id") });
    assert_eq!(
        payload,
        vec![3u8, 3, 0, 0, 0, 0, 0, 0, 0, 98, 111, 98, 105, 100]
    );
}

#[test]
fn chat_round_trip() {
    let m = Message::Chat { text: bv("hello everyone") };
    let payload = encode(&m);
    assert_eq!(decode(&payload), Some(m));
}

#[test]
fn presence_round_trip() {
    for joining in [true, false] {
        let m = Message::Presence { name: bv("alice"), joining };
        let payload = encode(&m);
        assert_eq!(decode(&payload), Some(m));
    }
}

#[test]
fn introduction_round_trip() {
    let m = Message::Introduction { name: bv("bob"), receiver: bv("peer-17") };
    let payload = encode(&m);
    assert_eq!(decode(&payload), Some(m));
}

#[test]
fn empty_fields_round_trip() {
    for m in [
        Message::Chat { text: bv("") },
        Message::Presence { name: bv(""), joining: true },
        Message::Introduction { name: bv(""), receiver: bv("") },
    ] {
        let payload = encode(&m);
        assert_eq!(decode(&payload), Some(m));
    }
}

#[test]
fn empty_payload_is_rejected() {
    assert_eq!(decode(&Vec::new()), None);
}

#[test]
fn unknown_tag_is_rejected() {
    assert_eq!(decode(&vec![9u8, 104, 105]), None);
    assert_eq!(decode(&vec![0u8]), None);
}

#[test]
fn presence_with_bad_flag_is_rejected() {
    assert_eq!(decode(&vec![2u8, 7, 97]), None);
    assert_eq!(decode(&vec![2u8]), None);
}

#[test]
fn introduction_with_bad_length_is_rejected() {
    // Too short to hold the length prefix.
    assert_eq!(decode(&vec![3u8, 1, 0, 0]), None);
    // Length prefix larger than what follows it.
    assert_eq!(decode(&vec![3u8, 4, 0, 0, 0, 0, 0, 0, 0, 98]), None);
}
