//! The message codec: the three protocol message kinds and their wire form.
//!
//! A payload is a tag byte followed by the fields of the message. The tag
//! determines the variant, so decoding never depends on a priority order
//! among the schemas; a payload that fits none of the three forms is a
//! parse failure, which callers treat as "ignore silently".

use vstd::bytes::lemma_auto_spec_u64_to_from_le_bytes;
use vstd::bytes::spec_u64_from_le_bytes;
use vstd::bytes::spec_u64_to_le_bytes;
use vstd::bytes::u64_from_le_bytes;
use vstd::bytes::u64_to_le_bytes;
use vstd::prelude::*;

use crate::util::bytes_range;
use crate::util::push_all;

verus! {

/// Wire tag of a chat line.
pub const CHAT_TAG: u8 = 1;

/// Wire tag of a presence announcement.
pub const PRESENCE_TAG: u8 = 2;

/// Wire tag of an introduction (the directed reply of the join handshake).
pub const INTRODUCTION_TAG: u8 = 3;

/// A protocol message. Text fields are UTF-8 bytes; peer identifiers are
/// opaque byte strings.
#[derive(Debug, PartialEq, Eq)]
pub enum Message {
    /// A line of chat content.
    Chat { text: Vec<u8> },
    /// Announces arrival (`joining == true`) or departure (`joining == false`).
    Presence { name: Vec<u8>, joining: bool },
    /// A reply to a `Presence` arrival, broadcast to everyone but addressed
    /// to `receiver`, who alone acts on it.
    Introduction { name: Vec<u8>, receiver: Vec<u8> },
}

/// The mathematical model of a `Message`.
#[verifier::ext_equal]
pub enum MessageView {
    Chat { text: Seq<u8> },
    Presence { name: Seq<u8>, joining: bool },
    Introduction { name: Seq<u8>, receiver: Seq<u8> },
}

impl View for Message {
    type V = MessageView;

    open spec fn view(&self) -> MessageView {
        match self {
            Message::Chat { text } => MessageView::Chat { text: text@ },
            Message::Presence { name, joining } => MessageView::Presence {
                name: name@,
                joining: *joining,
            },
            Message::Introduction { name, receiver } => MessageView::Introduction {
                name: name@,
                receiver: receiver@,
            },
        }
    }
}

impl MessageView {
    /// A message whose fields fit the wire form: the one length prefix in
    /// the encoding is 64 bits wide. Every in-memory `Message` satisfies
    /// this, since a vector's length fits in a machine word.
    pub open spec fn wf(self) -> bool {
        match self {
            MessageView::Chat { .. } => true,
            MessageView::Presence { .. } => true,
            MessageView::Introduction { name, .. } => name.len() <= u64::MAX,
        }
    }
}

/// The wire form of a message: the tag byte, then the fields. Only
/// `Introduction` carries two variable-length fields, so only its first
/// field needs a length prefix (eight bytes, little endian); every other
/// variable-length field extends to the end of the payload.
pub open spec fn spec_encode(m: MessageView) -> Seq<u8> {
    match m {
        MessageView::Chat { text } => seq![CHAT_TAG] + text,
        MessageView::Presence { name, joining } => seq![
            PRESENCE_TAG,
            (if joining {
                1u8
            } else {
                0u8
            }),
        ] + name,
        MessageView::Introduction { name, receiver } => seq![INTRODUCTION_TAG]
            + spec_u64_to_le_bytes(name.len() as u64) + name + receiver,
    }
}

/// The unique message a payload stands for, or `None` when the payload
/// fits none of the three schemas.
pub open spec fn spec_decode(s: Seq<u8>) -> Option<MessageView> {
    if s.len() == 0 {
        None
    } else if s[0] == CHAT_TAG {
        Some(MessageView::Chat { text: s.subrange(1, s.len() as int) })
    } else if s[0] == PRESENCE_TAG {
        if s.len() >= 2 && (s[1] == 0u8 || s[1] == 1u8) {
            Some(
                MessageView::Presence {
                    name: s.subrange(2, s.len() as int),
                    joining: s[1] == 1u8,
                },
            )
        } else {
            None
        }
    } else if s[0] == INTRODUCTION_TAG {
        if s.len() >= 9 && spec_u64_from_le_bytes(s.subrange(1, 9)) <= s.len() - 9 {
            let n = spec_u64_from_le_bytes(s.subrange(1, 9)) as int;
            Some(
                MessageView::Introduction {
                    name: s.subrange(9, 9 + n),
                    receiver: s.subrange(9 + n, s.len() as int),
                },
            )
        } else {
            None
        }
    } else {
        None
    }
}

/// Encode a message into its wire payload. Never fails for an in-memory
/// message.
pub fn encode(m: &Message) -> (r: Vec<u8>)
    ensures
        r@ == spec_encode(m@),
{
    match m {
        Message::Chat { text } => {
            let mut r: Vec<u8> = Vec::new();
            r.push(CHAT_TAG);
            push_all(&mut r, text);
            proof {
                assert(r@ =~= spec_encode(m@));
            }
            r
        },
        Message::Presence { name, joining } => {
            let mut r: Vec<u8> = Vec::new();
            r.push(PRESENCE_TAG);
            r.push(if *joining { 1u8 } else { 0u8 });
            push_all(&mut r, name);
            proof {
                assert(r@ =~= spec_encode(m@));
            }
            r
        },
        Message::Introduction { name, receiver } => {
            let mut r: Vec<u8> = Vec::new();
            r.push(INTRODUCTION_TAG);
            let len_bytes = u64_to_le_bytes(name.len() as u64);
            push_all(&mut r, &len_bytes);
            push_all(&mut r, name);
            push_all(&mut r, receiver);
            proof {
                assert(r@ =~= spec_encode(m@));
            }
            r
        },
    }
}

/// Decode a wire payload. Returns `None` exactly when the payload fits
/// none of the three schemas.
pub fn decode(payload: &Vec<u8>) -> (r: Option<Message>)
    ensures
        match r {
            Some(m) => spec_decode(payload@) == Some(m@),
            None => spec_decode(payload@) is None,
        },
{
    if payload.len() == 0 {
        return None;
    }
    let tag = payload[0];
    if tag == CHAT_TAG {
        let text = bytes_range(payload, 1, payload.len());
        Some(Message::Chat { text })
    } else if tag == PRESENCE_TAG {
        if payload.len() < 2 {
            return None;
        }
        let j = payload[1];
        if j > 1 {
            return None;
        }
        let name = bytes_range(payload, 2, payload.len());
        Some(Message::Presence { name, joining: j == 1 })
    } else if tag == INTRODUCTION_TAG {
        if payload.len() < 9 {
            return None;
        }
        let len_field = bytes_range(payload, 1, 9);
        let n64 = u64_from_le_bytes(len_field.as_slice());
        let rest = payload.len() - 9;
        if n64 > rest as u64 {
            return None;
        }
        let n = n64 as usize;
        let name = bytes_range(payload, 9, 9 + n);
        let receiver = bytes_range(payload, 9 + n, payload.len());
        Some(Message::Introduction { name, receiver })
    } else {
        None
    }
}

/// Round trip: every well-formed message decodes from its own encoding,
/// so the three schemas can never be confused with one another.
pub proof fn lemma_decode_encode(m: MessageView)
    requires
        m.wf(),
    ensures
        spec_decode(spec_encode(m)) == Some(m),
{
    match m {
        MessageView::Chat { text } => {
            let s = spec_encode(m);
            assert(s.subrange(1, s.len() as int) =~= text);
        },
        MessageView::Presence { name, joining } => {
            let s = spec_encode(m);
            assert(s.subrange(2, s.len() as int) =~= name);
        },
        MessageView::Introduction { name, receiver } => {
            lemma_auto_spec_u64_to_from_le_bytes();
            let lb = spec_u64_to_le_bytes(name.len() as u64);
            let s = spec_encode(m);
            assert(s.len() == 9 + name.len() + receiver.len());
            assert(s.subrange(1, 9) =~= lb);
            assert(spec_u64_from_le_bytes(lb) == name.len() as u64);
            assert(s.subrange(9, 9 + name.len() as int) =~= name);
            assert(s.subrange(9 + name.len() as int, s.len() as int) =~= receiver);
        },
    }
}

} // verus!
