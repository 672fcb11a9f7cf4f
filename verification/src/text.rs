//! The fixed fragments of the console lines the engine produces, as
//! UTF-8 bytes, each with a spec-level constant and a verified builder.

use vstd::prelude::*;

verus! {

/// The bytes of `": "`: the separator between a display name and a chat line.
pub open spec fn spec_separator() -> Seq<u8> {
    seq![58u8, 32u8]
}

/// Build the bytes of `": "`.
pub fn separator() -> (r: Vec<u8>)
    ensures
        r@ == spec_separator(),
{
    let mut r: Vec<u8> = Vec::new();
    r.push(58);
    r.push(32);
    proof {
        assert(r@ =~= spec_separator());
    }
    r
}

/// The bytes of `"Unknown"`: the name shown for a peer with no presence entry.
pub open spec fn spec_unknown_name() -> Seq<u8> {
    seq![85u8, 110u8, 107u8, 110u8, 111u8, 119u8, 110u8]
}

/// Build the bytes of `"Unknown"`.
pub fn unknown_name() -> (r: Vec<u8>)
    ensures
        r@ == spec_unknown_name(),
{
    let mut r: Vec<u8> = Vec::new();
    r.push(85);
    r.push(110);
    r.push(107);
    r.push(110);
    r.push(111);
    r.push(119);
    r.push(110);
    proof {
        assert(r@ =~= spec_unknown_name());
    }
    r
}

/// The bytes of `" has joined the chat"`: the arrival line suffix.
pub open spec fn spec_joined_suffix() -> Seq<u8> {
    seq![32u8, 104u8, 97u8, 115u8, 32u8, 106u8, 111u8, 105u8, 110u8, 101u8, 100u8, 32u8, 116u8, 104u8, 101u8, 32u8, 99u8, 104u8, 97u8, 116u8]
}

/// Build the bytes of `" has joined the chat"`.
pub fn joined_suffix() -> (r: Vec<u8>)
    ensures
        r@ == spec_joined_suffix(),
{
    let mut r: Vec<u8> = Vec::new();
    r.push(32);
    r.push(104);
    r.push(97);
    r.push(115);
    r.push(32);
    r.push(106);
    r.push(111);
    r.push(105);
    r.push(110);
    r.push(101);
    r.push(100);
    r.push(32);
    r.push(116);
    r.push(104);
    r.push(101);
    r.push(32);
    r.push(99);
    r.push(104);
    r.push(97);
    r.push(116);
    proof {
        assert(r@ =~= spec_joined_suffix());
    }
    r
}

/// The bytes of `" has left the chat"`: the departure line suffix.
pub open spec fn spec_left_suffix() -> Seq<u8> {
    seq![32u8, 104u8, 97u8, 115u8, 32u8, 108u8, 101u8, 102u8, 116u8, 32u8, 116u8, 104u8, 101u8, 32u8, 99u8, 104u8, 97u8, 116u8]
}

/// Build the bytes of `" has left the chat"`.
pub fn left_suffix() -> (r: Vec<u8>)
    ensures
        r@ == spec_left_suffix(),
{
    let mut r: Vec<u8> = Vec::new();
    r.push(32);
    r.push(104);
    r.push(97);
    r.push(115);
    r.push(32);
    r.push(108);
    r.push(101);
    r.push(102);
    r.push(116);
    r.push(32);
    r.push(116);
    r.push(104);
    r.push(101);
    r.push(32);
    r.push(99);
    r.push(104);
    r.push(97);
    r.push(116);
    proof {
        assert(r@ =~= spec_left_suffix());
    }
    r
}

/// The bytes of `" is in chat room"`: the introduction line suffix.
pub open spec fn spec_in_room_suffix() -> Seq<u8> {
    seq![32u8, 105u8, 115u8, 32u8, 105u8, 110u8, 32u8, 99u8, 104u8, 97u8, 116u8, 32u8, 114u8, 111u8, 111u8, 109u8]
}

/// Build the bytes of `" is in chat room"`.
pub fn in_room_suffix() -> (r: Vec<u8>)
    ensures
        r@ == spec_in_room_suffix(),
{
    let mut r: Vec<u8> = Vec::new();
    r.push(32);
    r.push(105);
    r.push(115);
    r.push(32);
    r.push(105);
    r.push(110);
    r.push(32);
    r.push(99);
    r.push(104);
    r.push(97);
    r.push(116);
    r.push(32);
    r.push(114);
    r.push(111);
    r.push(111);
    r.push(109);
    proof {
        assert(r@ =~= spec_in_room_suffix());
    }
    r
}

} // verus!
