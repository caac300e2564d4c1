//! What the worker reads out of a STUN message: the ICE username fragment
//! that tells it which session a new remote address belongs to.

use vstd::prelude::*;
use vstd::string::StrSliceExecFns;

verus! {

/// The length of a STUN message header.
pub const STUN_HEADER_LEN: usize = 20;

/// The number of bytes that pad an attribute value of `size` bytes to a
/// multiple of four.
pub open spec fn pad_size(size: int) -> int {
    if size % 4 == 0 {
        0
    } else {
        4 - size % 4
    }
}

/// The length that the attribute header at `offset` announces for its value.
pub open spec fn attr_size(buf: Seq<u8>, offset: int) -> int {
    buf[offset + 2] as int * 256 + buf[offset + 3] as int
}

/// Whether the attributes that start at `offset` can be walked to the end of
/// `buf`: every attribute whose value lies within the buffer has its padding
/// within the buffer too. The walk ends at the first attribute header or
/// value that the buffer cuts short.
pub open spec fn attrs_framed(buf: Seq<u8>, offset: int) -> bool
    decreases buf.len() - offset,
{
    if offset < 0 || offset > buf.len() {
        false
    } else if buf.len() - offset < 4 {
        true
    } else if buf.len() - (offset + 4) < attr_size(buf, offset) {
        true
    } else {
        let next = offset + 4 + attr_size(buf, offset) + pad_size(attr_size(buf, offset));
        next <= buf.len() && attrs_framed(buf, next)
    }
}

/// Whether `buf` is too short for a STUN header, or its attributes can be
/// walked to the end of the buffer.
pub open spec fn stun_framed(buf: Seq<u8>) -> bool {
    buf.len() < STUN_HEADER_LEN || attrs_framed(buf, STUN_HEADER_LEN as int)
}

/// Whether the attributes of the STUN message in `buf` can be walked to the
/// end of the buffer.
pub fn is_stun_framed(buf: &[u8]) -> (framed: bool)
    ensures
        framed == stun_framed(buf@),
{
    let len = buf.len();
    if len < STUN_HEADER_LEN {
        return true;
    }
    let mut offset: usize = STUN_HEADER_LEN;
    loop
        invariant
            len == buf@.len(),
            STUN_HEADER_LEN <= offset <= len,
            stun_framed(buf@) == attrs_framed(buf@, offset as int),
        decreases len - offset,
    {
        if len - offset < 4 {
            return true;
        }
        let size: usize = (buf[offset + 2] as usize) * 256 + (buf[offset + 3] as usize);
        let rest = len - (offset + 4);
        if rest < size {
            return true;
        }
        let pad: usize = if size % 4 == 0 {
            0
        } else {
            4 - size % 4
        };
        if rest - size < pad {
            return false;
        }
        offset = offset + 4 + size + pad;
    }
}

/// The value of the USERNAME attribute that `MessageReader::decode` and
/// `MessageReader::get` of faster-stun find in `buf`, if they find one.
pub uninterp spec fn decoded_username(buf: Seq<u8>) -> Option<Seq<char>>;

/// `MessageReader::decode` and `MessageReader::get::<UserName>`: the value of
/// the first USERNAME attribute of the STUN message in `buf`; nothing where
/// `buf` holds no STUN message, the message has no such attribute, or the
/// value is not UTF-8. The decoder walks the attributes without checking
/// that padding lies within the buffer, which `stun_framed` makes sure of.
#[verifier::external_body]
fn decode_username(buf: &[u8]) -> (name: Option<String>)
    requires
        stun_framed(buf@),
    ensures
        match name {
            Some(text) => decoded_username(buf@) == Some(text@),
            None => decoded_username(buf@) is None,
        },
{
    let mut attributes = Vec::new();
    let message = faster_stun::MessageReader::decode(buf, &mut attributes).ok()?;
    let name: &str = message.get::<faster_stun::attribute::UserName>()?;
    Some(name.to_string())
}

/// Whether the first colon of `text` stands at `n`, or `text` has no colon
/// and `n` is its length.
pub open spec fn is_ufrag_end(text: Seq<char>, n: int) -> bool {
    &&& 0 <= n <= text.len()
    &&& forall|j: int| 0 <= j < n ==> text[j] != ':'
    &&& n == text.len() || text[n] == ':'
}

/// The part of a STUN username that names the receiving side's ICE username
/// fragment: everything before the first colon.
pub open spec fn ufrag_of(username: Seq<char>) -> Seq<char> {
    username.take(choose|n: int| is_ufrag_end(username, n))
}

/// The part of `username` before its first colon.
pub fn username_ufrag(username: &str) -> (ufrag: String)
    ensures
        ufrag@ == ufrag_of(username@),
{
    let len = username.unicode_len();
    let mut n: usize = 0;
    while n < len && username.get_char(n) != ':'
        invariant
            len == username@.len(),
            n <= len,
            forall|j: int| 0 <= j < n ==> username@[j] != ':',
        decreases len - n,
    {
        n = n + 1;
    }
    proof {
        assert(is_ufrag_end(username@, n as int));
        let chosen = choose|m: int| is_ufrag_end(username@, m);
        if chosen < n {
            assert(username@[chosen] != ':');
        }
        if n < chosen {
            assert(username@[n as int] != ':');
        }
        assert(chosen == n);
    }
    username.substring_char(0, n).to_owned()
}

/// The ICE username fragment that the datagram `buf` is addressed to, where
/// `buf` is a STUN message that names one.
pub open spec fn stun_ufrag(buf: Seq<u8>) -> Option<Seq<char>> {
    if stun_framed(buf) {
        match decoded_username(buf) {
            Some(username) => Some(ufrag_of(username)),
            None => None,
        }
    } else {
        None
    }
}

/// The ICE username fragment that the datagram `buf` is addressed to: the
/// part before the first colon of the USERNAME attribute, where `buf` is a
/// STUN message that has one.
pub fn get_stun_username(buf: &[u8]) -> (ufrag: Option<String>)
    ensures
        match ufrag {
            Some(text) => stun_ufrag(buf@) == Some(text@),
            None => stun_ufrag(buf@) is None,
        },
{
    if !is_stun_framed(buf) {
        return None;
    }
    match decode_username(buf) {
        Some(username) => Some(username_ufrag(username.as_str())),
        None => None,
    }
}

} // verus!
