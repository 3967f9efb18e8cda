//! The magic-and-key exchange that opens a tunnel.
//!
//! The client sends four magic bytes, then the big-endian length of
//! its key, then the key; the server checks all three and answers
//! with the magic alone, and the first protocol message either way is
//! one keep-alive.

use vstd::prelude::*;

use crate::packet::be32_bytes;
use crate::packet::push_u32_be;
use crate::packet::push_bytes;

verus! {

/// The four magic bytes both peers exchange.
pub open spec fn magic_seq() -> Seq<u8> {
    seq![82u8, 80u8, 70u8, 30u8]
}

/// The four magic bytes both peers exchange.
pub fn handshake_magic() -> (r: Vec<u8>)
    ensures
        r@ == magic_seq(),
{
    let mut out: Vec<u8> = Vec::new();
    out.push(82);
    out.push(80);
    out.push(70);
    out.push(30);
    proof {
        assert(out@ =~= magic_seq());
    }
    out
}

/// Whether two byte strings are the same.
pub fn bytes_equal(a: &[u8], b: &[u8]) -> (r: bool)
    ensures
        r == (a@ == b@),
{
    if a.len() != b.len() {
        proof {
            assert(a@ != b@);
        }
        return false;
    }
    let mut i: usize = 0;
    while i < a.len()
        invariant
            i <= a@.len(),
            a@.len() == b@.len(),
            forall|j: int| 0 <= j < i ==> a@[j] == b@[j],
        decreases a@.len() - i,
    {
        if a[i] != b[i] {
            return false;
        }
        i = i + 1;
    }
    proof {
        assert(a@ =~= b@);
    }
    true
}

/// Whether four received bytes are the magic.
pub fn is_magic(m: &[u8]) -> (r: bool)
    ensures
        r == (m@ == magic_seq()),
{
    let magic = handshake_magic();
    bytes_equal(m, magic.as_slice())
}

/// Everything the client sends to authenticate, in order: magic, key
/// length, key.
pub fn client_hello(key: &[u8]) -> (r: Vec<u8>)
    requires
        key@.len() <= u32::MAX,
    ensures
        r@ == magic_seq() + be32_bytes(key@.len() as u32) + key@,
{
    let mut out = handshake_magic();
    push_u32_be(&mut out, key.len() as u32);
    push_bytes(&mut out, key);
    out
}

/// The server's verdict on a client hello, piece by piece as it reads
/// them: the magic must match, the declared length must be the key's,
/// and the key bytes must equal the expected key exactly.
pub fn check_client_hello(magic: &[u8], key_len: u32, key: &[u8], expected: &[u8]) -> (r: bool)
    ensures
        r == (magic@ == magic_seq() && key_len == expected@.len() && key@ == expected@),
{
    if !is_magic(magic) {
        return false;
    }
    if !(key_len as usize == expected.len()) {
        return false;
    }
    bytes_equal(key, expected)
}

} // verus!
