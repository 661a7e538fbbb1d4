//! Identities: 32-byte public keys.

use vstd::prelude::*;

verus! {

/// Number of bytes in a public key.
pub const PUBKEY_LEN: usize = 32;

/// The identity of an account or of a program: the 32 bytes of its public key.
pub type Pubkey = [u8; 32];

/// Whether two keys name the same identity: all 32 bytes agree.
pub fn same_key(left: &Pubkey, right: &Pubkey) -> (same: bool)
    ensures
        same == (left@ == right@),
        same == (*left == *right),
{
    let mut i: usize = 0;
    while i < PUBKEY_LEN
        invariant
            i <= PUBKEY_LEN,
            forall|j: int| 0 <= j < i ==> left@[j] == right@[j],
        decreases PUBKEY_LEN - i,
    {
        if left[i] != right[i] {
            return false;
        }
        i = i + 1;
    }
    proof {
        assert(left@ =~= right@);
        assert(*left =~= *right);
    }
    true
}

/// Reads the key held by the 32 bytes of `src` at `offset`.
pub fn read_key(src: &[u8], offset: usize) -> (key: Pubkey)
    requires
        offset + PUBKEY_LEN <= src@.len(),
    ensures
        key@ == src@.subrange(offset as int, offset + PUBKEY_LEN),
{
    let mut key: Pubkey = [0u8; 32];
    let mut i: usize = 0;
    while i < PUBKEY_LEN
        invariant
            i <= PUBKEY_LEN,
            offset + PUBKEY_LEN <= src.len(),
            forall|j: int| 0 <= j < i ==> key@[j] == src@[offset + j],
        decreases PUBKEY_LEN - i,
    {
        key[i] = src[offset + i];
        i = i + 1;
    }
    proof {
        assert(key@ =~= src@.subrange(offset as int, offset + PUBKEY_LEN));
    }
    key
}

/// Writes `key` into the 32 bytes of `dst` at `offset`, and nothing else.
pub fn write_key(dst: &mut [u8], offset: usize, key: &Pubkey)
    requires
        offset + PUBKEY_LEN <= old(dst)@.len(),
    ensures
        final(dst)@.len() == old(dst)@.len(),
        final(dst)@ == old(dst)@.subrange(0, offset as int) + key@ + old(dst)@.subrange(
            offset + PUBKEY_LEN,
            old(dst)@.len() as int,
        ),
{
    let mut i: usize = 0;
    while i < PUBKEY_LEN
        invariant
            i <= PUBKEY_LEN,
            offset + PUBKEY_LEN <= dst.len(),
            dst@.len() == old(dst)@.len(),
            forall|j: int| 0 <= j < i ==> dst@[offset + j] == key@[j],
            forall|j: int|
                0 <= j < dst@.len() && !(offset <= j < offset + i) ==> dst@[j] == old(dst)@[j],
        decreases PUBKEY_LEN - i,
    {
        dst[offset + i] = key[i];
        i = i + 1;
    }
    proof {
        assert(dst@ =~= old(dst)@.subrange(0, offset as int) + key@ + old(dst)@.subrange(
            offset + PUBKEY_LEN,
            old(dst)@.len() as int,
        ));
    }
}

} // verus!
