//! The stored record and its fixed 50-byte layout.
//!
//! | bytes  | field                                         |
//! |--------|-----------------------------------------------|
//! | 0      | initialised flag: zero is false, else true    |
//! | 1..33  | authority key                                 |
//! | 33..41 | model version, unsigned, little-endian        |
//! | 41..49 | last update, two's complement, little-endian  |
//! | 49     | padding, written as zero and never read       |

use crate::error::ProcessError;
use crate::little_endian::{
    from_twos_complement, le_bytes, le_value, lemma_le_bytes_len, lemma_le_value_of_le_bytes,
    lemma_span_eight, lemma_twos_complement_round_trip, read_i64_le, read_u64_le,
    twos_complement, write_i64_le, write_u64_le,
};
use crate::pubkey::{read_key, write_key, Pubkey};
use vstd::prelude::*;

verus! {

/// Number of bytes a stored record occupies.
pub const STATE_LEN: usize = 50;

/// Where the initialised flag stands.
pub const FLAG_OFFSET: usize = 0;

/// Where the authority key starts.
pub const AUTHORITY_OFFSET: usize = 1;

/// Where the model version starts.
pub const VERSION_OFFSET: usize = 33;

/// Where the time of the last update starts.
pub const TIMESTAMP_OFFSET: usize = 41;

/// Where the padding byte stands.
pub const PADDING_OFFSET: usize = 49;

/// The record that an account of this program holds.
#[derive(Debug, Clone, Copy, PartialEq, Eq)]
pub struct NetworkState {
    /// Set once the record has been formatted.
    pub is_initialized: bool,
    /// The identity meant to be the record's only mutator.
    pub authority: Pubkey,
    /// Counts the updates: 1 after initialisation, one more after each update.
    pub model_version: u64,
    /// Unix time of the last change, as the host reported it.
    pub last_update: i64,
}

/// A record as a mathematical value.
pub struct NetworkStateView {
    pub is_initialized: bool,
    pub authority: Seq<u8>,
    pub model_version: u64,
    pub last_update: i64,
}

impl View for NetworkState {
    type V = NetworkStateView;

    open spec fn view(&self) -> NetworkStateView {
        NetworkStateView {
            is_initialized: self.is_initialized,
            authority: self.authority@,
            model_version: self.model_version,
            last_update: self.last_update,
        }
    }
}

impl NetworkStateView {
    /// A record is valid when its authority is a whole key. The view of every
    /// `NetworkState` is.
    pub open spec fn valid(self) -> bool {
        self.authority.len() == 32
    }
}

/// The bytes that store `state`.
pub open spec fn encode(state: NetworkStateView) -> Seq<u8> {
    seq![if state.is_initialized { 1u8 } else { 0u8 }] + state.authority + le_bytes(
        state.model_version as nat,
        8,
    ) + le_bytes(twos_complement(state.last_update), 8) + seq![0u8]
}

/// The record that a 50-byte buffer stores.
pub open spec fn decode(bytes: Seq<u8>) -> NetworkStateView {
    NetworkStateView {
        is_initialized: bytes[0] != 0,
        authority: bytes.subrange(1, 33),
        model_version: le_value(bytes.subrange(33, 41)) as u64,
        last_update: from_twos_complement(le_value(bytes.subrange(41, 49))),
    }
}

/// Every valid record is stored in exactly 50 bytes.
pub proof fn lemma_encode_len(state: NetworkStateView)
    requires
        state.valid(),
    ensures
        encode(state).len() == STATE_LEN,
{
    lemma_le_bytes_len(state.model_version as nat, 8);
    lemma_le_bytes_len(twos_complement(state.last_update), 8);
}

/// Decoding what was encoded gives the record back.
pub proof fn lemma_decode_encode(state: NetworkStateView)
    requires
        state.valid(),
    ensures
        decode(encode(state)) == state,
{
    let bytes = encode(state);
    let version = le_bytes(state.model_version as nat, 8);
    let stamp = le_bytes(twos_complement(state.last_update), 8);
    lemma_le_bytes_len(state.model_version as nat, 8);
    lemma_le_bytes_len(twos_complement(state.last_update), 8);
    lemma_span_eight();
    lemma_twos_complement_round_trip(state.last_update);
    lemma_le_value_of_le_bytes(state.model_version as nat, 8);
    lemma_le_value_of_le_bytes(twos_complement(state.last_update), 8);
    assert(bytes.subrange(1, 33) =~= state.authority);
    assert(bytes.subrange(33, 41) =~= version);
    assert(bytes.subrange(41, 49) =~= stamp);
}

/// A record read back from the bytes that store `state` is `state`.
pub proof fn lemma_round_trip(state: NetworkState, read_back: NetworkState)
    requires
        read_back@ == decode(encode(state@)),
    ensures
        read_back == state,
{
    lemma_decode_encode(state@);
    assert(read_back.authority =~= state.authority);
}

impl NetworkState {
    /// Reads the record that `src` stores. A buffer of any other width than
    /// 50 bytes is turned down; what the fields hold is not judged.
    pub fn unpack_from_slice(src: &[u8]) -> (unpacked: Result<NetworkState, ProcessError>)
        ensures
            match unpacked {
                Ok(state) => src@.len() == STATE_LEN && state@ == decode(src@),
                Err(error) => src@.len() != STATE_LEN && error == ProcessError::InvalidAccountData,
            },
    {
        if src.len() != STATE_LEN {
            return Err(ProcessError::InvalidAccountData);
        }
        Ok(
            NetworkState {
                is_initialized: src[FLAG_OFFSET] != 0,
                authority: read_key(src, AUTHORITY_OFFSET),
                model_version: read_u64_le(src, VERSION_OFFSET),
                last_update: read_i64_le(src, TIMESTAMP_OFFSET),
            },
        )
    }

    /// Stores the record in `dst`, overwriting all 50 bytes.
    pub fn pack_into_slice(&self, dst: &mut [u8])
        requires
            old(dst)@.len() == STATE_LEN,
        ensures
            final(dst)@.len() == STATE_LEN,
            final(dst)@ == encode(self@),
    {
        dst[FLAG_OFFSET] = if self.is_initialized {
            1
        } else {
            0
        };
        write_key(dst, AUTHORITY_OFFSET, &self.authority);
        write_u64_le(dst, VERSION_OFFSET, self.model_version);
        write_i64_le(dst, TIMESTAMP_OFFSET, self.last_update);
        dst[PADDING_OFFSET] = 0;
        proof {
            lemma_le_bytes_len(self.model_version as nat, 8);
            lemma_le_bytes_len(twos_complement(self.last_update), 8);
            assert(dst@ =~= encode(self@));
        }
    }
}

} // verus!
