//! The game's points of contact with the Soroban host: its environment and
//! address types, the host's SHA-256, and the current ledger.

use vstd::prelude::*;

verus! {

/// The Soroban host environment handle, carried through opaquely.
#[verifier::external_type_specification]
#[verifier::external_body]
pub struct ExEnv(soroban_sdk::Env);

/// A Soroban account or contract address, carried through opaquely.
#[verifier::external_type_specification]
#[verifier::external_body]
pub struct ExAddress(soroban_sdk::Address);

/// The SHA-256 digest of a byte sequence, as the host computes it.
pub uninterp spec fn sha256_digest(data: Seq<u8>) -> Seq<u8>;

/// Calls `soroban_sdk::crypto::Crypto::sha256` (the host's SHA-256) on
/// `data`.  Trusted: the 32 bytes returned are `sha256_digest(data@)`, a
/// function of the input bytes alone.  Nothing is stated about the host's
/// metering budget, whose exhaustion aborts the invocation.
#[verifier::external_body]
pub(crate) fn host_sha256(env: &soroban_sdk::Env, data: &Vec<u8>) -> (r: [u8; 32])
    ensures
        r@ == sha256_digest(data@),
{
    let bytes = soroban_sdk::Bytes::from_slice(env, data.as_slice());
    env.crypto().sha256(&bytes).to_array()
}

/// Calls `soroban_sdk::ledger::Ledger::sequence`: the sequence number of the
/// ledger being closed.  It depends on the host's state, so nothing is
/// stated of it.
#[verifier::external_body]
pub(crate) fn ledger_sequence(env: &soroban_sdk::Env) -> u32 {
    env.ledger().sequence()
}

/// Calls `soroban_sdk::ledger::Ledger::timestamp`: the close time of the
/// ledger being closed, in seconds.  It depends on the host's state, so
/// nothing is stated of it.
#[verifier::external_body]
pub(crate) fn ledger_timestamp(env: &soroban_sdk::Env) -> u64 {
    env.ledger().timestamp()
}

} // verus!
