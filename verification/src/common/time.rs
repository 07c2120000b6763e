//! Time-window helpers over the host's block time.

use vstd::prelude::*;

use crate::host::Env;
use crate::host::NANOS_PER_SECOND;
use crate::host::Timestamp;

verus! {

/// Whether a deadline has passed; a missing deadline never expires.
pub fn is_expired(expiry: Option<Timestamp>, env: &Env) -> (r: bool)
    ensures
        r == match expiry {
            Some(t) => env.block_time.nanos >= t.nanos,
            None => false,
        },
{
    match expiry {
        Some(expiry_ts) => env.block_time.nanos >= expiry_ts.nanos,
        None => false,
    }
}

/// The point `seconds` after the current block time.
pub fn seconds_from_now(env: &Env, seconds: u64) -> (r: Timestamp)
    requires
        env.block_time.nanos + seconds * NANOS_PER_SECOND <= u64::MAX,
    ensures
        r.nanos == env.block_time.nanos + seconds * NANOS_PER_SECOND,
{
    env.block_time.plus_seconds(seconds)
}

/// The point `days` after the current block time.
pub fn days_from_now(env: &Env, days: u64) -> (r: Timestamp)
    requires
        env.block_time.nanos + days * 86400 * NANOS_PER_SECOND <= u64::MAX,
    ensures
        r.nanos == env.block_time.nanos + days * 86400 * NANOS_PER_SECOND,
{
    proof {
        assert(days * 86400 * NANOS_PER_SECOND == (days * 86400) * NANOS_PER_SECOND);
        vstd::arithmetic::mul::lemma_mul_inequality(1, NANOS_PER_SECOND as int, days * 86400);
        vstd::arithmetic::mul::lemma_mul_is_commutative(NANOS_PER_SECOND as int, days * 86400);
    }
    seconds_from_now(env, days * 24 * 60 * 60)
}

/// The point `hours` after the current block time.
pub fn hours_from_now(env: &Env, hours: u64) -> (r: Timestamp)
    requires
        env.block_time.nanos + hours * 3600 * NANOS_PER_SECOND <= u64::MAX,
    ensures
        r.nanos == env.block_time.nanos + hours * 3600 * NANOS_PER_SECOND,
{
    proof {
        assert(hours * 3600 * NANOS_PER_SECOND == (hours * 3600) * NANOS_PER_SECOND);
        vstd::arithmetic::mul::lemma_mul_inequality(1, NANOS_PER_SECOND as int, hours * 3600);
        vstd::arithmetic::mul::lemma_mul_is_commutative(NANOS_PER_SECOND as int, hours * 3600);
    }
    seconds_from_now(env, hours * 60 * 60)
}

} // verus!
