//! Transaction IDs: a xorshift generator seeded from the system clock.

use std::time::{Duration, SystemTime, SystemTimeError, UNIX_EPOCH};
use vstd::prelude::*;

verus! {

#[verifier::external_type_specification]
#[verifier::external_body]
pub struct ExSystemTime(SystemTime);

#[verifier::external_type_specification]
#[verifier::external_body]
pub struct ExSystemTimeError(SystemTimeError);

/// One step of the xorshift generator on a 128-bit state.
pub open spec fn xorshift_step(s: u128) -> u128 {
    let a = s ^ (s << 13u128);
    let b = a ^ (a >> 7u128);
    b ^ (b << 17u128)
}

/// The generator's state after `k` steps from `seed`.
pub open spec fn xorshift_state(seed: u128, k: nat) -> u128
    decreases k,
{
    if k == 0 {
        seed
    } else {
        xorshift_step(xorshift_state(seed, (k - 1) as nat))
    }
}

/// The transaction ID generated from `seed`: byte `i` is the low byte of
/// the state after `i + 1` steps.
pub open spec fn transaction_id_of_seed(seed: u128) -> Seq<u8> {
    Seq::new(12, |i: int| (xorshift_state(seed, (i + 1) as nat) & 0xff) as u8)
}

/// `SystemTime::now()`: the current reading of the system clock. Nothing is
/// stated of it.
#[verifier::external_body]
fn clock_now() -> SystemTime {
    SystemTime::now()
}

/// `SystemTime::duration_since(UNIX_EPOCH)`: the time elapsed since the
/// Unix epoch, or an error when the clock reads earlier than the epoch.
/// Nothing is stated of either, as both depend on the clock.
#[verifier::external_body]
fn since_unix_epoch(t: &SystemTime) -> Result<Duration, SystemTimeError> {
    t.duration_since(UNIX_EPOCH)
}

/// `SystemTimeError::duration()`: how far before the epoch the clock read.
/// Nothing is stated of it.
#[verifier::external_body]
fn error_offset(e: &SystemTimeError) -> Duration {
    e.duration()
}

/// `Duration::as_nanos()`: the whole number of nanoseconds in `d`. Nothing
/// is stated of it: it is used only as a seed, of which the library
/// promises nothing.
#[verifier::external_body]
fn whole_nanos(d: &Duration) -> u128 {
    d.as_nanos()
}

/// Generates a transaction ID from `seed` with twelve xorshift steps,
/// keeping the low byte of the state after each.
pub fn transaction_id_from_seed(seed: u128) -> (id: [u8; 12])
    ensures
        id@ == transaction_id_of_seed(seed),
{
    let mut id = [0u8; 12];
    let mut state = seed;
    let mut i: usize = 0;
    while i < 12
        invariant
            i <= 12,
            id@.len() == 12,
            state == xorshift_state(seed, i as nat),
            forall|j: int| 0 <= j < i ==> #[trigger] id@[j] == transaction_id_of_seed(seed)[j],
        decreases 12 - i,
    {
        state = state ^ (state << 13u32);
        state = state ^ (state >> 7u32);
        state = state ^ (state << 17u32);
        id[i] = (state & 0xFF) as u8;
        i = i + 1;
    }
    assert(id@ =~= transaction_id_of_seed(seed));
    id
}

/// Generates a 12-byte transaction ID from the nanoseconds between the
/// system clock and the Unix epoch. When the clock reads earlier than the
/// epoch, the seed is the nanoseconds by which it does, so no clock reading
/// makes the call fail; the result is the generator's output for that seed.
pub fn random_transaction_id() -> (id: [u8; 12])
    ensures
        exists|seed: u128| id@ == transaction_id_of_seed(seed),
{
    let now = clock_now();
    let elapsed = match since_unix_epoch(&now) {
        Ok(d) => d,
        Err(e) => error_offset(&e),
    };
    let seed = whole_nanos(&elapsed);
    transaction_id_from_seed(seed)
}

} // verus!
