//! Time stamps and random filler of the handshake packets.
use vstd::prelude::*;
use crate::wrappers::{
    system_time_now, duration_since_unix_epoch, duration_as_nanos, thread_rng, random_byte,
};

verus! {

/// The time field of a handshake packet: nanoseconds since the Unix
/// epoch, truncated to 32 bits; 0 when the clock reads before the epoch.
pub open spec fn timestamp_from_nanos_spec(nanos: Option<u128>) -> u32 {
    match nanos {
        Some(n) => (n % 0x1_0000_0000) as u32,
        None => 0,
    }
}

pub fn timestamp_from_nanos(nanos: Option<u128>) -> (r: u32)
    ensures
        r == timestamp_from_nanos_spec(nanos),
{
    match nanos {
        Some(n) => (n % 0x1_0000_0000) as u32,
        None => 0,
    }
}

/// The current time as a handshake time field. Any value may come back:
/// it is read from the system clock.
pub fn current_time() -> (r: u32) {
    let now = system_time_now();
    let nanos = match duration_since_unix_epoch(now) {
        Some(d) => Some(duration_as_nanos(d)),
        None => None,
    };
    timestamp_from_nanos(nanos)
}

/// Overwrites every byte of `buffer` with a random one.
pub fn generate_random_bytes(buffer: &mut Vec<u8>)
    ensures
        final(buffer)@.len() == old(buffer)@.len(),
{
    let mut rng = thread_rng();
    let mut x: usize = 0;
    while x < buffer.len()
        invariant
            x <= buffer@.len(),
            buffer@.len() == old(buffer)@.len(),
        decreases buffer@.len() - x,
    {
        let value = random_byte(&mut rng);
        buffer.set(x, value);
        x = x + 1;
    }
}

/// `n` random bytes.
pub fn random_bytes(n: usize) -> (r: Vec<u8>)
    ensures
        r@.len() == n,
{
    let mut buffer: Vec<u8> = Vec::new();
    let mut i: usize = 0;
    while i < n
        invariant
            i <= n,
            buffer@.len() == i,
        decreases n - i,
    {
        buffer.push(0);
        i = i + 1;
    }
    generate_random_bytes(&mut buffer);
    buffer
}

} // verus!
