//! The calls this library makes into code it does not verify: std's UTF-8
//! check and clock, the `rand` generator and the `hmac`/`sha2` MAC. Each
//! item here is believed, not proved; its doc comment says what.
use vstd::prelude::*;
use vstd::utf8::{valid_utf8, decode_utf8};
use std::time::{Duration, SystemTime};
use rand::Rng;
use hmac::{Hmac, Mac, NewMac};
use sha2::Sha256;

verus! {

/// Calls `String::from_utf8`. Believed: it succeeds exactly on valid UTF-8
/// and then holds the characters those bytes encode, as std documents.
#[verifier::external_body]
pub(crate) fn string_from_utf8(bytes: Vec<u8>) -> (r: Option<String>)
    ensures
        r is Some <==> valid_utf8(bytes@),
        r matches Some(s) ==> s@ == decode_utf8(bytes@),
{
    match String::from_utf8(bytes) {
        Ok(s) => Some(s),
        Err(_) => None,
    }
}

#[verifier::external_type_specification]
#[verifier::external_body]
pub struct ExSystemTime(std::time::SystemTime);

#[verifier::external_type_specification]
#[verifier::external_body]
pub struct ExThreadRng(rand::rngs::ThreadRng);

/// Calls `SystemTime::now`. Nothing is claimed of the time read.
#[verifier::external_body]
pub(crate) fn system_time_now() -> SystemTime {
    SystemTime::now()
}

/// Calls `SystemTime::duration_since` with the Unix epoch; `None` stands
/// for its error (a clock set before 1970). Nothing more is claimed.
#[verifier::external_body]
pub(crate) fn duration_since_unix_epoch(t: SystemTime) -> Option<Duration> {
    t.duration_since(SystemTime::UNIX_EPOCH).ok()
}

/// Calls `Duration::as_nanos`. Nothing is claimed of the count.
#[verifier::external_body]
pub(crate) fn duration_as_nanos(d: Duration) -> u128 {
    d.as_nanos()
}

/// Calls `Duration::as_millis`. Nothing is claimed of the count.
#[verifier::external_body]
pub(crate) fn duration_as_millis(d: Duration) -> u128 {
    d.as_millis()
}

/// Calls `rand::thread_rng`. Nothing is claimed of the generator.
#[verifier::external_body]
pub(crate) fn thread_rng() -> rand::rngs::ThreadRng {
    rand::thread_rng()
}

/// Calls `Rng::gen::<u8>`: any byte may come back.
#[verifier::external_body]
pub(crate) fn random_byte(rng: &mut rand::rngs::ThreadRng) -> u8 {
    rng.gen()
}

/// HMAC-SHA256 of `message` under `key`, as computed by the `hmac` crate
/// over `sha2::Sha256`.
pub uninterp spec fn hmac_sha256(key: Seq<u8>, message: Seq<u8>) -> Seq<u8>;

/// Calls `Hmac::<Sha256>::new_from_slice(key)`, `update(message)` and
/// `finalize().into_bytes()`. Believed: the result is `hmac_sha256` of the
/// key and message, 32 bytes long (the output size of `Sha256`); the key
/// is never refused, since HMAC takes keys of any length.
#[verifier::external_body]
pub(crate) fn hmac_sha256_digest(key: &[u8], message: &[u8]) -> (r: Vec<u8>)
    ensures
        r@ == hmac_sha256(key@, message@),
        r@.len() == 32,
{
    let mut mac = Hmac::<Sha256>::new_from_slice(key).unwrap();
    mac.update(message);
    mac.finalize().into_bytes().to_vec()
}

} // verus!
