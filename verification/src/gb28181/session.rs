//! One GB28181 receiving session, as far as it decides anything: what is
//! appended to its dump file for each packet received.
use vstd::prelude::*;
use crate::bytes_io::{BytesWriter, be16_bytes};
use crate::wrappers::{system_time_now, duration_since_unix_epoch, duration_as_millis};

verus! {

/// Milliseconds since the Unix epoch, truncated to 64 bits; 0 when the
/// clock reads before the epoch.
pub open spec fn millis_from_epoch_spec(millis: Option<u128>) -> u64 {
    match millis {
        Some(m) => (m % 0x1_0000_0000_0000_0000) as u64,
        None => 0,
    }
}

pub fn millis_from_epoch(millis: Option<u128>) -> (r: u64)
    ensures
        r == millis_from_epoch_spec(millis),
{
    match millis {
        Some(m) => (m % 0x1_0000_0000_0000_0000) as u64,
        None => 0,
    }
}

/// The current time in milliseconds. Any value may come back: it is read
/// from the system clock.
pub fn current_time() -> (r: u64)
    ensures
        exists|m: Option<u128>| r == millis_from_epoch_spec(m),
{
    let now = system_time_now();
    let millis = match duration_since_unix_epoch(now) {
        Some(d) => Some(duration_as_millis(d)),
        None => None,
    };
    let r = millis_from_epoch(millis);
    assert(r == millis_from_epoch_spec(millis));
    r
}

/// The time since the previous packet, as a dump record holds it: 0 for
/// the first packet (no previous time), else the difference in
/// milliseconds, wrapped to 16 bits.
pub open spec fn dump_delta(last: u64, now: u64) -> u16 {
    if last == 0 {
        0
    } else {
        ((now - last) % 0x10000) as u16
    }
}

/// The time kept for the next packet.
pub open spec fn dump_next_last(last: u64, now: u64) -> u64 {
    now
}

/// One dump record: the time since the previous packet and the packet's
/// length (wrapped to 16 bits), both big-endian, then the packet.
pub open spec fn dump_record(last: u64, now: u64, data: Seq<u8>) -> Seq<u8> {
    be16_bytes(dump_delta(last, now)) + be16_bytes((data.len() % 0x10000) as u16) + data
}

/// What a session needs to know to write its dump file.
pub struct GB28181ServerSession {
    pub local_port: u16,
    pub stream_name: String,
    pub need_dump: bool,
    /// When the previous packet was received, in milliseconds; 0 before
    /// the first.
    pub dump_last_recv_timestamp: u64,
}

impl GB28181ServerSession {
    pub fn new(local_port: u16, stream_name: String, need_dump: bool) -> (s: Self)
        ensures
            s.local_port == local_port,
            s.stream_name@ == stream_name@,
            s.need_dump == need_dump,
            s.dump_last_recv_timestamp == 0,
    {
        GB28181ServerSession { local_port, stream_name, need_dump, dump_last_recv_timestamp: 0 }
    }

    /// The dump record of a packet received at `now`, and the time kept
    /// for the next; nothing when the session does not dump.
    pub fn dump_at(&mut self, now: u64, data: &[u8]) -> (r: Vec<u8>)
        ensures
            final(self).local_port == old(self).local_port,
            final(self).stream_name@ == old(self).stream_name@,
            final(self).need_dump == old(self).need_dump,
            old(self).need_dump ==> r@ == dump_record(old(self).dump_last_recv_timestamp, now, data@)
                && final(self).dump_last_recv_timestamp == dump_next_last(
                old(self).dump_last_recv_timestamp,
                now,
            ),
            !old(self).need_dump ==> r@ == Seq::<u8>::empty() && final(self).dump_last_recv_timestamp
                == old(self).dump_last_recv_timestamp,
    {
        let mut w = BytesWriter::new();
        if !self.need_dump {
            return w.extract_current_bytes();
        }
        let delta: u16 = if self.dump_last_recv_timestamp == 0 {
            self.dump_last_recv_timestamp = now;
            0
        } else {
            let d = (now.wrapping_sub(self.dump_last_recv_timestamp) % 0x10000) as u16;
            assert(d == dump_delta(old(self).dump_last_recv_timestamp, now)) by {
                let a = now as int;
                let b = old(self).dump_last_recv_timestamp as int;
                assert(now.wrapping_sub(self.dump_last_recv_timestamp) as int == (a - b) % 0x1_0000_0000_0000_0000);
                assert(((a - b) % 0x1_0000_0000_0000_0000) % 0x10000 == (a - b) % 0x10000) by (nonlinear_arith);
            }
            self.dump_last_recv_timestamp = now;
            d
        };
        w.write_u16_be(delta);
        w.write_u16_be((data.len() % 0x10000) as u16);
        w.write(data);
        let r = w.extract_current_bytes();
        assert(r@ =~= dump_record(old(self).dump_last_recv_timestamp, now, data@));
        r
    }

    /// The dump record of a packet received now; see `dump_at`.
    pub fn dump(&mut self, data: &[u8]) -> (r: Vec<u8>)
        ensures
            final(self).local_port == old(self).local_port,
            final(self).stream_name@ == old(self).stream_name@,
            final(self).need_dump == old(self).need_dump,
            old(self).need_dump ==> exists|now: u64| r@ == dump_record(
                old(self).dump_last_recv_timestamp,
                now,
                data@,
            ) && final(self).dump_last_recv_timestamp == now,
            !old(self).need_dump ==> r@ == Seq::<u8>::empty(),
    {
        if !self.need_dump {
            return Vec::new();
        }
        let now = current_time();
        self.dump_at(now, data)
    }
}

/// The stream handler a GB28181 session registers with the hub: it has no
/// data to hand a new subscriber before the live frames.
pub struct GB28181StreamHandler {}

impl GB28181StreamHandler {
    pub fn new() -> (h: Self) {
        GB28181StreamHandler {}
    }
}

} // verus!
