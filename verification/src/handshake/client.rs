//! The client side of the plain handshake, and the C0/C1/C2 writer.
use vstd::prelude::*;
use crate::bytes_io::{BytesReader, BytesReadError, BytesWriter, be32_bytes};
use crate::handshake::define::{RTMP_VERSION, RTMP_HANDSHAKE_SIZE, ClientHandshakeState};
use crate::handshake::errors::{HandshakeError, HandshakeErrorValue};
use crate::handshake::server::handshake_read_failed;
use crate::handshake::utils::{current_time, random_bytes, timestamp_from_nanos};
use crate::wrappers::{system_time_now, duration_since_unix_epoch, duration_as_nanos};

verus! {

/// Mathematical model of a `SimpleHandshakeClient`.
pub struct ClientModel {
    pub buf: Seq<u8>,
    pub out: Seq<u8>,
    pub state: ClientHandshakeState,
    pub s1: Seq<u8>,
}

/// C0 and C1: the version; the client time, four zero bytes and random
/// bytes.
pub open spec fn client_c0c1(time: u32, random: Seq<u8>) -> Seq<u8> {
    seq![RTMP_VERSION] + be32_bytes(time) + be32_bytes(0) + random
}

/// One call of `handshake`: write C0 and C1 and stop; or read S0, S1 and
/// S2, then write C2 (S1 echoed) and finish. A read short of bytes fails,
/// keeping what was read before it.
pub open spec fn client_handshake(m: ClientModel, time: u32, random: Seq<u8>) -> (
    ClientModel,
    Result<(), HandshakeError>,
) {
    match m.state {
        ClientHandshakeState::WriteC0C1 => (
            ClientModel {
                out: m.out + client_c0c1(time, random),
                state: ClientHandshakeState::ReadS0S1S2,
                ..m
            },
            Ok(()),
        ),
        ClientHandshakeState::ReadS0S1S2 => if m.buf.len() < 1 {
            (m, Err(handshake_read_failed()))
        } else if m.buf.len() < 1 + 1536 {
            (ClientModel { buf: m.buf.skip(1), ..m }, Err(handshake_read_failed()))
        } else if m.buf.len() < 1 + 3072 {
            (
                ClientModel { buf: m.buf.skip(1537), s1: m.buf.subrange(1, 1537), ..m },
                Err(handshake_read_failed()),
            )
        } else {
            let s1 = m.buf.subrange(1, 1537);
            (
                ClientModel {
                    buf: m.buf.skip(3073),
                    s1,
                    out: m.out + s1,
                    state: ClientHandshakeState::Finish,
                },
                Ok(()),
            )
        },
        ClientHandshakeState::WriteC2 => (
            ClientModel { out: m.out + m.s1, state: ClientHandshakeState::Finish, ..m },
            Ok(()),
        ),
        ClientHandshakeState::Finish => (m, Ok(())),
    }
}

pub struct SimpleHandshakeClient {
    reader: BytesReader,
    writer: BytesWriter,
    s1_bytes: Vec<u8>,
    pub state: ClientHandshakeState,
}

impl View for SimpleHandshakeClient {
    type V = ClientModel;

    closed spec fn view(&self) -> ClientModel {
        ClientModel {
            buf: self.reader@,
            out: self.writer@,
            state: self.state,
            s1: self.s1_bytes@,
        }
    }
}

fn read_error(e: BytesReadError) -> (r: HandshakeError)
    ensures
        r == (HandshakeError { value: HandshakeErrorValue::BytesReadError(e) }),
{
    HandshakeError { value: HandshakeErrorValue::BytesReadError(e) }
}

impl SimpleHandshakeClient {
    pub fn new() -> (c: Self)
        ensures
            c@ == (ClientModel {
                buf: Seq::empty(),
                out: Seq::empty(),
                state: ClientHandshakeState::WriteC0C1,
                s1: Seq::empty(),
            }),
    {
        Self {
            reader: BytesReader::new(Vec::new()),
            writer: BytesWriter::new(),
            s1_bytes: Vec::new(),
            state: ClientHandshakeState::WriteC0C1,
        }
    }

    pub fn extend_data(&mut self, data: &[u8])
        ensures
            final(self)@ == (ClientModel { buf: old(self)@.buf + data@, ..old(self)@ }),
    {
        self.reader.extend_from_slice(data);
    }

    /// Takes the bytes written so far, to be sent to the server.
    pub fn extract_current_bytes(&mut self) -> (r: Vec<u8>)
        ensures
            r@ == old(self)@.out,
            final(self)@ == (ClientModel { out: Seq::empty(), ..old(self)@ }),
    {
        self.writer.extract_current_bytes()
    }

    /// Runs the handshake as far as the received bytes allow.
    pub fn handshake(&mut self) -> (r: Result<(), HandshakeError>)
        ensures
            exists|t: u32, rnd: Seq<u8>|
                rnd.len() == 1528 && #[trigger] client_handshake(old(self)@, t, rnd) == (
                    final(self)@,
                    r,
                ),
    {
        let ghost m0 = self@;
        let ghost z = Seq::new(1528, |i: int| 0u8);
        match self.state {
            ClientHandshakeState::WriteC0C1 => {
                let time = current_time();
                let random = random_bytes(RTMP_HANDSHAKE_SIZE - 8);
                self.writer.write_u8(RTMP_VERSION);
                self.writer.write_u32_be(time);
                self.writer.write_u32_be(0);
                self.writer.write(random.as_slice());
                self.state = ClientHandshakeState::ReadS0S1S2;
                assert(self@.out =~= m0.out + client_c0c1(time, random@));
                assert(client_handshake(m0, time, random@) == (self@, Ok::<(), HandshakeError>(())));
                Ok(())
            },
            ClientHandshakeState::ReadS0S1S2 => {
                match self.reader.read_u8() {
                    Ok(_) => {},
                    Err(e) => {
                        assert(client_handshake(m0, 0, z) == (
                            self@,
                            Err::<(), HandshakeError>(handshake_read_failed()),
                        ));
                        return Err(read_error(e));
                    },
                }
                match self.reader.read_bytes(RTMP_HANDSHAKE_SIZE) {
                    Ok(v) => {
                        self.s1_bytes = v;
                    },
                    Err(e) => {
                        assert(self@.buf =~= m0.buf.skip(1));
                        assert(client_handshake(m0, 0, z) == (
                            self@,
                            Err::<(), HandshakeError>(handshake_read_failed()),
                        ));
                        return Err(read_error(e));
                    },
                }
                proof {
                    assert(m0.buf.skip(1).subrange(0, 1536) =~= m0.buf.subrange(1, 1537));
                    assert(m0.buf.skip(1).subrange(1536, m0.buf.len() - 1) =~= m0.buf.skip(1537));
                }
                match self.reader.read_bytes(RTMP_HANDSHAKE_SIZE) {
                    Ok(_) => {},
                    Err(e) => {
                        assert(client_handshake(m0, 0, z) == (
                            self@,
                            Err::<(), HandshakeError>(handshake_read_failed()),
                        ));
                        return Err(read_error(e));
                    },
                }
                assert(m0.buf.skip(1537).subrange(1536, m0.buf.len() - 1537) =~= m0.buf.skip(3073));
                self.writer.write(self.s1_bytes.as_slice());
                self.state = ClientHandshakeState::Finish;
                assert(client_handshake(m0, 0, z) == (self@, Ok::<(), HandshakeError>(())));
                Ok(())
            },
            ClientHandshakeState::WriteC2 => {
                self.writer.write(self.s1_bytes.as_slice());
                self.state = ClientHandshakeState::Finish;
                assert(client_handshake(m0, 0, z) == (self@, Ok::<(), HandshakeError>(())));
                Ok(())
            },
            ClientHandshakeState::Finish => {
                assert(client_handshake(m0, 0, z) == (self@, Ok::<(), HandshakeError>(())));
                Ok(())
            },
        }
    }
}

/// C1 of the plain handshake: the time, four zero bytes, random bytes.
pub open spec fn c1_body(time: u32, random: Seq<u8>) -> Seq<u8> {
    be32_bytes(time) + be32_bytes(0) + random
}

/// A writer of the client's C0, C1 and C2 into a byte buffer.
pub struct SimpleHandshake {
    bytes: BytesWriter,
}

impl View for SimpleHandshake {
    type V = Seq<u8>;

    closed spec fn view(&self) -> Seq<u8> {
        self.bytes@
    }
}

impl SimpleHandshake {
    pub fn new() -> (h: Self)
        ensures
            h@ == Seq::<u8>::empty(),
    {
        SimpleHandshake { bytes: BytesWriter::new() }
    }

    pub fn write_u8(&mut self, byte: u8) -> (r: Result<(), HandshakeError>)
        ensures
            r is Ok,
            final(self)@ == old(self)@.push(byte),
    {
        self.bytes.write_u8(byte);
        Ok(())
    }

    pub fn write(&mut self, buf: &[u8]) -> (r: Result<(), HandshakeError>)
        ensures
            r is Ok,
            final(self)@ == old(self)@ + buf@,
    {
        self.bytes.write(buf);
        Ok(())
    }

    /// C0: the protocol version.
    pub fn write_c0(&mut self) -> (r: Result<(), HandshakeError>)
        ensures
            r is Ok,
            final(self)@ == old(self)@.push(RTMP_VERSION),
    {
        self.write_u8(RTMP_VERSION)
    }

    /// C1: the time, four zero bytes and 1528 random bytes. Fails, writing
    /// nothing, when the clock reads before the Unix epoch.
    pub fn write_c1(&mut self) -> (r: Result<(), HandshakeError>)
        ensures
            r is Ok ==> exists|t: u32, rnd: Seq<u8>|
                rnd.len() == 1528 && #[trigger] c1_body(t, rnd) == final(self)@.skip(
                    old(self)@.len() as int,
                ),
            r is Ok ==> final(self)@.len() == old(self)@.len() + 1536 && final(self)@.take(
                old(self)@.len() as int,
            ) == old(self)@,
            r is Err ==> final(self)@ == old(self)@ && r->Err_0.value
                == HandshakeErrorValue::SysTimeError,
    {
        let now = system_time_now();
        let duration = match duration_since_unix_epoch(now) {
            Some(d) => d,
            None => return Err(HandshakeError { value: HandshakeErrorValue::SysTimeError }),
        };
        let time = timestamp_from_nanos(Some(duration_as_nanos(duration)));
        let random = random_bytes(RTMP_HANDSHAKE_SIZE - 8);
        self.bytes.write_u32_be(time);
        self.bytes.write_u32_be(0);
        self.bytes.write(random.as_slice());
        assert(self@.skip(old(self)@.len() as int) =~= c1_body(time, random@));
        assert(self@.take(old(self)@.len() as int) =~= old(self)@);
        Ok(())
    }

    /// C2 is not written by this writer.
    pub fn write_c2(&mut self) -> (r: Result<(), HandshakeError>)
        ensures
            r is Ok,
            final(self)@ == old(self)@,
    {
        Ok(())
    }

    /// Takes the bytes written so far.
    pub fn extract_current_bytes(&mut self) -> (r: Vec<u8>)
        ensures
            r@ == old(self)@,
            final(self)@ == Seq::<u8>::empty(),
    {
        self.bytes.extract_current_bytes()
    }
}

} // verus!
