//! The server side of the handshake. A handshaker reads what the client
//! sent from its buffer and writes its answer into an output buffer; the
//! caller sends the output after each call of `handshake`.
use vstd::prelude::*;
use crate::bytes_io::{BytesReader, BytesReadError, BytesWriter, be32, be32_bytes};
use crate::handshake::define::{
    RTMP_VERSION, RTMP_HANDSHAKE_SIZE, ServerHandshakeState, client_key_first_half,
    server_key_first_half, server_key, server_version, rtmp_client_key_first_half,
    rtmp_server_key_first_half, rtmp_server_key, rtmp_server_version,
};
use crate::handshake::digest::{DigestProcessor, found_digest, filled_with_digest};
use crate::handshake::errors::{HandshakeError, HandshakeErrorValue};
use crate::handshake::utils::{current_time, random_bytes};
use crate::wrappers::hmac_sha256;

verus! {

pub open spec fn handshake_read_failed() -> HandshakeError {
    HandshakeError { value: HandshakeErrorValue::BytesReadError(BytesReadError::NotEnoughBytes) }
}

/// The value of the first four bytes, big-endian.
pub open spec fn be32_at(s: Seq<u8>) -> u32 {
    be32(s[0], s[1], s[2], s[3]) as u32
}

// ---------------------------------------------------------------------
// The plain handshake
// ---------------------------------------------------------------------
/// Mathematical model of a `SimpleHandshakeServer`.
pub struct SimpleServerModel {
    /// Received bytes not read yet.
    pub buf: Seq<u8>,
    /// Bytes written and not taken yet.
    pub out: Seq<u8>,
    pub state: ServerHandshakeState,
    pub c1: Seq<u8>,
    pub c1_timestamp: u32,
}

/// S0, S1 and S2 of the plain handshake: the version; the server time,
/// the time of C1 and random bytes; C1 echoed.
pub open spec fn simple_s0s1s2(time: u32, random: Seq<u8>, c1_timestamp: u32, c1: Seq<u8>) -> Seq<
    u8,
> {
    seq![RTMP_VERSION] + be32_bytes(time) + be32_bytes(c1_timestamp) + random + c1
}

pub open spec fn simple_write(m: SimpleServerModel, time: u32, random: Seq<u8>) -> (
    SimpleServerModel,
    Result<(), HandshakeError>,
) {
    (
        SimpleServerModel {
            out: m.out + simple_s0s1s2(time, random, m.c1_timestamp, m.c1),
            state: ServerHandshakeState::ReadC2,
            ..m
        },
        Ok(()),
    )
}

/// One call of `handshake`: read C0 and C1, then write S0, S1 and S2 and
/// stop, or read C2 and finish. A read short of bytes fails, keeping what
/// was read before it. `time` and `random` stand for what the clock and
/// the generator give.
pub open spec fn simple_server_handshake(m: SimpleServerModel, time: u32, random: Seq<u8>) -> (
    SimpleServerModel,
    Result<(), HandshakeError>,
) {
    match m.state {
        ServerHandshakeState::ReadC0C1 => if m.buf.len() < 1 {
            (m, Err(handshake_read_failed()))
        } else if m.buf.len() < 1 + 1536 {
            (SimpleServerModel { buf: m.buf.skip(1), ..m }, Err(handshake_read_failed()))
        } else {
            let c1 = m.buf.subrange(1, 1537);
            simple_write(
                SimpleServerModel {
                    buf: m.buf.skip(1537),
                    c1,
                    c1_timestamp: be32_at(c1),
                    state: ServerHandshakeState::WriteS0S1S2,
                    ..m
                },
                time,
                random,
            )
        },
        ServerHandshakeState::WriteS0S1S2 => simple_write(m, time, random),
        ServerHandshakeState::ReadC2 => if m.buf.len() < 1536 {
            (m, Err(handshake_read_failed()))
        } else {
            (
                SimpleServerModel {
                    buf: m.buf.skip(1536),
                    state: ServerHandshakeState::Finish,
                    ..m
                },
                Ok(()),
            )
        },
        ServerHandshakeState::Finish => (m, Ok(())),
    }
}

pub struct SimpleHandshakeServer {
    reader: BytesReader,
    writer: BytesWriter,
    pub state: ServerHandshakeState,
    c1_bytes: Vec<u8>,
    c1_timestamp: u32,
}

fn read_error(e: BytesReadError) -> (r: HandshakeError)
    ensures
        r == (HandshakeError { value: HandshakeErrorValue::BytesReadError(e) }),
{
    HandshakeError { value: HandshakeErrorValue::BytesReadError(e) }
}

impl View for SimpleHandshakeServer {
    type V = SimpleServerModel;

    closed spec fn view(&self) -> SimpleServerModel {
        SimpleServerModel {
            buf: self.reader@,
            out: self.writer@,
            state: self.state,
            c1: self.c1_bytes@,
            c1_timestamp: self.c1_timestamp,
        }
    }
}

impl SimpleHandshakeServer {
    pub fn new() -> (s: Self)
        ensures
            s@ == (SimpleServerModel {
                buf: Seq::empty(),
                out: Seq::empty(),
                state: ServerHandshakeState::ReadC0C1,
                c1: Seq::empty(),
                c1_timestamp: 0,
            }),
    {
        Self {
            reader: BytesReader::new(Vec::new()),
            writer: BytesWriter::new(),
            state: ServerHandshakeState::ReadC0C1,
            c1_bytes: Vec::new(),
            c1_timestamp: 0,
        }
    }

    pub fn extend_data(&mut self, data: &[u8])
        ensures
            final(self)@ == (SimpleServerModel { buf: old(self)@.buf + data@, ..old(self)@ }),
    {
        self.reader.extend_from_slice(data);
    }

    /// The received bytes not read yet.
    pub fn get_remaining_bytes(&self) -> (r: Vec<u8>)
        ensures
            r@ == self@.buf,
    {
        self.reader.get_remaining_bytes()
    }

    /// Takes the bytes written so far, to be sent to the client.
    pub fn extract_current_bytes(&mut self) -> (r: Vec<u8>)
        ensures
            r@ == old(self)@.out,
            final(self)@ == (SimpleServerModel { out: Seq::empty(), ..old(self)@ }),
    {
        self.writer.extract_current_bytes()
    }

    fn write_s0s1s2(&mut self) -> (r: Result<(), HandshakeError>)
        requires
            old(self).state == ServerHandshakeState::WriteS0S1S2,
        ensures
            exists|t: u32, rnd: Seq<u8>|
                rnd.len() == 1528 && #[trigger] simple_write(old(self)@, t, rnd) == (
                    final(self)@,
                    r,
                ),
    {
        let time = current_time();
        let random = random_bytes(RTMP_HANDSHAKE_SIZE - 8);
        self.writer.write_u8(RTMP_VERSION);
        self.writer.write_u32_be(time);
        self.writer.write_u32_be(self.c1_timestamp);
        self.writer.write(random.as_slice());
        self.writer.write(self.c1_bytes.as_slice());
        self.state = ServerHandshakeState::ReadC2;
        assert(self@.out =~= old(self)@.out + simple_s0s1s2(
            time,
            random@,
            self.c1_timestamp,
            self.c1_bytes@,
        ));
        assert(simple_write(old(self)@, time, random@) == (self@, Ok::<(), HandshakeError>(())));
        Ok(())
    }

    /// Runs the handshake as far as the received bytes allow.
    pub fn handshake(&mut self) -> (r: Result<(), HandshakeError>)
        ensures
            exists|t: u32, rnd: Seq<u8>|
                rnd.len() == 1528 && #[trigger] simple_server_handshake(old(self)@, t, rnd) == (
                    final(self)@,
                    r,
                ),
    {
        let ghost m0 = self@;
        match self.state {
            ServerHandshakeState::ReadC0C1 => {
                match self.reader.read_u8() {
                    Ok(_) => {},
                    Err(e) => {
                        assert(simple_server_handshake(m0, 0, Seq::new(1528, |i: int| 0u8)) == (
                            self@,
                            Err::<(), HandshakeError>(handshake_read_failed()),
                        ));
                        return Err(read_error(e));
                    },
                }
                let c1_bytes = match self.reader.read_bytes(RTMP_HANDSHAKE_SIZE) {
                    Ok(v) => v,
                    Err(e) => {
                        assert(self@.buf =~= m0.buf.skip(1));
                        assert(simple_server_handshake(m0, 0, Seq::new(1528, |i: int| 0u8)) == (
                            self@,
                            Err::<(), HandshakeError>(handshake_read_failed()),
                        ));
                        return Err(read_error(e));
                    },
                };
                self.c1_bytes = c1_bytes.clone();
                assert(self.c1_bytes@ =~= c1_bytes@);
                let mut reader = BytesReader::new(c1_bytes);
                self.c1_timestamp = match reader.read_u32_be() {
                    Ok(v) => v,
                    Err(e) => return Err(read_error(e)),
                };
                self.state = ServerHandshakeState::WriteS0S1S2;
                proof {
                    assert(m0.buf.skip(1).subrange(0, 1536) =~= m0.buf.subrange(1, 1537));
                    assert(m0.buf.skip(1).subrange(1536, m0.buf.len() - 1) =~= m0.buf.skip(1537));
                }
                let ghost mid = self@;
                let r = self.write_s0s1s2();
                proof {
                    let (t, rnd) = choose|t: u32, rnd: Seq<u8>|
                        rnd.len() == 1528 && #[trigger] simple_write(mid, t, rnd) == (self@, r);
                    assert(simple_server_handshake(m0, t, rnd) == (self@, r));
                }
                r
            },
            ServerHandshakeState::WriteS0S1S2 => {
                let r = self.write_s0s1s2();
                proof {
                    let (t, rnd) = choose|t: u32, rnd: Seq<u8>|
                        rnd.len() == 1528 && #[trigger] simple_write(m0, t, rnd) == (self@, r);
                    assert(simple_server_handshake(m0, t, rnd) == (self@, r));
                }
                r
            },
            ServerHandshakeState::ReadC2 => {
                match self.reader.read_bytes(RTMP_HANDSHAKE_SIZE) {
                    Ok(_) => {},
                    Err(e) => {
                        assert(simple_server_handshake(m0, 0, Seq::new(1528, |i: int| 0u8)) == (
                            self@,
                            Err::<(), HandshakeError>(handshake_read_failed()),
                        ));
                        return Err(read_error(e));
                    },
                }
                self.state = ServerHandshakeState::Finish;
                assert(simple_server_handshake(m0, 0, Seq::new(1528, |i: int| 0u8)) == (
                    self@,
                    Ok::<(), HandshakeError>(()),
                ));
                Ok(())
            },
            ServerHandshakeState::Finish => {
                assert(simple_server_handshake(m0, 0, Seq::new(1528, |i: int| 0u8)) == (
                    self@,
                    Ok::<(), HandshakeError>(()),
                ));
                Ok(())
            },
        }
    }
}

// ---------------------------------------------------------------------
// The digest handshake
// ---------------------------------------------------------------------
/// Mathematical model of a `ComplexHandshakeServer`.
pub struct ComplexServerModel {
    pub buf: Seq<u8>,
    pub out: Seq<u8>,
    pub state: ServerHandshakeState,
    pub c1_digest: Seq<u8>,
    pub c1_timestamp: u32,
}

/// S1 of the digest handshake: the server time, the server version and
/// random bytes, with the schema 0 digest under the server key's first
/// half filled in.
#[verifier::opaque]
pub open spec fn complex_s1(time: u32, random: Seq<u8>) -> Result<
    Seq<u8>,
    crate::handshake::errors::DigestError,
> {
    filled_with_digest(be32_bytes(time) + server_version() + random, server_key_first_half())
}

/// S2 of the digest handshake: the server time, the time of C1 and random
/// bytes, cut to 1504 bytes and followed by their MAC under the MAC of the
/// C1 digest under the server key.
#[verifier::opaque]
pub open spec fn complex_s2(time: u32, random: Seq<u8>, c1_timestamp: u32, c1_digest: Seq<u8>) -> Seq<
    u8,
> {
    let data = (be32_bytes(time) + be32_bytes(c1_timestamp) + random).take(1504);
    data + hmac_sha256(hmac_sha256(server_key(), c1_digest), data)
}

/// An S1 of 1536 bytes always has room for its digest.
pub proof fn lemma_s1_fits(time: u32, random: Seq<u8>)
    requires
        random.len() == 1528,
    ensures
        complex_s1(time, random) is Ok,
{
    reveal(complex_s1);
    let raw = be32_bytes(time) + server_version() + random;
    assert(raw.len() == 1536);
}

pub open spec fn complex_write(
    m: ComplexServerModel,
    t1: u32,
    r1: Seq<u8>,
    t2: u32,
    r2: Seq<u8>,
) -> (ComplexServerModel, Result<(), HandshakeError>) {
    let out0 = m.out + seq![RTMP_VERSION];
    match complex_s1(t1, r1) {
        Err(e) => (
            ComplexServerModel { out: out0, ..m },
            Err(HandshakeError { value: HandshakeErrorValue::DigestError(e) }),
        ),
        Ok(s1) => (
            ComplexServerModel {
                out: out0 + s1 + complex_s2(t2, r2, m.c1_timestamp, m.c1_digest),
                state: ServerHandshakeState::ReadC2,
                ..m
            },
            Ok(()),
        ),
    }
}

/// One call of `handshake` of the digest handshake: as the plain one, but
/// C1 must carry a valid digest under the client key's first half, and
/// S1 and S2 are signed.
pub open spec fn complex_server_handshake(
    m: ComplexServerModel,
    t1: u32,
    r1: Seq<u8>,
    t2: u32,
    r2: Seq<u8>,
) -> (ComplexServerModel, Result<(), HandshakeError>) {
    match m.state {
        ServerHandshakeState::ReadC0C1 => if m.buf.len() < 1 {
            (m, Err(handshake_read_failed()))
        } else if m.buf.len() < 1 + 1536 {
            (ComplexServerModel { buf: m.buf.skip(1), ..m }, Err(handshake_read_failed()))
        } else {
            let c1 = m.buf.subrange(1, 1537);
            let m1 = ComplexServerModel { buf: m.buf.skip(1537), c1_timestamp: be32_at(c1), ..m };
            match found_digest(c1, client_key_first_half()) {
                Err(e) => (m1, Err(HandshakeError { value: HandshakeErrorValue::DigestError(e) })),
                Ok((d, _v)) => complex_write(
                    ComplexServerModel {
                        c1_digest: d,
                        state: ServerHandshakeState::WriteS0S1S2,
                        ..m1
                    },
                    t1,
                    r1,
                    t2,
                    r2,
                ),
            }
        },
        ServerHandshakeState::WriteS0S1S2 => complex_write(m, t1, r1, t2, r2),
        ServerHandshakeState::ReadC2 => if m.buf.len() < 1536 {
            (m, Err(handshake_read_failed()))
        } else {
            (
                ComplexServerModel {
                    buf: m.buf.skip(1536),
                    state: ServerHandshakeState::Finish,
                    ..m
                },
                Ok(()),
            )
        },
        ServerHandshakeState::Finish => (m, Ok(())),
    }
}

pub struct ComplexHandshakeServer {
    reader: BytesReader,
    writer: BytesWriter,
    pub state: ServerHandshakeState,
    c1_digest: Vec<u8>,
    c1_timestamp: u32,
}

impl View for ComplexHandshakeServer {
    type V = ComplexServerModel;

    closed spec fn view(&self) -> ComplexServerModel {
        ComplexServerModel {
            buf: self.reader@,
            out: self.writer@,
            state: self.state,
            c1_digest: self.c1_digest@,
            c1_timestamp: self.c1_timestamp,
        }
    }
}

fn digest_error(e: crate::handshake::errors::DigestError) -> (r: HandshakeError)
    ensures
        r == (HandshakeError { value: HandshakeErrorValue::DigestError(e) }),
{
    HandshakeError { value: HandshakeErrorValue::DigestError(e) }
}

impl ComplexHandshakeServer {
    pub fn new() -> (s: Self)
        ensures
            s@ == (ComplexServerModel {
                buf: Seq::empty(),
                out: Seq::empty(),
                state: ServerHandshakeState::ReadC0C1,
                c1_digest: Seq::empty(),
                c1_timestamp: 0,
            }),
    {
        Self {
            reader: BytesReader::new(Vec::new()),
            writer: BytesWriter::new(),
            state: ServerHandshakeState::ReadC0C1,
            c1_digest: Vec::new(),
            c1_timestamp: 0,
        }
    }

    pub fn extend_data(&mut self, data: &[u8])
        ensures
            final(self)@ == (ComplexServerModel { buf: old(self)@.buf + data@, ..old(self)@ }),
    {
        self.reader.extend_from_slice(data);
    }

    pub fn get_remaining_bytes(&self) -> (r: Vec<u8>)
        ensures
            r@ == self@.buf,
    {
        self.reader.get_remaining_bytes()
    }

    pub fn extract_current_bytes(&mut self) -> (r: Vec<u8>)
        ensures
            r@ == old(self)@.out,
            final(self)@ == (ComplexServerModel { out: Seq::empty(), ..old(self)@ }),
    {
        self.writer.extract_current_bytes()
    }

    fn write_s1(&mut self) -> (r: Result<(), HandshakeError>)
        ensures
            r is Ok,
            exists|t: u32, rnd: Seq<u8>|
                rnd.len() == 1528 && final(self)@.out == old(self)@.out + (#[trigger] complex_s1(
                    t,
                    rnd,
                ))->Ok_0,
            final(self)@ == (ComplexServerModel { out: final(self)@.out, ..old(self)@ }),
    {
        let time = current_time();
        let random = random_bytes(RTMP_HANDSHAKE_SIZE - 8);
        let mut writer = BytesWriter::new();
        writer.write_u32_be(time);
        writer.write(rtmp_server_version().as_slice());
        writer.write(random.as_slice());
        let raw = writer.extract_current_bytes();
        assert(raw@ == be32_bytes(time) + server_version() + random@);
        proof {
            lemma_s1_fits(time, random@);
        }
        let mut digest_processor = DigestProcessor::new(raw, rtmp_server_key_first_half());
        let content = match digest_processor.generate_and_fill_digest() {
            Ok(c) => c,
            Err(e) => return Err(digest_error(e)),
        };
        self.writer.write(content.as_slice());
        assert(complex_s1(time, random@)->Ok_0 == content@) by {
            reveal(complex_s1);
        }
        Ok(())
    }

    fn write_s2(&mut self)
        ensures
            exists|t: u32, rnd: Seq<u8>|
                rnd.len() == 1528 && final(self)@.out == old(self)@.out + #[trigger] complex_s2(
                    t,
                    rnd,
                    old(self)@.c1_timestamp,
                    old(self)@.c1_digest,
                ),
            final(self)@ == (ComplexServerModel { out: final(self)@.out, ..old(self)@ }),
    {
        let time = current_time();
        let random = random_bytes(RTMP_HANDSHAKE_SIZE - 8);
        let mut writer = BytesWriter::new();
        writer.write_u32_be(time);
        writer.write_u32_be(self.c1_timestamp);
        writer.write(random.as_slice());
        let raw = writer.extract_current_bytes();
        let key_processor = DigestProcessor::new(Vec::new(), rtmp_server_key());
        let c1_digest = self.c1_digest.clone();
        assert(c1_digest@ =~= self.c1_digest@);
        let tmp_key = match key_processor.make_digest(c1_digest) {
            Ok(k) => k,
            Err(_) => Vec::new(),
        };
        let mut data: Vec<u8> = Vec::new();
        let mut i: usize = 0;
        while i < 1504
            invariant
                i <= 1504,
                raw@.len() == 1536,
                data@ == raw@.take(i as int),
            decreases 1504 - i,
        {
            data.push(raw[i]);
            i = i + 1;
            assert(raw@.take(i as int) =~= raw@.take(i - 1).push(raw@[i - 1]));
        }
        let digest_processor = DigestProcessor::new(Vec::new(), tmp_key);
        let data_copy = data.clone();
        assert(data_copy@ =~= data@);
        let digest = match digest_processor.make_digest(data_copy) {
            Ok(d) => d,
            Err(_) => Vec::new(),
        };
        self.writer.write(data.as_slice());
        self.writer.write(digest.as_slice());
        proof {
            assert(raw@ =~= be32_bytes(time) + be32_bytes(self.c1_timestamp) + random@);
            reveal(complex_s2);
            assert(self@.out =~= old(self)@.out + complex_s2(
                time,
                random@,
                self.c1_timestamp,
                self.c1_digest@,
            ));
        }
    }
    fn write_s0s1s2(&mut self) -> (r: Result<(), HandshakeError>)
        requires
            old(self).state == ServerHandshakeState::WriteS0S1S2,
        ensures
            exists|t1: u32, r1: Seq<u8>, t2: u32, r2: Seq<u8>|
                r1.len() == 1528 && r2.len() == 1528 && #[trigger] complex_write(
                    old(self)@,
                    t1,
                    r1,
                    t2,
                    r2,
                ) == (final(self)@, r),
    {
        let ghost m0 = self@;
        self.writer.write_u8(RTMP_VERSION);
        let ghost m1 = self@;
        let r1 = self.write_s1();
        let ghost m2 = self@;
        self.write_s2();
        self.state = ServerHandshakeState::ReadC2;
        proof {
            let (t1, rnd1) = choose|t: u32, rnd: Seq<u8>|
                rnd.len() == 1528 && m2.out == m1.out + (#[trigger] complex_s1(t, rnd))->Ok_0;
            let (t2, rnd2) = choose|t: u32, rnd: Seq<u8>|
                rnd.len() == 1528 && self@.out == m2.out + #[trigger] complex_s2(
                    t,
                    rnd,
                    m2.c1_timestamp,
                    m2.c1_digest,
                );
            lemma_s1_fits(t1, rnd1);
            let s1 = complex_s1(t1, rnd1)->Ok_0;
            let s2 = complex_s2(t2, rnd2, m0.c1_timestamp, m0.c1_digest);
            assert(m1.out =~= m0.out + seq![RTMP_VERSION]);
            assert(self@.out =~= m0.out + seq![RTMP_VERSION] + s1 + s2);
            assert(complex_write(m0, t1, rnd1, t2, rnd2).0 == self@);
        }
        Ok(())
    }

    /// Runs the digest handshake as far as the received bytes allow.
    pub fn handshake(&mut self) -> (r: Result<(), HandshakeError>)
        ensures
            exists|t1: u32, r1: Seq<u8>, t2: u32, r2: Seq<u8>|
                r1.len() == 1528 && r2.len() == 1528 && #[trigger] complex_server_handshake(
                    old(self)@,
                    t1,
                    r1,
                    t2,
                    r2,
                ) == (final(self)@, r),
    {
        let ghost m0 = self@;
        let ghost z = Seq::new(1528, |i: int| 0u8);
        match self.state {
            ServerHandshakeState::ReadC0C1 => {
                match self.reader.read_u8() {
                    Ok(_) => {},
                    Err(e) => {
                        assert(complex_server_handshake(m0, 0, z, 0, z) == (
                            self@,
                            Err::<(), HandshakeError>(handshake_read_failed()),
                        ));
                        return Err(read_error(e));
                    },
                }
                let c1_bytes = match self.reader.read_bytes(RTMP_HANDSHAKE_SIZE) {
                    Ok(v) => v,
                    Err(e) => {
                        assert(self@.buf =~= m0.buf.skip(1));
                        assert(complex_server_handshake(m0, 0, z, 0, z) == (
                            self@,
                            Err::<(), HandshakeError>(handshake_read_failed()),
                        ));
                        return Err(read_error(e));
                    },
                };
                proof {
                    assert(m0.buf.skip(1).subrange(0, 1536) =~= m0.buf.subrange(1, 1537));
                    assert(m0.buf.skip(1).subrange(1536, m0.buf.len() - 1) =~= m0.buf.skip(1537));
                }
                let c1_copy = c1_bytes.clone();
                assert(c1_copy@ =~= c1_bytes@);
                let mut reader = BytesReader::new(c1_copy);
                self.c1_timestamp = match reader.read_u32_be() {
                    Ok(v) => v,
                    Err(e) => return Err(read_error(e)),
                };
                let mut digest_processor = DigestProcessor::new(
                    c1_bytes,
                    rtmp_client_key_first_half(),
                );
                match digest_processor.read_digest() {
                    Ok((digest_content, _)) => {
                        self.c1_digest = digest_content;
                    },
                    Err(e) => {
                        assert(complex_server_handshake(m0, 0, z, 0, z) == (
                            self@,
                            Err::<(), HandshakeError>(
                                HandshakeError { value: HandshakeErrorValue::DigestError(e) },
                            ),
                        ));
                        return Err(digest_error(e));
                    },
                }
                self.state = ServerHandshakeState::WriteS0S1S2;
                let ghost mid = self@;
                let r = self.write_s0s1s2();
                proof {
                    let (t1, r1, t2, r2) = choose|t1: u32, r1: Seq<u8>, t2: u32, r2: Seq<u8>|
                        r1.len() == 1528 && r2.len() == 1528 && #[trigger] complex_write(
                            mid,
                            t1,
                            r1,
                            t2,
                            r2,
                        ) == (self@, r);
                    assert(complex_server_handshake(m0, t1, r1, t2, r2) == (self@, r));
                }
                r
            },
            ServerHandshakeState::WriteS0S1S2 => {
                let r = self.write_s0s1s2();
                proof {
                    let (t1, r1, t2, r2) = choose|t1: u32, r1: Seq<u8>, t2: u32, r2: Seq<u8>|
                        r1.len() == 1528 && r2.len() == 1528 && #[trigger] complex_write(
                            m0,
                            t1,
                            r1,
                            t2,
                            r2,
                        ) == (self@, r);
                    assert(complex_server_handshake(m0, t1, r1, t2, r2) == (self@, r));
                }
                r
            },
            ServerHandshakeState::ReadC2 => {
                match self.reader.read_bytes(RTMP_HANDSHAKE_SIZE) {
                    Ok(_) => {},
                    Err(e) => {
                        assert(complex_server_handshake(m0, 0, z, 0, z) == (
                            self@,
                            Err::<(), HandshakeError>(handshake_read_failed()),
                        ));
                        return Err(read_error(e));
                    },
                }
                self.state = ServerHandshakeState::Finish;
                assert(complex_server_handshake(m0, 0, z, 0, z) == (
                    self@,
                    Ok::<(), HandshakeError>(()),
                ));
                Ok(())
            },
            ServerHandshakeState::Finish => {
                assert(complex_server_handshake(m0, 0, z, 0, z) == (
                    self@,
                    Ok::<(), HandshakeError>(()),
                ));
                Ok(())
            },
        }
    }
}

// ---------------------------------------------------------------------
// Digest handshake with fallback to the plain one
// ---------------------------------------------------------------------
/// Mathematical model of a `HandshakeServer`.
pub struct HandshakeServerModel {
    pub simple: SimpleServerModel,
    pub complex: ComplexServerModel,
    pub is_complex: bool,
    /// Everything received while the digest handshake was tried.
    pub saved: Seq<u8>,
}

/// One call of `handshake`: the digest handshake while it has not failed;
/// when it fails, the plain handshake from the start, on everything
/// received so far.
pub open spec fn server_handshake(
    m: HandshakeServerModel,
    t1: u32,
    r1: Seq<u8>,
    t2: u32,
    r2: Seq<u8>,
    t: u32,
    r: Seq<u8>,
) -> (HandshakeServerModel, Result<(), HandshakeError>) {
    if m.is_complex {
        let (c, rc) = complex_server_handshake(m.complex, t1, r1, t2, r2);
        if rc is Ok {
            (HandshakeServerModel { complex: c, ..m }, rc)
        } else {
            let s0 = SimpleServerModel { buf: m.simple.buf + m.saved, ..m.simple };
            let (s, rs) = simple_server_handshake(s0, t, r);
            (HandshakeServerModel { complex: c, simple: s, is_complex: false, ..m }, rs)
        }
    } else {
        let (s, rs) = simple_server_handshake(m.simple, t, r);
        (HandshakeServerModel { simple: s, ..m }, rs)
    }
}

/// Tries the digest handshake and falls back to the plain one.
pub struct HandshakeServer {
    simple_handshaker: SimpleHandshakeServer,
    complex_handshaker: ComplexHandshakeServer,
    is_complex: bool,
    saved_data: Vec<u8>,
}

impl View for HandshakeServer {
    type V = HandshakeServerModel;

    closed spec fn view(&self) -> HandshakeServerModel {
        HandshakeServerModel {
            simple: self.simple_handshaker@,
            complex: self.complex_handshaker@,
            is_complex: self.is_complex,
            saved: self.saved_data@,
        }
    }
}

impl HandshakeServer {
    pub fn new() -> (s: Self)
        ensures
            s@.simple == (SimpleServerModel {
                buf: Seq::empty(),
                out: Seq::empty(),
                state: ServerHandshakeState::ReadC0C1,
                c1: Seq::empty(),
                c1_timestamp: 0,
            }),
            s@.complex == (ComplexServerModel {
                buf: Seq::empty(),
                out: Seq::empty(),
                state: ServerHandshakeState::ReadC0C1,
                c1_digest: Seq::empty(),
                c1_timestamp: 0,
            }),
            s@.is_complex,
            s@.saved == Seq::<u8>::empty(),
    {
        Self {
            simple_handshaker: SimpleHandshakeServer::new(),
            complex_handshaker: ComplexHandshakeServer::new(),
            is_complex: true,
            saved_data: Vec::new(),
        }
    }

    /// Hands received bytes to the handshake in use; while it is the
    /// digest one, they are kept too.
    pub fn extend_data(&mut self, data: &[u8])
        ensures
            old(self)@.is_complex ==> final(self)@ == (HandshakeServerModel {
                complex: ComplexServerModel {
                    buf: old(self)@.complex.buf + data@,
                    ..old(self)@.complex
                },
                saved: old(self)@.saved + data@,
                ..old(self)@
            }),
            !old(self)@.is_complex ==> final(self)@ == (HandshakeServerModel {
                simple: SimpleServerModel { buf: old(self)@.simple.buf + data@, ..old(self)@.simple },
                ..old(self)@
            }),
    {
        if self.is_complex {
            self.complex_handshaker.extend_data(data);
            let mut more = crate::bytes_io::concat_bytes(self.saved_data.as_slice(), data);
            std::mem::swap(&mut more, &mut self.saved_data);
        } else {
            self.simple_handshaker.extend_data(data);
        }
    }

    /// The state of the handshake in use.
    pub fn state(&self) -> (s: ServerHandshakeState)
        ensures
            s == if self@.is_complex {
                self@.complex.state
            } else {
                self@.simple.state
            },
    {
        if self.is_complex {
            self.complex_handshaker.state
        } else {
            self.simple_handshaker.state
        }
    }

    /// The received bytes the handshake in use has not read: those that
    /// follow C2.
    pub fn get_remaining_bytes(&self) -> (r: Vec<u8>)
        ensures
            r@ == if self@.is_complex {
                self@.complex.buf
            } else {
                self@.simple.buf
            },
    {
        if self.is_complex {
            self.complex_handshaker.get_remaining_bytes()
        } else {
            self.simple_handshaker.get_remaining_bytes()
        }
    }

    /// Takes what both handshakes wrote, to be sent to the client.
    pub fn extract_current_bytes(&mut self) -> (r: Vec<u8>)
        ensures
            r@ == old(self)@.complex.out + old(self)@.simple.out,
            final(self)@ == (HandshakeServerModel {
                complex: ComplexServerModel { out: Seq::empty(), ..old(self)@.complex },
                simple: SimpleServerModel { out: Seq::empty(), ..old(self)@.simple },
                ..old(self)@
            }),
    {
        let a = self.complex_handshaker.extract_current_bytes();
        let b = self.simple_handshaker.extract_current_bytes();
        crate::bytes_io::concat_bytes(a.as_slice(), b.as_slice())
    }

    /// Runs the handshake as far as the received bytes allow.
    pub fn handshake(&mut self) -> (r: Result<(), HandshakeError>)
        ensures
            exists|t1: u32, r1: Seq<u8>, t2: u32, r2: Seq<u8>, t: u32, rr: Seq<u8>|
                r1.len() == 1528 && r2.len() == 1528 && rr.len() == 1528 && #[trigger] server_handshake(
                    old(self)@,
                    t1,
                    r1,
                    t2,
                    r2,
                    t,
                    rr,
                ) == (final(self)@, r),
    {
        let ghost m0 = self@;
        let ghost z = Seq::new(1528, |i: int| 0u8);
        if self.is_complex {
            let result = self.complex_handshaker.handshake();
            let ghost (t1, r1, t2, r2) = choose|t1: u32, r1: Seq<u8>, t2: u32, r2: Seq<u8>|
                r1.len() == 1528 && r2.len() == 1528 && #[trigger] complex_server_handshake(
                    m0.complex,
                    t1,
                    r1,
                    t2,
                    r2,
                ) == (self@.complex, result);
            match result {
                Ok(_) => {
                    assert(server_handshake(m0, t1, r1, t2, r2, 0, z) == (
                        self@,
                        Ok::<(), HandshakeError>(()),
                    ));
                    Ok(())
                },
                Err(_) => {
                    self.is_complex = false;
                    let data = self.saved_data.clone();
                    assert(data@ =~= self.saved_data@);
                    self.extend_data(data.as_slice());
                    let rs = self.simple_handshaker.handshake();
                    proof {
                        let (t, rr) = choose|t: u32, rr: Seq<u8>|
                            rr.len() == 1528 && #[trigger] simple_server_handshake(
                                SimpleServerModel { buf: m0.simple.buf + m0.saved, ..m0.simple },
                                t,
                                rr,
                            ) == (self@.simple, rs);
                        assert(server_handshake(m0, t1, r1, t2, r2, t, rr) == (self@, rs));
                    }
                    rs
                },
            }
        } else {
            let rs = self.simple_handshaker.handshake();
            proof {
                let (t, rr) = choose|t: u32, rr: Seq<u8>|
                    rr.len() == 1528 && #[trigger] simple_server_handshake(m0.simple, t, rr) == (
                        self@.simple,
                        rs,
                    );
                assert(server_handshake(m0, 0, z, 0, z, t, rr) == (self@, rs));
            }
            rs
        }
    }
}

} // verus!
