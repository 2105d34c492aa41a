//! The digest of the RTMP digest handshake. A 1536-byte C1/S1 carries a
//! 32-byte HMAC-SHA256 at an offset computed from four of its own bytes:
//!
//! ```text
//!   +--------------+------------------------+--------------------+
//!   |   left part  | digest data (32 bytes) |     right part     |
//!   +--------------+------------------------+--------------------+
//!                  |
//!                  digest offset
//! ```
//!
//! The digest is the MAC of the left and right parts joined.
use vstd::prelude::*;
use crate::bytes_io::{BytesReader, BytesReadError, concat_bytes, bytes_equal};
use crate::handshake::define::{SchemaVersion, RTMP_DIGEST_LENGTH};
use crate::handshake::errors::{DigestError, DigestErrorValue, HandshakeError, HandshakeErrorValue};
use crate::wrappers::{hmac_sha256, hmac_sha256_digest};

verus! {

pub open spec fn index_error() -> DigestError {
    DigestError { value: DigestErrorValue::BytesReadError(BytesReadError::IndexOutOfRange) }
}

pub open spec fn short_error() -> DigestError {
    DigestError { value: DigestErrorValue::BytesReadError(BytesReadError::NotEnoughBytes) }
}

/// Schema 0 keeps the digest in the second 764-byte block: its offset is
/// the sum of bytes 772..776 modulo 728, counted from byte 776. Schema 1
/// keeps it in the first block: bytes 8..12, counted from byte 12.
pub open spec fn digest_offset(data: Seq<u8>, version: SchemaVersion) -> Result<int, DigestError> {
    match version {
        SchemaVersion::Schema0 => if data.len() < 776 {
            Err(index_error())
        } else {
            Ok((data[772] + data[773] + data[774] + data[775]) % 728 + 776)
        },
        SchemaVersion::Schema1 => if data.len() < 12 {
            Err(index_error())
        } else {
            Ok((data[8] + data[9] + data[10] + data[11]) % 728 + 12)
        },
        SchemaVersion::Unknown => Err(DigestError { value: DigestErrorValue::UnknowSchema }),
    }
}

/// The left part, the digest and the right part.
pub open spec fn split_message(data: Seq<u8>, version: SchemaVersion) -> Result<
    (Seq<u8>, Seq<u8>, Seq<u8>),
    DigestError,
> {
    match digest_offset(data, version) {
        Err(e) => Err(e),
        Ok(off) => if off + 32 > data.len() {
            Err(short_error())
        } else {
            Ok((data.take(off), data.subrange(off, off + 32), data.skip(off + 32)))
        },
    }
}

/// The digest carried at the schema's offset, if it is the MAC of the
/// rest of the data.
pub open spec fn validated_digest(data: Seq<u8>, key: Seq<u8>, version: SchemaVersion) -> Result<
    Seq<u8>,
    DigestError,
> {
    match split_message(data, version) {
        Err(e) => Err(e),
        Ok((l, d, r)) => if d == hmac_sha256(key, l + r) {
            Ok(d)
        } else {
            Err(DigestError { value: DigestErrorValue::CannotGenerate })
        },
    }
}

/// The valid digest of the data and its schema, schema 0 tried first.
pub open spec fn found_digest(data: Seq<u8>, key: Seq<u8>) -> Result<
    (Seq<u8>, SchemaVersion),
    DigestError,
> {
    match validated_digest(data, key, SchemaVersion::Schema0) {
        Ok(d) => Ok((d, SchemaVersion::Schema0)),
        Err(_) => match validated_digest(data, key, SchemaVersion::Schema1) {
            Ok(d) => Ok((d, SchemaVersion::Schema1)),
            Err(e) => Err(e),
        },
    }
}

/// The MAC of the data without its schema 0 digest field.
pub open spec fn generated_digest(data: Seq<u8>, key: Seq<u8>) -> Result<Seq<u8>, DigestError> {
    match split_message(data, SchemaVersion::Schema0) {
        Err(e) => Err(e),
        Ok((l, _d, r)) => Ok(hmac_sha256(key, l + r)),
    }
}

/// The data with its schema 0 digest field replaced by that MAC.
pub open spec fn filled_with_digest(data: Seq<u8>, key: Seq<u8>) -> Result<Seq<u8>, DigestError> {
    match split_message(data, SchemaVersion::Schema0) {
        Err(e) => Err(e),
        Ok((l, _d, r)) => Ok(l + hmac_sha256(key, l + r) + r),
    }
}

/// Computes and checks the digests of a C1 or S1 under a key.
pub struct DigestProcessor {
    reader: BytesReader,
    key: Vec<u8>,
}

impl DigestProcessor {
    /// The data the processor works on.
    pub closed spec fn data(&self) -> Seq<u8> {
        self.reader@
    }

    pub closed spec fn key(&self) -> Seq<u8> {
        self.key@
    }

    pub fn new(data: Vec<u8>, key: Vec<u8>) -> (p: Self)
        ensures
            p.data() == data@,
            p.key() == key@,
    {
        Self { reader: BytesReader::new(data), key }
    }

    fn byte_at(&self, index: usize) -> (r: Result<usize, DigestError>)
        ensures
            index < self.data().len() ==> r == Ok::<usize, DigestError>(self.data()[index as int] as usize),
            index >= self.data().len() ==> r == Err::<usize, DigestError>(index_error()),
    {
        match self.reader.get(index) {
            Ok(b) => Ok(b as usize),
            Err(e) => Err(DigestError { value: DigestErrorValue::BytesReadError(e) }),
        }
    }

    fn find_digest_offset(&self, version: SchemaVersion) -> (r: Result<usize, DigestError>)
        ensures
            match digest_offset(self.data(), version) {
                Ok(n) => r == Ok::<usize, DigestError>(n as usize),
                Err(e) => r == Err::<usize, DigestError>(e),
            },
    {
        let first: usize = match version {
            SchemaVersion::Schema0 => 772,
            SchemaVersion::Schema1 => 8,
            SchemaVersion::Unknown => {
                return Err(DigestError { value: DigestErrorValue::UnknowSchema });
            },
        };
        let mut digest_offset: usize = 0;
        let mut i: usize = 0;
        while i < 4
            invariant
                i <= 4,
                first == 772 || first == 8,
                first == 772 <==> version == SchemaVersion::Schema0,
                version != SchemaVersion::Unknown,
                digest_offset <= 255 * i,
                i > 0 ==> first + i - 1 < self.data().len(),
                i == 4 ==> digest_offset == self.data()[first as int] + self.data()[first + 1]
                    + self.data()[first + 2] + self.data()[first + 3],
                i == 3 ==> digest_offset == self.data()[first as int] + self.data()[first + 1]
                    + self.data()[first + 2],
                i == 2 ==> digest_offset == self.data()[first as int] + self.data()[first + 1],
                i == 1 ==> digest_offset == self.data()[first as int],
                i == 0 ==> digest_offset == 0,
            decreases 4 - i,
        {
            let b = match self.byte_at(first + i) {
                Ok(b) => b,
                Err(e) => return Err(e),
            };
            digest_offset = digest_offset + b;
            i = i + 1;
        }
        digest_offset = digest_offset % 728;
        if first == 772 {
            Ok(digest_offset + 776)
        } else {
            Ok(digest_offset + 12)
        }
    }

    /// The left part, the digest and the right part of the data.
    fn cook_raw_message(&self, version: SchemaVersion) -> (r: Result<
        (Vec<u8>, Vec<u8>, Vec<u8>),
        DigestError,
    >)
        ensures
            match split_message(self.data(), version) {
                Ok((l, d, rt)) => r matches Ok((l2, d2, r2)) && l2@ == l && d2@ == d && r2@ == rt,
                Err(e) => r == Err::<(Vec<u8>, Vec<u8>, Vec<u8>), DigestError>(e),
            },
    {
        let digest_offset = match self.find_digest_offset(version) {
            Ok(n) => n,
            Err(e) => return Err(e),
        };
        let mut new_reader = BytesReader::new(self.reader.get_remaining_bytes());
        let left_part = match new_reader.read_bytes(digest_offset) {
            Ok(v) => v,
            Err(e) => return Err(DigestError { value: DigestErrorValue::BytesReadError(e) }),
        };
        let digest_data = match new_reader.read_bytes(RTMP_DIGEST_LENGTH) {
            Ok(v) => v,
            Err(e) => return Err(DigestError { value: DigestErrorValue::BytesReadError(e) }),
        };
        let right_part = new_reader.extract_remaining_bytes();
        proof {
            let data = self.data();
            let off = digest_offset as int;
            assert(data.subrange(off, data.len() as int).subrange(0, 32) =~= data.subrange(
                off,
                off + 32,
            ));
            assert(data.subrange(off, data.len() as int).subrange(32, data.len() - off)
                =~= data.skip(off + 32));
        }
        Ok((left_part, digest_data, right_part))
    }

    /// The MAC of `raw_message` under the processor's key.
    pub fn make_digest(&self, raw_message: Vec<u8>) -> (r: Result<Vec<u8>, DigestError>)
        ensures
            r matches Ok(d) && d@ == hmac_sha256(self.key(), raw_message@) && d@.len() == 32,
    {
        Ok(hmac_sha256_digest(self.key.as_slice(), raw_message.as_slice()))
    }

    fn generate_and_validate(&self, version: SchemaVersion) -> (r: Result<Vec<u8>, DigestError>)
        ensures
            match validated_digest(self.data(), self.key(), version) {
                Ok(d) => r matches Ok(d2) && d2@ == d,
                Err(e) => r == Err::<Vec<u8>, DigestError>(e),
            },
    {
        let (left_part, digest_data, right_part) = match self.cook_raw_message(version) {
            Ok(parts) => parts,
            Err(e) => return Err(e),
        };
        let raw_message = concat_bytes(left_part.as_slice(), right_part.as_slice());
        let computed_digest = match self.make_digest(raw_message) {
            Ok(d) => d,
            Err(e) => return Err(e),
        };
        if bytes_equal(digest_data.as_slice(), computed_digest.as_slice()) {
            return Ok(digest_data);
        }
        Err(DigestError { value: DigestErrorValue::CannotGenerate })
    }

    /// The valid digest of the data and the schema it was found in.
    pub fn read_digest(&mut self) -> (r: Result<(Vec<u8>, SchemaVersion), DigestError>)
        ensures
            final(self).data() == old(self).data(),
            final(self).key() == old(self).key(),
            match found_digest(old(self).data(), old(self).key()) {
                Ok((d, v)) => r matches Ok((d2, v2)) && d2@ == d && v2 == v,
                Err(e) => r == Err::<(Vec<u8>, SchemaVersion), DigestError>(e),
            },
    {
        if let Ok(digest) = self.generate_and_validate(SchemaVersion::Schema0) {
            return Ok((digest, SchemaVersion::Schema0));
        }
        match self.generate_and_validate(SchemaVersion::Schema1) {
            Ok(digest) => Ok((digest, SchemaVersion::Schema1)),
            Err(e) => Err(e),
        }
    }

    /// The data with its schema 0 digest field filled with the MAC.
    pub fn generate_and_fill_digest(&mut self) -> (r: Result<Vec<u8>, DigestError>)
        ensures
            final(self).data() == old(self).data(),
            final(self).key() == old(self).key(),
            match filled_with_digest(old(self).data(), old(self).key()) {
                Ok(f) => r matches Ok(f2) && f2@ == f,
                Err(e) => r == Err::<Vec<u8>, DigestError>(e),
            },
            r matches Ok(f2) ==> f2@.len() == old(self).data().len(),
    {
        let (left_part, _digest, right_part) = match self.cook_raw_message(SchemaVersion::Schema0) {
            Ok(parts) => parts,
            Err(e) => return Err(e),
        };
        let raw_message = concat_bytes(left_part.as_slice(), right_part.as_slice());
        let computed_digest = match self.make_digest(raw_message) {
            Ok(d) => d,
            Err(e) => return Err(e),
        };
        let head = concat_bytes(left_part.as_slice(), computed_digest.as_slice());
        Ok(concat_bytes(head.as_slice(), right_part.as_slice()))
    }

    /// The MAC of the data without its schema 0 digest field.
    pub fn generate_digest(&mut self) -> (r: Result<Vec<u8>, DigestError>)
        ensures
            final(self).data() == old(self).data(),
            final(self).key() == old(self).key(),
            match generated_digest(old(self).data(), old(self).key()) {
                Ok(d) => r matches Ok(d2) && d2@ == d,
                Err(e) => r == Err::<Vec<u8>, DigestError>(e),
            },
    {
        let (left_part, _digest, right_part) = match self.cook_raw_message(SchemaVersion::Schema0) {
            Ok(parts) => parts,
            Err(e) => return Err(e),
        };
        let raw_message = concat_bytes(left_part.as_slice(), right_part.as_slice());
        self.make_digest(raw_message)
    }
}

/// Law (digest handshake): what `generate_and_fill_digest` writes into a
/// C1/S1 is what `read_digest`, under the same key, finds there: the
/// schema 0 digest, equal to the MAC that was written.
pub proof fn lemma_fill_then_read(data: Seq<u8>, key: Seq<u8>)
    requires
        filled_with_digest(data, key) is Ok,
        generated_digest(data, key) matches Ok(d) && d.len() == 32,
    ensures
        found_digest(filled_with_digest(data, key)->Ok_0, key) == Ok::<
            (Seq<u8>, SchemaVersion),
            DigestError,
        >((generated_digest(data, key)->Ok_0, SchemaVersion::Schema0)),
{
    let (l, _d, r) = split_message(data, SchemaVersion::Schema0)->Ok_0;
    let off = digest_offset(data, SchemaVersion::Schema0)->Ok_0;
    let h = hmac_sha256(key, l + r);
    let out = l + h + r;
    assert(out.len() == data.len());
    assert(out[772] == data[772] && out[773] == data[773] && out[774] == data[774] && out[775]
        == data[775]);
    assert(digest_offset(out, SchemaVersion::Schema0) == Ok::<int, DigestError>(off));
    assert(out.take(off) =~= l);
    assert(out.subrange(off, off + 32) =~= h);
    assert(out.skip(off + 32) =~= r);
}

// ---------------------------------------------------------------------
// The same digest rules on fixed 1536-byte arrays.
// ---------------------------------------------------------------------
/// A C1/S1 cut around its digest field.
pub struct DigestMsg {
    pub left_part: Vec<u8>,
    pub right_part: Vec<u8>,
    pub digest: [u8; 32],
}

/// A digest found in a C1/S1 and the schema it was found in.
pub struct DigestResult {
    pub digest_content: [u8; 32],
    pub version: SchemaVersion,
}

impl DigestResult {
    pub fn new(content: [u8; 32], ver: SchemaVersion) -> (r: DigestResult)
        ensures
            r.digest_content == content,
            r.version == ver,
    {
        DigestResult { digest_content: content, version: ver }
    }
}

/// The digest offset of a schema; 0 for an unknown schema.
pub open spec fn offset_in(data: Seq<u8>, version: SchemaVersion) -> int {
    match version {
        SchemaVersion::Schema0 => (data[772] + data[773] + data[774] + data[775]) % 728 + 776,
        SchemaVersion::Schema1 => (data[8] + data[9] + data[10] + data[11]) % 728 + 12,
        SchemaVersion::Unknown => 0,
    }
}

pub fn find_digest_offset(data: &[u8; 1536], version: &SchemaVersion) -> (r: u32)
    ensures
        r == offset_in(data@, *version),
{
    match version {
        SchemaVersion::Schema0 => {
            ((data[772] as u32) + (data[773] as u32) + (data[774] as u32) + (data[775] as u32))
                % 728 + 776
        },
        SchemaVersion::Schema1 => {
            ((data[8] as u32) + (data[9] as u32) + (data[10] as u32) + (data[11] as u32)) % 728
                + 12
        },
        SchemaVersion::Unknown => 0,
    }
}

fn copy_range(data: &[u8; 1536], start: usize, end: usize) -> (r: Vec<u8>)
    requires
        start <= end <= 1536,
    ensures
        r@ == data@.subrange(start as int, end as int),
{
    let mut r: Vec<u8> = Vec::new();
    let mut i: usize = start;
    while i < end
        invariant
            start <= i <= end <= 1536,
            r@ == data@.subrange(start as int, i as int),
        decreases end - i,
    {
        r.push(data[i]);
        i = i + 1;
        assert(data@.subrange(start as int, i as int) =~= data@.subrange(start as int, i - 1).push(
            data@[i - 1],
        ));
    }
    r
}

/// Cuts a C1/S1 at the digest offset into the left part, the 32-byte
/// digest and the right part.
pub fn cook_handshake_msg(handshake: &[u8; 1536], digest_offset: u32) -> (r: Result<
    DigestMsg,
    HandshakeError,
>)
    requires
        digest_offset + 32 <= 1536,
    ensures
        r matches Ok(m) && m.left_part@ == handshake@.take(digest_offset as int) && m.digest@
            == handshake@.subrange(digest_offset as int, digest_offset + 32) && m.right_part@
            == handshake@.skip(digest_offset + 32),
{
    let off = digest_offset as usize;
    let left_part = copy_range(handshake, 0, off);
    let right_part = copy_range(handshake, off + 32, 1536);
    let mut digest = [0u8; 32];
    let mut i: usize = 0;
    while i < 32
        invariant
            i <= 32,
            off + 32 <= 1536,
            forall|k: int| 0 <= k < i ==> digest@[k] == handshake@[off + k],
        decreases 32 - i,
    {
        digest[i] = handshake[off + i];
        i = i + 1;
    }
    assert(digest@ =~= handshake@.subrange(off as int, off + 32));
    Ok(DigestMsg { left_part, right_part, digest })
}

/// The MAC of `input` under `key`.
pub fn make_digest(input: &[u8], key: &[u8]) -> (r: [u8; 32])
    ensures
        r@ == hmac_sha256(key@, input@),
{
    let array = hmac_sha256_digest(key, input);
    let mut output = [0u8; 32];
    let mut index: usize = 0;
    while index < 32
        invariant
            index <= 32,
            array@.len() == 32,
            forall|k: int| 0 <= k < index ==> output@[k] == array@[k],
        decreases 32 - index,
    {
        output[index] = array[index];
        index = index + 1;
    }
    assert(output@ =~= array@);
    output
}

/// Whether the digest at a schema's offset is the MAC of the rest.
pub open spec fn digest_matches(data: Seq<u8>, key: Seq<u8>, version: SchemaVersion) -> bool {
    let off = offset_in(data, version);
    data.subrange(off, off + 32) == hmac_sha256(key, data.take(off) + data.skip(off + 32))
}

/// The digest of a C1/S1 and its schema, schema 0 tried first; an error
/// when neither schema carries a valid digest.
pub open spec fn digest_search(data: Seq<u8>, key: Seq<u8>) -> Result<
    (Seq<u8>, SchemaVersion),
    HandshakeErrorValue,
> {
    if digest_matches(data, key, SchemaVersion::Schema0) {
        let off = offset_in(data, SchemaVersion::Schema0);
        Ok((data.subrange(off, off + 32), SchemaVersion::Schema0))
    } else if digest_matches(data, key, SchemaVersion::Schema1) {
        let off = offset_in(data, SchemaVersion::Schema1);
        Ok((data.subrange(off, off + 32), SchemaVersion::Schema1))
    } else {
        Err(HandshakeErrorValue::DigestNotFound)
    }
}

/// The digest found in a C1/S1 cut at a schema's offset, given the MAC of
/// the two other parts: found when the MAC equals the digest field.
pub fn check_digest(msg: &DigestMsg, computed: &[u8; 32], version: SchemaVersion) -> (r: Option<
    DigestResult,
>)
    ensures
        computed@ == msg.digest@ ==> (r matches Some(d) && d.digest_content == msg.digest
            && d.version == version),
        computed@ != msg.digest@ ==> r is None,
{
    if bytes_equal(computed.as_slice(), msg.digest.as_slice()) {
        Some(DigestResult::new(msg.digest, version))
    } else {
        None
    }
}

fn check_schema(data: &[u8; 1536], key: &[u8], version: SchemaVersion) -> (r: Option<
    DigestResult,
>)
    requires
        version != SchemaVersion::Unknown,
    ensures
        digest_matches(data@, key@, version) ==> (r matches Some(d) && d.version == version
            && d.digest_content@ == data@.subrange(
            offset_in(data@, version),
            offset_in(data@, version) + 32,
        )),
        !digest_matches(data@, key@, version) ==> r is None,
{
    let digest_offset = find_digest_offset(data, &version);
    let msg = match cook_handshake_msg(data, digest_offset) {
        Ok(m) => m,
        Err(_) => return None,
    };
    let input = concat_bytes(msg.left_part.as_slice(), msg.right_part.as_slice());
    let digest = make_digest(input.as_slice(), key);
    check_digest(&msg, &digest, version)
}

/// Looks for a valid digest in C1/S1, in schema 0, then in schema 1.
pub fn find_digest(data: &[u8; 1536], key: &[u8]) -> (r: Result<DigestResult, HandshakeError>)
    ensures
        match digest_search(data@, key@) {
            Ok((d, v)) => r matches Ok(res) && res.digest_content@ == d && res.version == v,
            Err(e) => r matches Err(err) && err.value == e,
        },
{
    if let Some(res) = check_schema(data, key, SchemaVersion::Schema0) {
        return Ok(res);
    }
    if let Some(res) = check_schema(data, key, SchemaVersion::Schema1) {
        return Ok(res);
    }
    Err(HandshakeError { value: HandshakeErrorValue::DigestNotFound })
}

} // verus!
