//! AMF0 values, their mathematical model, and the wire grammar that the
//! reader and writer are held to.
use vstd::prelude::*;
use vstd::utf8::*;
use crate::bytes_io::{be16, be24, be32, be64, be16_bytes, be32_bytes, be64_bytes, BytesReadError};

verus! {

pub const NUMBER: u8 = 0x00;
pub const BOOLEAN: u8 = 0x01;
pub const STRING: u8 = 0x02;
pub const OBJECT: u8 = 0x03;
pub const NULL: u8 = 0x05;
pub const ECMA_ARRAY: u8 = 0x08;
pub const OBJECT_END: u8 = 0x09;
pub const LONG_STRING: u8 = 0x0c;

/// An AMF0 value. A number is held as the bit pattern of its IEEE-754
/// double, exactly the eight bytes the wire carries.
#[derive(Debug, PartialEq)]
pub enum Amf0ValueType {
    Number(u64),
    Boolean(bool),
    UTF8String(String),
    Object(UnOrderedMap),
    Null,
    EcmaArray(UnOrderedMap),
    LongUTF8String(String),
    END,
}

/// One named property of an object.
#[derive(Debug, PartialEq)]
pub struct Amf0Object {
    pub key: String,
    pub value: Amf0ValueType,
}

/// Object properties in the order they were first inserted; a key occurs
/// at most once when only `insert` fills the map.
#[derive(Debug, PartialEq)]
pub struct UnOrderedMap {
    pub properties: Vec<Amf0Object>,
}

/// Mathematical model of an AMF0 value.
pub enum Amf0Model {
    Number(u64),
    Boolean(bool),
    Str(Seq<char>),
    Object(Seq<PropModel>),
    Null,
    EcmaArray(Seq<PropModel>),
    LongStr(Seq<char>),
    End,
}

/// Mathematical model of a property.
pub struct PropModel {
    pub key: Seq<char>,
    pub value: Amf0Model,
}

impl Amf0ValueType {
    pub open spec fn model(&self) -> Amf0Model
        decreases self,
    {
        match self {
            Amf0ValueType::Number(n) => Amf0Model::Number(*n),
            Amf0ValueType::Boolean(b) => Amf0Model::Boolean(*b),
            Amf0ValueType::UTF8String(s) => Amf0Model::Str(s@),
            Amf0ValueType::Object(m) => Amf0Model::Object(props_model(m.properties@)),
            Amf0ValueType::Null => Amf0Model::Null,
            Amf0ValueType::EcmaArray(m) => Amf0Model::EcmaArray(props_model(m.properties@)),
            Amf0ValueType::LongUTF8String(s) => Amf0Model::LongStr(s@),
            Amf0ValueType::END => Amf0Model::End,
        }
    }
}

pub open spec fn props_model(ps: Seq<Amf0Object>) -> Seq<PropModel>
    decreases ps,
{
    if ps.len() == 0 {
        Seq::empty()
    } else {
        props_model(ps.drop_last()).push(
            PropModel { key: ps.last().key@, value: ps.last().value.model() },
        )
    }
}

impl UnOrderedMap {
    pub open spec fn model(&self) -> Seq<PropModel> {
        props_model(self.properties@)
    }
}

pub proof fn lemma_props_model_len(ps: Seq<Amf0Object>)
    ensures
        props_model(ps).len() == ps.len(),
        forall|i: int|
            0 <= i < ps.len() ==> #[trigger] props_model(ps)[i] == (PropModel {
                key: ps[i].key@,
                value: ps[i].value.model(),
            }),
    decreases ps.len(),
{
    if ps.len() > 0 {
        lemma_props_model_len(ps.drop_last());
    }
}

/// Index of the first property named `k`, or -1.
pub open spec fn key_index(ps: Seq<PropModel>, k: Seq<char>) -> int
    decreases ps.len(),
{
    if ps.len() == 0 {
        -1
    } else if ps[0].key == k {
        0
    } else {
        let i = key_index(ps.drop_first(), k);
        if i < 0 {
            -1
        } else {
            i + 1
        }
    }
}

/// Insertion into an ordered property list: an existing key keeps its
/// place and takes the new value, a new key goes last.
pub open spec fn props_insert(ps: Seq<PropModel>, k: Seq<char>, v: Amf0Model) -> Seq<PropModel> {
    let i = key_index(ps, k);
    if i < 0 {
        ps.push(PropModel { key: k, value: v })
    } else {
        ps.update(i, PropModel { key: k, value: v })
    }
}

pub proof fn lemma_key_index(ps: Seq<PropModel>, k: Seq<char>)
    ensures
        -1 <= key_index(ps, k) < ps.len(),
        key_index(ps, k) >= 0 ==> ps[key_index(ps, k)].key == k,
        key_index(ps, k) >= 0 ==> forall|j: int| 0 <= j < key_index(ps, k) ==> ps[j].key != k,
        key_index(ps, k) < 0 ==> forall|j: int| 0 <= j < ps.len() ==> ps[j].key != k,
    decreases ps.len(),
{
    if ps.len() > 0 {
        lemma_key_index(ps.drop_first(), k);
        assert forall|j: int| 1 <= j < ps.len() implies ps[j] == ps.drop_first()[j - 1] by {}
    }
}


impl UnOrderedMap {
    pub fn new() -> (m: Self)
        ensures
            m.model() == Seq::<PropModel>::empty(),
    {
        UnOrderedMap { properties: Vec::new() }
    }

    /// Sets `key` to `val`. A key already present keeps its place and its
    /// old value is returned; a new key goes last.
    pub fn insert(&mut self, key: String, val: Amf0ValueType) -> (r: Option<Amf0ValueType>)
        ensures
            final(self).model() == props_insert(old(self).model(), key@, val.model()),
            key_index(old(self).model(), key@) < 0 ==> r is None,
            key_index(old(self).model(), key@) >= 0 ==> r is Some && r->Some_0.model() == old(
                self,
            ).model()[key_index(old(self).model(), key@)].value,
    {
        let ghost m0 = self.model();
        proof {
            lemma_props_model_len(self.properties@);
            lemma_key_index(m0, key@);
        }
        let mut i: usize = 0;
        while i < self.properties.len()
            invariant
                i <= self.properties@.len(),
                self.properties@ == old(self).properties@,
                m0 == props_model(self.properties@),
                m0.len() == self.properties@.len(),
                forall|j: int| 0 <= j < i ==> m0[j].key != key@,
                forall|j: int|
                    0 <= j < self.properties@.len() ==> #[trigger] m0[j] == (PropModel {
                        key: self.properties@[j].key@,
                        value: self.properties@[j].value.model(),
                    }),
            decreases self.properties.len() - i,
        {
            if self.properties[i].key == key {
                proof {
                    lemma_key_index(m0, key@);
                    assert(m0[i as int].key == key@);
                    let k = key_index(m0, key@);
                    if k < 0 {
                        assert(m0[i as int].key == key@);
                    } else if k < i {
                    } else if k > i {
                        assert(m0[i as int].key == key@);
                    }
                    assert(k == i);
                }
                let ghost old_props = self.properties@;
                let old_obj = self.properties.remove(i);
                self.properties.insert(i, Amf0Object { key, value: val });
                proof {
                    let new_props = self.properties@;
                    assert(new_props =~= old_props.update(
                        i as int,
                        Amf0Object { key: key, value: val },
                    ));
                    lemma_props_model_len(new_props);
                    assert(props_model(new_props) =~= m0.update(
                        i as int,
                        PropModel { key: key@, value: val.model() },
                    ));
                }
                return Some(old_obj.value);
            }
            i = i + 1;
        }
        proof {
            assert(key_index(m0, key@) < 0);
        }
        let ghost old_props = self.properties@;
        self.properties.push(Amf0Object { key, value: val });
        proof {
            assert(self.properties@.drop_last() =~= old_props);
        }
        None
    }

    /// The value held under `key`, if any.
    pub fn get_by_key(&self, key: &String) -> (r: Option<&Amf0ValueType>)
        ensures
            key_index(self.model(), key@) < 0 ==> r is None,
            key_index(self.model(), key@) >= 0 ==> r is Some && r->Some_0.model()
                == self.model()[key_index(self.model(), key@)].value,
    {
        let ghost m0 = self.model();
        proof {
            lemma_props_model_len(self.properties@);
            lemma_key_index(m0, key@);
        }
        let mut i: usize = 0;
        while i < self.properties.len()
            invariant
                i <= self.properties@.len(),
                m0 == props_model(self.properties@),
                m0.len() == self.properties@.len(),
                forall|j: int| 0 <= j < i ==> m0[j].key != key@,
                forall|j: int|
                    0 <= j < self.properties@.len() ==> #[trigger] m0[j] == (PropModel {
                        key: self.properties@[j].key@,
                        value: self.properties@[j].value.model(),
                    }),
            decreases self.properties.len() - i,
        {
            if self.properties[i].key == *key {
                proof {
                    lemma_key_index(m0, key@);
                    assert(m0[i as int].key == key@);
                    let k = key_index(m0, key@);
                    if k < 0 {
                        assert(m0[i as int].key == key@);
                    } else if k > i {
                        assert(m0[i as int].key == key@);
                    }
                }
                return Some(&self.properties[i].value);
            }
            i = i + 1;
        }
        None
    }

    pub fn len(&self) -> (n: usize)
        ensures
            n == self.model().len(),
    {
        proof {
            lemma_props_model_len(self.properties@);
        }
        self.properties.len()
    }
}

/// Errors of the reader.
#[derive(Debug, Clone, PartialEq)]
pub enum Amf0ReadErrorValue {
    UnknownMarker { marker: u8 },
    UnexpectedEmptyObjectPropertyName,
    UnexpectedEof,
    StringParseError,
    BytesReadError(BytesReadError),
    WrongType,
}

#[derive(Debug, Clone, PartialEq)]
pub struct Amf0ReadError {
    pub value: Amf0ReadErrorValue,
}

/// Errors of the writer.
#[derive(Debug, Clone, PartialEq)]
pub enum Amf0WriteErrorValue {
    NormalStringTooLong,
}

#[derive(Debug, Clone, PartialEq)]
pub struct Amf0WriteError {
    pub value: Amf0WriteErrorValue,
}

pub open spec fn not_enough() -> Amf0ReadErrorValue {
    Amf0ReadErrorValue::BytesReadError(BytesReadError::NotEnoughBytes)
}

/* ------------------------------------------------------------------ */
/* Reading: the grammar, as a function from bytes to (value, consumed). */

/// A length-prefixed UTF-8 string: a big-endian length of `width` bytes,
/// then that many bytes of UTF-8.
pub open spec fn parse_string_body(s: Seq<u8>, width: int) -> Result<(Seq<char>, int), Amf0ReadErrorValue> {
    if s.len() < width {
        Err(not_enough())
    } else {
        let l = if width == 2 { be16(s[0], s[1]) } else { be32(s[0], s[1], s[2], s[3]) };
        if s.len() - width < l {
            Err(not_enough())
        } else {
            let bytes = s.subrange(width, width + l);
            if !valid_utf8(bytes) {
                Err(Amf0ReadErrorValue::StringParseError)
            } else {
                Ok((decode_utf8(bytes), width + l))
            }
        }
    }
}

/// Checks for the object end marker `00 00 09`: `Ok(true)` consumes it.
pub open spec fn parse_object_eof(s: Seq<u8>) -> Result<bool, Amf0ReadErrorValue> {
    if s.len() < 3 {
        Err(not_enough())
    } else {
        Ok(be24(s[0], s[1], s[2]) == 9)
    }
}

/// Reads any value. An empty input and the object end marker both read as
/// `End`; an ECMA array reads as an object.
pub open spec fn parse_any(s: Seq<u8>) -> Result<(Amf0Model, int), Amf0ReadErrorValue>
    decreases s.len(), 1int,
{
    if s.len() == 0 {
        Ok((Amf0Model::End, 0))
    } else {
        let m = s[0];
        let rest = s.subrange(1, s.len() as int);
        if m == OBJECT_END {
            Ok((Amf0Model::End, 1))
        } else if m == NUMBER {
            if rest.len() < 8 {
                Err(not_enough())
            } else {
                Ok((Amf0Model::Number(be64(rest) as u64), 9))
            }
        } else if m == BOOLEAN {
            if rest.len() < 1 {
                Err(not_enough())
            } else {
                Ok((Amf0Model::Boolean(rest[0] == 1), 2))
            }
        } else if m == STRING {
            match parse_string_body(rest, 2) {
                Ok((cs, n)) => Ok((Amf0Model::Str(cs), n + 1)),
                Err(e) => Err(e),
            }
        } else if m == OBJECT {
            shift(parse_object_body(rest), 1)
        } else if m == NULL {
            Ok((Amf0Model::Null, 1))
        } else if m == ECMA_ARRAY {
            shift(parse_ecma_body(rest), 1)
        } else if m == LONG_STRING {
            match parse_string_body(rest, 4) {
                Ok((cs, n)) => Ok((Amf0Model::LongStr(cs), n + 1)),
                Err(e) => Err(e),
            }
        } else {
            Err(Amf0ReadErrorValue::UnknownMarker { marker: m })
        }
    }
}

/// An object after its marker: properties up to `00 00 09`.
pub open spec fn parse_object_body(s: Seq<u8>) -> Result<(Amf0Model, int), Amf0ReadErrorValue>
    decreases s.len(), 3int,
{
    match parse_props(s, Seq::empty()) {
        Ok((ps, n)) => Ok((Amf0Model::Object(ps), n)),
        Err(e) => Err(e),
    }
}

/// An ECMA array after its marker: a 32-bit count, that many properties,
/// and an optional `00 00 09`. It reads as an object.
pub open spec fn parse_ecma_body(s: Seq<u8>) -> Result<(Amf0Model, int), Amf0ReadErrorValue>
    decreases s.len(), 3int,
{
    if s.len() < 4 {
        Err(not_enough())
    } else {
        let count = be32(s[0], s[1], s[2], s[3]);
        match parse_counted_props(s.subrange(4, s.len() as int), count, Seq::empty()) {
            Ok((ps, n)) => {
                if n < 0 || n > s.len() - 4 {
                    Err(not_enough())
                } else {
                    match parse_object_eof(s.subrange(4 + n, s.len() as int)) {
                        Ok(eof) => Ok((Amf0Model::Object(ps), 4 + n + if eof { 3int } else { 0int })),
                        Err(e) => Err(e),
                    }
                }
            },
            Err(e) => Err(e),
        }
    }
}

/// Adds `k` to the byte count of a successful result.
pub open spec fn shift<T>(r: Result<(T, int), Amf0ReadErrorValue>, k: int) -> Result<(T, int), Amf0ReadErrorValue> {
    match r {
        Ok((v, n)) => Ok((v, n + k)),
        Err(e) => Err(e),
    }
}

/// One property: a key string, then a value.
pub open spec fn parse_prop(s: Seq<u8>) -> Result<(PropModel, int), Amf0ReadErrorValue>
    decreases s.len(), 0int,
{
    match parse_string_body(s, 2) {
        Err(e) => Err(e),
        Ok((k, n1)) => {
            if n1 < 1 || n1 > s.len() {
                Err(not_enough())
            } else {
                match parse_any(s.subrange(n1, s.len() as int)) {
                    Err(e) => Err(e),
                    Ok((v, n2)) => Ok((PropModel { key: k, value: v }, n1 + n2)),
                }
            }
        },
    }
}

/// Properties up to the object end marker, inserted into `acc`.
pub open spec fn parse_props(s: Seq<u8>, acc: Seq<PropModel>) -> Result<(Seq<PropModel>, int), Amf0ReadErrorValue>
    decreases s.len(), 2int,
{
    match parse_object_eof(s) {
        Err(e) => Err(e),
        Ok(true) => Ok((acc, 3)),
        Ok(false) => match parse_prop(s) {
            Err(e) => Err(e),
            Ok((p, n)) => {
                if n < 1 || n > s.len() {
                    Err(not_enough())
                } else {
                    match parse_props(s.subrange(n, s.len() as int), props_insert(acc, p.key, p.value)) {
                        Err(e) => Err(e),
                        Ok((ps, m)) => Ok((ps, n + m)),
                    }
                }
            },
        },
    }
}

/// Exactly `count` properties, inserted into `acc`.
pub open spec fn parse_counted_props(s: Seq<u8>, count: int, acc: Seq<PropModel>) -> Result<(Seq<PropModel>, int), Amf0ReadErrorValue>
    decreases s.len(), 2int, count,
{
    if count <= 0 {
        Ok((acc, 0))
    } else {
        match parse_prop(s) {
            Err(e) => Err(e),
            Ok((p, n)) => {
                if n < 1 || n > s.len() {
                    Err(not_enough())
                } else {
                    match parse_counted_props(s.subrange(n, s.len() as int), count - 1, props_insert(acc, p.key, p.value)) {
                        Err(e) => Err(e),
                        Ok((ps, m)) => Ok((ps, n + m)),
                    }
                }
            },
        }
    }
}

/// Values up to the first `End`, with the bytes they take (the `End`
/// marker, when there is one, included).
pub open spec fn parse_all(s: Seq<u8>) -> Result<(Seq<Amf0Model>, int), Amf0ReadErrorValue>
    decreases s.len(),
{
    match parse_any(s) {
        Err(e) => Err(e),
        Ok((Amf0Model::End, n)) => Ok((Seq::empty(), n)),
        Ok((v, n)) => {
            if n < 1 || n > s.len() {
                Err(not_enough())
            } else {
                match parse_all(s.subrange(n, s.len() as int)) {
                    Err(e) => Err(e),
                    Ok((vs, m)) => Ok((seq![v].add(vs), n + m)),
                }
            }
        },
    }
}

/* ------------------------------------------------------------------ */
/* Writing: the bytes a value is written as, and whether writing ends   */
/* without error (a short string longer than 65535 bytes is refused,    */
/* after what came before it was written).                              */

pub open spec fn encode_any(m: Amf0Model) -> (Seq<u8>, bool)
    decreases m, 1int,
{
    match m {
        Amf0Model::Number(bits) => (seq![NUMBER] + be64_bytes(bits), true),
        Amf0Model::Boolean(b) => (seq![BOOLEAN, if b { 1u8 } else { 0u8 }], true),
        Amf0Model::Str(cs) => {
            let bytes = encode_utf8(cs);
            if bytes.len() > 65535 {
                (Seq::empty(), false)
            } else {
                (seq![STRING] + be16_bytes(bytes.len() as u16) + bytes, true)
            }
        },
        Amf0Model::Object(ps) => {
            let (body, ok) = encode_props(ps);
            if ok {
                (seq![OBJECT] + body + seq![0u8, 0u8, 9u8], true)
            } else {
                (seq![OBJECT] + body, false)
            }
        },
        Amf0Model::Null => (seq![NULL], true),
        Amf0Model::EcmaArray(ps) => {
            let (body, ok) = encode_props(ps);
            let head = seq![ECMA_ARRAY] + be32_bytes((ps.len() % 4294967296) as u32);
            if ok {
                (head + body + seq![0u8, 0u8, 9u8], true)
            } else {
                (head + body, false)
            }
        },
        Amf0Model::LongStr(_) => (Seq::empty(), true),
        Amf0Model::End => (Seq::empty(), true),
    }
}

/// Each property as its key (length truncated to 16 bits, then the key's
/// bytes) followed by its value.
pub open spec fn encode_props(ps: Seq<PropModel>) -> (Seq<u8>, bool)
    decreases ps, 0int,
{
    if ps.len() == 0 {
        (Seq::empty(), true)
    } else {
        let (front, ok) = encode_props(ps.drop_last());
        if !ok {
            (front, false)
        } else {
            let p = ps.last();
            let kb = encode_utf8(p.key);
            let (vb, vok) = encode_any(p.value);
            (front + be16_bytes((kb.len() % 65536) as u16) + kb + vb, vok)
        }
    }
}

} // verus!
