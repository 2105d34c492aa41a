//! Reading AMF0 values from a byte buffer.
use vstd::prelude::*;
use crate::bytes_io::{BytesReader, BytesReadError, be32, be64};
use crate::amf0::define::{
    Amf0Model, Amf0ReadError, Amf0ReadErrorValue, Amf0ValueType, PropModel, UnOrderedMap, Amf0Object,
    parse_any, parse_prop, parse_props, parse_counted_props, parse_all, parse_string_body,
    parse_object_eof, parse_object_body, parse_ecma_body, shift, props_insert, not_enough, NUMBER,
    BOOLEAN, STRING, OBJECT, NULL, ECMA_ARRAY, OBJECT_END, LONG_STRING,
};
use crate::wrappers::string_from_utf8;

verus! {

/// `a` is what is left of `b` after some bytes were taken from its front.
pub open spec fn suffix_of(a: Seq<u8>, b: Seq<u8>) -> bool {
    a.len() <= b.len() && a == b.subrange(b.len() - a.len(), b.len() as int)
}

/// The reader went from `s0` to `s1` as the grammar result `spec` says.
pub open spec fn consumed_as<T>(s0: Seq<u8>, s1: Seq<u8>, n: int) -> bool {
    0 <= n <= s0.len() && s1 == s0.subrange(n, s0.len() as int)
}

pub open spec fn value_read_as(
    s0: Seq<u8>,
    s1: Seq<u8>,
    spec: Result<(Amf0Model, int), Amf0ReadErrorValue>,
    r: Result<Amf0ValueType, Amf0ReadError>,
) -> bool {
    match spec {
        Ok((m, n)) => r is Ok && r->Ok_0.model() == m && consumed_as::<()>(s0, s1, n),
        Err(e) => r is Err && r->Err_0.value == e && suffix_of(s1, s0),
    }
}

pub open spec fn props_read_as(
    s0: Seq<u8>,
    s1: Seq<u8>,
    spec: Result<(Seq<PropModel>, int), Amf0ReadErrorValue>,
    r: Result<UnOrderedMap, Amf0ReadError>,
) -> bool {
    match spec {
        Ok((ps, n)) => r is Ok && r->Ok_0.model() == ps && consumed_as::<()>(s0, s1, n),
        Err(e) => r is Err && r->Err_0.value == e && suffix_of(s1, s0),
    }
}

pub proof fn lemma_shift_shift<T>(r: Result<(T, int), Amf0ReadErrorValue>, a: int, b: int)
    ensures
        shift(shift(r, a), b) == shift(r, a + b),
{
}

pub proof fn lemma_string_body_bounds(s: Seq<u8>, width: int)
    requires
        width == 2 || width == 4,
    ensures
        parse_string_body(s, width) matches Ok((_, n)) ==> width <= n <= s.len(),
{
}

/// Every successful parse takes no more bytes than it was given, and only
/// `End` takes none.
pub proof fn lemma_parse_any_bounds(s: Seq<u8>)
    ensures
        parse_any(s) matches Ok((m, n)) ==> 0 <= n <= s.len() && (n == 0 ==> m is End) && (
        !(m is End) ==> n >= 1),
    decreases s.len(), 1int,
{
    if s.len() > 0 {
        let rest = s.subrange(1, s.len() as int);
        lemma_string_body_bounds(rest, 2);
        lemma_string_body_bounds(rest, 4);
        if s[0] == OBJECT {
            lemma_parse_props_bounds(rest, Seq::empty());
        } else if s[0] == ECMA_ARRAY && rest.len() >= 4 {
            let count = be32(rest[0], rest[1], rest[2], rest[3]);
            lemma_parse_counted_props_bounds(rest.subrange(4, rest.len() as int), count, Seq::empty());
        }
        lemma_object_body_bounds(rest);
        lemma_ecma_body_bounds(rest);
    }
}

pub proof fn lemma_object_body_bounds(s: Seq<u8>)
    ensures
        parse_object_body(s) matches Ok((_, n)) ==> 3 <= n <= s.len(),
    decreases s.len(), 3int,
{
    lemma_parse_props_bounds(s, Seq::empty());
}

pub proof fn lemma_ecma_body_bounds(s: Seq<u8>)
    ensures
        parse_ecma_body(s) matches Ok((_, n)) ==> 4 <= n <= s.len(),
    decreases s.len(), 3int,
{
}

pub proof fn lemma_parse_prop_bounds(s: Seq<u8>)
    ensures
        parse_prop(s) matches Ok((_, n)) ==> 2 <= n <= s.len(),
    decreases s.len(), 0int,
{
    lemma_string_body_bounds(s, 2);
    if let Ok((_, n1)) = parse_string_body(s, 2) {
        if n1 >= 1 && n1 <= s.len() {
            lemma_parse_any_bounds(s.subrange(n1, s.len() as int));
        }
    }
}

pub proof fn lemma_parse_props_bounds(s: Seq<u8>, acc: Seq<PropModel>)
    ensures
        parse_props(s, acc) matches Ok((_, n)) ==> 3 <= n <= s.len(),
    decreases s.len(), 2int,
{
    if let Ok(false) = parse_object_eof(s) {
        lemma_parse_prop_bounds(s);
        if let Ok((p, n)) = parse_prop(s) {
            if n >= 1 && n <= s.len() {
                lemma_parse_props_bounds(s.subrange(n, s.len() as int), props_insert(acc, p.key, p.value));
            }
        }
    }
}

pub proof fn lemma_parse_counted_props_bounds(s: Seq<u8>, count: int, acc: Seq<PropModel>)
    ensures
        parse_counted_props(s, count, acc) matches Ok((_, n)) ==> 0 <= n <= s.len(),
    decreases s.len(), 2int, count,
{
    if count > 0 {
        lemma_parse_prop_bounds(s);
        if let Ok((p, n)) = parse_prop(s) {
            if n >= 1 && n <= s.len() {
                lemma_parse_counted_props_bounds(
                    s.subrange(n, s.len() as int),
                    count - 1,
                    props_insert(acc, p.key, p.value),
                );
            }
        }
    }
}

/// Reads AMF0 values off a byte reader.
pub struct Amf0Reader {
    reader: BytesReader,
}

impl View for Amf0Reader {
    type V = Seq<u8>;

    closed spec fn view(&self) -> Seq<u8> {
        self.reader@
    }
}

fn bytes_err(e: BytesReadError) -> (r: Amf0ReadError)
    ensures
        r.value == Amf0ReadErrorValue::BytesReadError(e),
{
    Amf0ReadError { value: Amf0ReadErrorValue::BytesReadError(e) }
}

impl Amf0Reader {
    pub fn new(reader: BytesReader) -> (r: Self)
        ensures
            r@ == reader@,
    {
        Self { reader }
    }

    /// The unread bytes, left in place.
    pub fn get_remaining_bytes(&self) -> (r: Vec<u8>)
        ensures
            r@ == self@,
    {
        self.reader.get_remaining_bytes()
    }

    /// A string body: a 16-bit (`width` 2) or 32-bit (`width` 4) length,
    /// then UTF-8.
    fn read_string_body(&mut self, width: usize) -> (r: Result<String, Amf0ReadError>)
        requires
            width == 2 || width == 4,
        ensures
            match parse_string_body(old(self)@, width as int) {
                Ok((cs, n)) => r is Ok && r->Ok_0@ == cs && consumed_as::<()>(
                    old(self)@,
                    final(self)@,
                    n,
                ),
                Err(e) => r is Err && r->Err_0.value == e && suffix_of(final(self)@, old(self)@),
            },
    {
        let ghost s0 = self@;
        let l: usize = if width == 2 {
            match self.reader.read_u16_be() {
                Ok(v) => v as usize,
                Err(e) => {
                    assert(self@ =~= s0.subrange(0, s0.len() as int));
                    return Err(bytes_err(e));
                },
            }
        } else {
            match self.reader.read_u32_be() {
                Ok(v) => v as usize,
                Err(e) => {
                    assert(self@ =~= s0.subrange(0, s0.len() as int));
                    return Err(bytes_err(e));
                },
            }
        };
        let ghost s1 = self@;
        let bytes = match self.reader.read_bytes(l) {
            Ok(b) => b,
            Err(e) => {
                return Err(bytes_err(e));
            },
        };
        proof {
            assert(bytes@ =~= s0.subrange(width as int, width + l));
            assert(self@ =~= s0.subrange(width + l, s0.len() as int));
        }
        match string_from_utf8(bytes) {
            Some(s) => Ok(s),
            None => Err(Amf0ReadError { value: Amf0ReadErrorValue::StringParseError }),
        }
    }

    /// A string with a 16-bit length and no marker.
    pub fn read_raw_string(&mut self) -> (r: Result<String, Amf0ReadError>)
        ensures
            match parse_string_body(old(self)@, 2) {
                Ok((cs, n)) => r is Ok && r->Ok_0@ == cs && consumed_as::<()>(
                    old(self)@,
                    final(self)@,
                    n,
                ),
                Err(e) => r is Err && r->Err_0.value == e && suffix_of(final(self)@, old(self)@),
            },
    {
        self.read_string_body(2)
    }

    /// The body of a number, after its marker.
    pub fn read_number(&mut self) -> (r: Result<Amf0ValueType, Amf0ReadError>)
        ensures
            value_read_as(
                old(self)@,
                final(self)@,
                if old(self)@.len() < 8 {
                    Err(not_enough())
                } else {
                    Ok((Amf0Model::Number(be64(old(self)@) as u64), 8int))
                },
                r,
            ),
    {
        match self.reader.read_u64_be() {
            Ok(bits) => Ok(Amf0ValueType::Number(bits)),
            Err(e) => {
                assert(self@ =~= old(self)@.subrange(0, old(self)@.len() as int));
                Err(bytes_err(e))
            },
        }
    }

    /// The body of a boolean, after its marker: the byte 1 is true, any
    /// other byte false.
    pub fn read_bool(&mut self) -> (r: Result<Amf0ValueType, Amf0ReadError>)
        ensures
            value_read_as(
                old(self)@,
                final(self)@,
                if old(self)@.len() < 1 {
                    Err(not_enough())
                } else {
                    Ok((Amf0Model::Boolean(old(self)@[0] == 1), 1int))
                },
                r,
            ),
    {
        match self.reader.read_u8() {
            Ok(b) => Ok(Amf0ValueType::Boolean(b == 1)),
            Err(e) => {
                assert(self@ =~= old(self)@.subrange(0, old(self)@.len() as int));
                Err(bytes_err(e))
            },
        }
    }

    /// The body of a string, after its marker.
    pub fn read_string(&mut self) -> (r: Result<Amf0ValueType, Amf0ReadError>)
        ensures
            value_read_as(
                old(self)@,
                final(self)@,
                match parse_string_body(old(self)@, 2) {
                    Ok((cs, n)) => Ok((Amf0Model::Str(cs), n)),
                    Err(e) => Err(e),
                },
                r,
            ),
    {
        match self.read_string_body(2) {
            Ok(s) => Ok(Amf0ValueType::UTF8String(s)),
            Err(e) => Err(e),
        }
    }

    /// The body of a long string, after its marker.
    pub fn read_long_string(&mut self) -> (r: Result<Amf0ValueType, Amf0ReadError>)
        ensures
            value_read_as(
                old(self)@,
                final(self)@,
                match parse_string_body(old(self)@, 4) {
                    Ok((cs, n)) => Ok((Amf0Model::LongStr(cs), n)),
                    Err(e) => Err(e),
                },
                r,
            ),
    {
        match self.read_string_body(4) {
            Ok(s) => Ok(Amf0ValueType::LongUTF8String(s)),
            Err(e) => Err(e),
        }
    }

    pub fn read_null(&mut self) -> (r: Result<Amf0ValueType, Amf0ReadError>)
        ensures
            r is Ok && r->Ok_0 is Null,
            final(self)@ == old(self)@,
    {
        Ok(Amf0ValueType::Null)
    }

    /// Whether the object end marker `00 00 09` comes next; it is consumed
    /// when it does.
    pub fn is_read_object_eof(&mut self) -> (r: Result<bool, Amf0ReadError>)
        ensures
            match parse_object_eof(old(self)@) {
                Ok(b) => r == Ok::<bool, Amf0ReadError>(b) && final(self)@ == old(self)@.subrange(
                    if b { 3int } else { 0int },
                    old(self)@.len() as int,
                ),
                Err(e) => r is Err && r->Err_0.value == e && final(self)@ == old(self)@,
            },
    {
        let marker = match self.reader.advance_u24_be() {
            Ok(m) => m,
            Err(e) => {
                return Err(bytes_err(e));
            },
        };
        if marker == OBJECT_END as u32 {
            let _ = self.reader.read_u24_be();
            return Ok(true);
        }
        assert(self@ =~= old(self)@.subrange(0, old(self)@.len() as int));
        Ok(false)
    }

    /// Any value: the marker byte chooses the kind. An empty buffer and
    /// the object end marker both give `END`.
    pub fn read_any(&mut self) -> (r: Result<Amf0ValueType, Amf0ReadError>)
        ensures
            value_read_as(old(self)@, final(self)@, parse_any(old(self)@), r),
        decreases old(self)@.len(), 1int,
    {
        let ghost s0 = self@;
        if self.reader.len() == 0 {
            assert(self@ =~= s0.subrange(0, s0.len() as int));
            return Ok(Amf0ValueType::END);
        }
        let marker = match self.reader.read_u8() {
            Ok(m) => m,
            Err(e) => {
                return Err(bytes_err(e));
            },
        };
        let ghost rest = self@;
        assert(rest =~= s0.subrange(1, s0.len() as int));
        if marker == OBJECT_END {
            return Ok(Amf0ValueType::END);
        }
        let r = if marker == NUMBER {
            self.read_number()
        } else if marker == BOOLEAN {
            self.read_bool()
        } else if marker == STRING {
            self.read_string()
        } else if marker == OBJECT {
            self.read_object()
        } else if marker == NULL {
            self.read_null()
        } else if marker == ECMA_ARRAY {
            self.read_ecma_array()
        } else if marker == LONG_STRING {
            self.read_long_string()
        } else {
            return Err(Amf0ReadError { value: Amf0ReadErrorValue::UnknownMarker { marker } });
        };
        proof {
            let s1 = self@;
            if r is Ok {
                assert(s1 =~= s0.subrange(s0.len() - s1.len(), s0.len() as int));
            } else {
                assert(s1 =~= s0.subrange(s0.len() - s1.len(), s0.len() as int));
            }
        }
        r
    }

    /// One property: a key without marker, then any value.
    fn read_property(&mut self) -> (r: Result<Amf0Object, Amf0ReadError>)
        ensures
            match parse_prop(old(self)@) {
                Ok((p, n)) => r is Ok && r->Ok_0.key@ == p.key && r->Ok_0.value.model() == p.value
                    && consumed_as::<()>(old(self)@, final(self)@, n),
                Err(e) => r is Err && r->Err_0.value == e && suffix_of(final(self)@, old(self)@),
            },
        decreases old(self)@.len(), 0int,
    {
        let ghost s0 = self@;
        proof {
            lemma_string_body_bounds(s0, 2);
        }
        let key = match self.read_raw_string() {
            Ok(k) => k,
            Err(e) => {
                return Err(e);
            },
        };
        let ghost s1 = self@;
        let value = match self.read_any() {
            Ok(v) => v,
            Err(e) => {
                proof {
                    assert(self@ =~= s0.subrange(s0.len() - self@.len(), s0.len() as int));
                }
                return Err(e);
            },
        };
        proof {
            assert(self@ =~= s0.subrange(s0.len() - self@.len(), s0.len() as int));
        }
        Ok(Amf0Object { key, value })
    }

    /// The body of an object, after its marker: properties up to the end
    /// marker `00 00 09`.
    pub fn read_object(&mut self) -> (r: Result<Amf0ValueType, Amf0ReadError>)
        ensures
            value_read_as(old(self)@, final(self)@, parse_object_body(old(self)@), r),
        decreases old(self)@.len(), 3int,
    {
        let ghost s0 = self@;
        let mut properties = UnOrderedMap::new();
        assert(self@ =~= s0.subrange(s0.len() - self@.len(), s0.len() as int));
        loop
            invariant
                s0 == old(self)@,
                suffix_of(self@, s0),
                parse_props(s0, Seq::empty()) == shift(
                    parse_props(self@, properties.model()),
                    s0.len() - self@.len(),
                ),
            decreases self@.len(),
        {
            let ghost cur = self@;
            let is_eof = match self.is_read_object_eof() {
                Ok(b) => b,
                Err(e) => {
                    return Err(e);
                },
            };
            if is_eof {
                proof {
                    assert(self@ =~= s0.subrange(s0.len() - self@.len(), s0.len() as int));
                }
                return Ok(Amf0ValueType::Object(properties));
            }
            proof {
                lemma_parse_prop_bounds(cur);
            }
            let ghost acc = properties.model();
            assert(self@ =~= cur);
            assert(parse_object_eof(cur) == Ok::<bool, Amf0ReadErrorValue>(false));
            let obj = match self.read_property() {
                Ok(o) => o,
                Err(e) => {
                    proof {
                        assert(parse_props(cur, acc) == Err::<(Seq<PropModel>, int), Amf0ReadErrorValue>(e.value));
                        assert(self@ =~= s0.subrange(s0.len() - self@.len(), s0.len() as int));
                    }
                    return Err(e);
                },
            };
            let ghost n = cur.len() - self@.len();
            let ghost p = parse_prop(cur)->Ok_0.0;
            let Amf0Object { key, value } = obj;
            let _ = properties.insert(key, value);
            proof {
                assert(self@ =~= cur.subrange(n, cur.len() as int));
                assert(properties.model() == props_insert(acc, p.key, p.value));
                assert(parse_props(cur, acc) == shift(parse_props(self@, properties.model()), n));
                lemma_shift_shift(parse_props(self@, properties.model()), n, s0.len() - cur.len());
                assert(self@ =~= s0.subrange(s0.len() - self@.len(), s0.len() as int));
            }
        }
    }

    /// The body of an ECMA array, after its marker: a 32-bit count, that
    /// many properties, and the end marker when it is there. The result is
    /// an object.
    pub fn read_ecma_array(&mut self) -> (r: Result<Amf0ValueType, Amf0ReadError>)
        ensures
            value_read_as(old(self)@, final(self)@, parse_ecma_body(old(self)@), r),
        decreases old(self)@.len(), 3int,
    {
        let ghost s0 = self@;
        let count = match self.reader.read_u32_be() {
            Ok(c) => c,
            Err(e) => {
                assert(self@ =~= s0.subrange(0, s0.len() as int));
                return Err(bytes_err(e));
            },
        };
        let ghost s4 = self@;
        assert(s4 =~= s0.subrange(4, s0.len() as int));
        let mut properties = UnOrderedMap::new();
        let mut i: u32 = 0;
        assert(self@ =~= s4.subrange(s4.len() - self@.len(), s4.len() as int));
        while i < count
            invariant
                s0 == old(self)@,
                s0.len() >= 4,
                i <= count,
                count == be32(s0[0], s0[1], s0[2], s0[3]),
                s4 == s0.subrange(4, s0.len() as int),
                suffix_of(self@, s4),
                parse_counted_props(s4, count as int, Seq::empty()) == shift(
                    parse_counted_props(self@, (count - i) as int, properties.model()),
                    s4.len() - self@.len(),
                ),
            decreases count - i,
        {
            let ghost cur = self@;
            proof {
                lemma_parse_prop_bounds(cur);
            }
            let obj = match self.read_property() {
                Ok(o) => o,
                Err(e) => {
                    proof {
                        assert(self@ =~= s0.subrange(s0.len() - self@.len(), s0.len() as int));
                    }
                    return Err(e);
                },
            };
            let ghost n = cur.len() - self@.len();
            let Amf0Object { key, value } = obj;
            let _ = properties.insert(key, value);
            i = i + 1;
            proof {
                assert(self@ =~= cur.subrange(n, cur.len() as int));
                assert(self@ =~= s4.subrange(s4.len() - self@.len(), s4.len() as int));
            }
        }
        let ghost tail = self@;
        proof {
            assert(tail =~= s0.subrange(4 + (s4.len() - tail.len()), s0.len() as int));
        }
        match self.is_read_object_eof() {
            Ok(_) => {},
            Err(e) => {
                assert(self@ =~= s0.subrange(s0.len() - self@.len(), s0.len() as int));
                return Err(e);
            },
        }
        proof {
            assert(self@ =~= s0.subrange(s0.len() - self@.len(), s0.len() as int));
        }
        Ok(Amf0ValueType::Object(properties))
    }

    /// A value whose marker must be `specified_marker`; a different marker
    /// is refused with `WrongType` and nothing is consumed.
    pub fn read_with_type(&mut self, specified_marker: u8) -> (r: Result<
        Amf0ValueType,
        Amf0ReadError,
    >)
        ensures
            value_read_as(
                old(self)@,
                final(self)@,
                if old(self)@.len() < 1 {
                    Err(not_enough())
                } else if old(self)@[0] != specified_marker {
                    Err(Amf0ReadErrorValue::WrongType)
                } else {
                    parse_any(old(self)@)
                },
                r,
            ),
    {
        let marker = match self.reader.advance_u8() {
            Ok(m) => m,
            Err(e) => {
                assert(self@ =~= old(self)@.subrange(0, old(self)@.len() as int));
                return Err(bytes_err(e));
            },
        };
        if marker != specified_marker {
            assert(self@ =~= old(self)@.subrange(0, old(self)@.len() as int));
            return Err(Amf0ReadError { value: Amf0ReadErrorValue::WrongType });
        }
        self.read_any()
    }

    /// All values up to the first `END` (the end of the buffer or an object
    /// end marker).
    pub fn read_all(&mut self) -> (r: Result<Vec<Amf0ValueType>, Amf0ReadError>)
        ensures
            match parse_all(old(self)@) {
                Ok((vs, n)) => r is Ok && r->Ok_0@.map_values(|v: Amf0ValueType| v.model()) == vs
                    && consumed_as::<()>(old(self)@, final(self)@, n),
                Err(e) => r is Err && r->Err_0.value == e && suffix_of(final(self)@, old(self)@),
            },
    {
        let ghost s0 = self@;
        let mut results: Vec<Amf0ValueType> = Vec::new();
        assert(self@ =~= s0.subrange(0, s0.len() as int));
        loop
            invariant
                s0 == old(self)@,
                suffix_of(self@, s0),
                parse_all(s0) == match parse_all(self@) {
                    Ok((vs, m)) => Ok::<(Seq<Amf0Model>, int), Amf0ReadErrorValue>(
                        (
                            results@.map_values(|v: Amf0ValueType| v.model()) + vs,
                            s0.len() - self@.len() + m,
                        ),
                    ),
                    Err(e) => Err(e),
                },
            decreases self@.len(),
        {
            let ghost cur = self@;
            proof {
                lemma_parse_any_bounds(cur);
            }
            let v = match self.read_any() {
                Ok(v) => v,
                Err(e) => {
                    proof {
                        assert(self@ =~= s0.subrange(s0.len() - self@.len(), s0.len() as int));
                    }
                    return Err(e);
                },
            };
            if let Amf0ValueType::END = v {
                proof {
                    assert(results@.map_values(|v: Amf0ValueType| v.model())
                        + Seq::<Amf0Model>::empty() =~= results@.map_values(
                        |v: Amf0ValueType| v.model(),
                    ));
                    assert(self@ =~= s0.subrange(s0.len() - self@.len(), s0.len() as int));
                }
                return Ok(results);
            }
            let ghost old_results = results@;
            let ghost vm = v.model();
            results.push(v);
            proof {
                let n = cur.len() - self@.len();
                assert(self@ =~= cur.subrange(n, cur.len() as int));
                assert(results@.map_values(|v: Amf0ValueType| v.model()) =~= old_results.map_values(
                    |v: Amf0ValueType| v.model(),
                ).push(vm));
                match parse_all(self@) {
                    Ok((vs, m)) => {
                        assert(old_results.map_values(|v: Amf0ValueType| v.model()) + (seq![vm]
                            + vs) =~= old_results.map_values(|v: Amf0ValueType| v.model()).push(
                            vm,
                        ) + vs);
                    },
                    Err(_) => {},
                }
                assert(self@ =~= s0.subrange(s0.len() - self@.len(), s0.len() as int));
            }
        }
    }
}

} // verus!
