//! Writing AMF0 values into a byte buffer.
use vstd::prelude::*;
use vstd::utf8::encode_utf8;
use crate::bytes_io::{BytesWriter, be16_bytes, be32_bytes, be64_bytes};
use crate::amf0::define::{
    Amf0Model, Amf0Object, Amf0ValueType, Amf0WriteError, Amf0WriteErrorValue, PropModel,
    UnOrderedMap, encode_any, encode_props, lemma_props_model_len, NUMBER, BOOLEAN,
    STRING, OBJECT, NULL, ECMA_ARRAY, OBJECT_END,
};

verus! {

/// The bytes of one property: the key's byte length truncated to 16 bits,
/// the key's bytes, then the value.
pub open spec fn encode_prop(p: PropModel) -> (Seq<u8>, bool) {
    let kb = encode_utf8(p.key);
    let (vb, ok) = encode_any(p.value);
    (be16_bytes((kb.len() % 65536) as u16) + kb + vb, ok)
}

/// Writing the first `i + 1` properties is writing the first `i` and then
/// property `i`, as long as nothing failed before.
pub proof fn lemma_encode_props_snoc(ps: Seq<PropModel>, i: int)
    requires
        0 <= i < ps.len(),
        encode_props(ps.take(i)).1,
    ensures
        encode_props(ps.take(i + 1)) == (
            encode_props(ps.take(i)).0 + encode_prop(ps[i]).0,
            encode_prop(ps[i]).1,
        ),
{
    assert(ps.take(i + 1).drop_last() =~= ps.take(i));
    assert(ps.take(i + 1).last() == ps[i]);
    let kb = encode_utf8(ps[i].key);
    let (vb, ok) = encode_any(ps[i].value);
    assert(encode_props(ps.take(i)).0 + be16_bytes((kb.len() % 65536) as u16) + kb + vb
        =~= encode_props(ps.take(i)).0 + (be16_bytes((kb.len() % 65536) as u16) + kb + vb));
}

/// Once a property fails, the longer prefixes write nothing more.
pub proof fn lemma_encode_props_stuck(ps: Seq<PropModel>, i: int, j: int)
    requires
        0 <= i <= j <= ps.len(),
        !encode_props(ps.take(i)).1,
    ensures
        encode_props(ps.take(j)) == encode_props(ps.take(i)),
    decreases j - i,
{
    if j > i {
        lemma_encode_props_stuck(ps, i, j - 1);
        assert(ps.take(j).drop_last() =~= ps.take(j - 1));
    }
}

/// A list of values written one after the other, up to the first that
/// fails.
pub open spec fn encode_values(vs: Seq<Amf0Model>) -> (Seq<u8>, bool)
    decreases vs.len(),
{
    if vs.len() == 0 {
        (Seq::empty(), true)
    } else {
        let (front, ok) = encode_values(vs.drop_last());
        if !ok {
            (front, false)
        } else {
            let (b, vok) = encode_any(vs.last());
            (front + b, vok)
        }
    }
}

pub proof fn lemma_encode_values_snoc(vs: Seq<Amf0Model>, i: int)
    requires
        0 <= i < vs.len(),
        encode_values(vs.take(i)).1,
    ensures
        encode_values(vs.take(i + 1)) == (
            encode_values(vs.take(i)).0 + encode_any(vs[i]).0,
            encode_any(vs[i]).1,
        ),
{
    assert(vs.take(i + 1).drop_last() =~= vs.take(i));
    assert(vs.take(i + 1).last() == vs[i]);
}

pub proof fn lemma_encode_values_stuck(vs: Seq<Amf0Model>, i: int, j: int)
    requires
        0 <= i <= j <= vs.len(),
        !encode_values(vs.take(i)).1,
    ensures
        encode_values(vs.take(j)) == encode_values(vs.take(i)),
    decreases j - i,
{
    if j > i {
        lemma_encode_values_stuck(vs, i, j - 1);
        assert(vs.take(j).drop_last() =~= vs.take(j - 1));
    }
}

/// Writes AMF0 values into a growing byte buffer.
pub struct Amf0Writer {
    writer: BytesWriter,
}

impl View for Amf0Writer {
    type V = Seq<u8>;

    closed spec fn view(&self) -> Seq<u8> {
        self.writer@
    }
}

impl Amf0Writer {
    pub fn new() -> (w: Self)
        ensures
            w@ == Seq::<u8>::empty(),
    {
        Self { writer: BytesWriter::new() }
    }

    /// Writes the values in order, stopping at the first that fails.
    pub fn write_anys(&mut self, values: &Vec<Amf0ValueType>) -> (r: Result<(), Amf0WriteError>)
        ensures
            final(self)@ == old(self)@ + encode_values(values@.map_values(|v: Amf0ValueType| v.model())).0,
            r is Ok <==> encode_values(values@.map_values(|v: Amf0ValueType| v.model())).1,
            r matches Err(e) ==> e.value == Amf0WriteErrorValue::NormalStringTooLong,
    {
        let ghost ms = values@.map_values(|v: Amf0ValueType| v.model());
        assert(ms.take(0) =~= Seq::<Amf0Model>::empty());
        let mut i: usize = 0;
        while i < values.len()
            invariant
                i <= values@.len(),
                ms == values@.map_values(|v: Amf0ValueType| v.model()),
                encode_values(ms.take(i as int)).1,
                self@ == old(self)@ + encode_values(ms.take(i as int)).0,
            decreases values.len() - i,
        {
            let res = self.write_any(&values[i]);
            proof {
                lemma_encode_values_snoc(ms, i as int);
                assert(self@ =~= old(self)@ + encode_values(ms.take(i + 1)).0);
            }
            match res {
                Ok(()) => {},
                Err(e) => {
                    proof {
                        lemma_encode_values_stuck(ms, i + 1, ms.len() as int);
                        assert(ms.take(ms.len() as int) =~= ms);
                    }
                    return Err(e);
                },
            }
            i = i + 1;
        }
        assert(ms.take(ms.len() as int) =~= ms);
        Ok(())
    }

    /// Writes one value as `encode_any` says. A long string and an end
    /// marker write nothing.
    pub fn write_any(&mut self, value: &Amf0ValueType) -> (r: Result<(), Amf0WriteError>)
        ensures
            final(self)@ == old(self)@ + encode_any(value.model()).0,
            r is Ok <==> encode_any(value.model()).1,
            r matches Err(e) ==> e.value == Amf0WriteErrorValue::NormalStringTooLong,
        decreases value, 1int,
    {
        match value {
            Amf0ValueType::Boolean(val) => self.write_bool(val),
            Amf0ValueType::Null => self.write_null(),
            Amf0ValueType::Number(val) => self.write_number(val),
            Amf0ValueType::UTF8String(val) => self.write_string(val),
            Amf0ValueType::Object(val) => self.write_object(val),
            Amf0ValueType::EcmaArray(val) => self.write_eacm_array(val),
            _ => {
                assert(self@ =~= old(self)@ + Seq::<u8>::empty());
                Ok(())
            },
        }
    }

    pub fn write_number(&mut self, value: &u64) -> (r: Result<(), Amf0WriteError>)
        ensures
            r is Ok,
            final(self)@ == old(self)@ + (seq![NUMBER] + be64_bytes(*value)),
    {
        self.writer.write_u8(NUMBER);
        self.writer.write_u64_be(*value);
        assert(self@ =~= old(self)@ + (seq![NUMBER] + be64_bytes(*value)));
        Ok(())
    }

    pub fn write_bool(&mut self, value: &bool) -> (r: Result<(), Amf0WriteError>)
        ensures
            r is Ok,
            final(self)@ == old(self)@ + seq![BOOLEAN, if *value { 1u8 } else { 0u8 }],
    {
        self.writer.write_u8(BOOLEAN);
        self.writer.write_u8(if *value { 1u8 } else { 0u8 });
        assert(self@ =~= old(self)@ + seq![BOOLEAN, if *value { 1u8 } else { 0u8 }]);
        Ok(())
    }

    /// A short string: refused, writing nothing, when longer than 65535
    /// bytes.
    pub fn write_string(&mut self, value: &String) -> (r: Result<(), Amf0WriteError>)
        ensures
            final(self)@ == old(self)@ + encode_any(Amf0Model::Str(value@)).0,
            r is Ok <==> encode_utf8(value@).len() <= 65535,
            r matches Err(e) ==> e.value == Amf0WriteErrorValue::NormalStringTooLong,
    {
        let bytes = value.as_str().as_bytes();
        if bytes.len() > 65535 {
            assert(self@ =~= old(self)@ + Seq::<u8>::empty());
            return Err(Amf0WriteError { value: Amf0WriteErrorValue::NormalStringTooLong });
        }
        self.writer.write_u8(STRING);
        self.writer.write_u16_be(bytes.len() as u16);
        self.writer.write(bytes);
        assert(self@ =~= old(self)@ + (seq![STRING] + be16_bytes(bytes@.len() as u16) + bytes@));
        Ok(())
    }

    pub fn write_null(&mut self) -> (r: Result<(), Amf0WriteError>)
        ensures
            r is Ok,
            final(self)@ == old(self)@ + seq![NULL],
    {
        self.writer.write_u8(NULL);
        assert(self@ =~= old(self)@ + seq![NULL]);
        Ok(())
    }

    /// The object end marker `00 00 09`.
    pub fn write_object_eof(&mut self) -> (r: Result<(), Amf0WriteError>)
        ensures
            r is Ok,
            final(self)@ == old(self)@ + seq![0u8, 0u8, 9u8],
    {
        self.writer.write_u24_be(OBJECT_END as u32);
        assert(self@ =~= old(self)@ + seq![0u8, 0u8, 9u8]);
        Ok(())
    }

    /// The properties of an object or array, in order.
    fn write_properties(&mut self, properties: &UnOrderedMap) -> (r: Result<(), Amf0WriteError>)
        ensures
            final(self)@ == old(self)@ + encode_props(properties.model()).0,
            r is Ok <==> encode_props(properties.model()).1,
            r matches Err(e) ==> e.value == Amf0WriteErrorValue::NormalStringTooLong,
        decreases properties, 0int,
    {
        let ghost ps = properties.model();
        proof {
            lemma_props_model_len(properties.properties@);
            assert(ps.take(0) =~= Seq::<PropModel>::empty());
        }
        let mut i: usize = 0;
        while i < properties.properties.len()
            invariant
                i <= properties.properties@.len(),
                ps == properties.model(),
                ps.len() == properties.properties@.len(),
                forall|j: int|
                    0 <= j < properties.properties@.len() ==> #[trigger] ps[j] == (PropModel {
                        key: properties.properties@[j].key@,
                        value: properties.properties@[j].value.model(),
                    }),
                encode_props(ps.take(i as int)).1,
                self@ == old(self)@ + encode_props(ps.take(i as int)).0,
            decreases properties.properties.len() - i,
        {
            let obj: &Amf0Object = &properties.properties[i];
            let kb = obj.key.as_str().as_bytes();
            self.writer.write_u16_be((kb.len() % 65536) as u16);
            self.writer.write(kb);
            let res = self.write_any(&obj.value);
            proof {
                lemma_encode_props_snoc(ps, i as int);
                assert(ps[i as int] == PropModel { key: obj.key@, value: obj.value.model() });
                assert(self@ =~= old(self)@ + encode_props(ps.take(i + 1)).0);
            }
            match res {
                Ok(()) => {},
                Err(e) => {
                    proof {
                        lemma_encode_props_stuck(ps, i + 1, ps.len() as int);
                        assert(ps.take(ps.len() as int) =~= ps);
                    }
                    return Err(e);
                },
            }
            i = i + 1;
        }
        assert(ps.take(ps.len() as int) =~= ps);
        Ok(())
    }

    /// An object: marker, properties, end marker.
    pub fn write_object(&mut self, properties: &UnOrderedMap) -> (r: Result<(), Amf0WriteError>)
        ensures
            final(self)@ == old(self)@ + encode_any(Amf0Model::Object(properties.model())).0,
            r is Ok <==> encode_any(Amf0Model::Object(properties.model())).1,
            r matches Err(e) ==> e.value == Amf0WriteErrorValue::NormalStringTooLong,
        decreases properties, 1int,
    {
        self.writer.write_u8(OBJECT);
        let res = self.write_properties(properties);
        match res {
            Ok(()) => {},
            Err(e) => {
                assert(self@ =~= old(self)@ + (seq![OBJECT] + encode_props(properties.model()).0));
                return Err(e);
            },
        }
        let _ = self.write_object_eof();
        assert(self@ =~= old(self)@ + (seq![OBJECT] + encode_props(properties.model()).0 + seq![
            0u8,
            0u8,
            9u8,
        ]));
        Ok(())
    }

    /// An ECMA array: marker, the property count (truncated to 32 bits),
    /// properties, end marker.
    pub fn write_eacm_array(&mut self, properties: &UnOrderedMap) -> (r: Result<(), Amf0WriteError>)
        ensures
            final(self)@ == old(self)@ + encode_any(Amf0Model::EcmaArray(properties.model())).0,
            r is Ok <==> encode_any(Amf0Model::EcmaArray(properties.model())).1,
            r matches Err(e) ==> e.value == Amf0WriteErrorValue::NormalStringTooLong,
        decreases properties, 1int,
    {
        proof {
            lemma_props_model_len(properties.properties@);
        }
        self.writer.write_u8(ECMA_ARRAY);
        self.writer.write_u32_be(((properties.properties.len() as u64) % 4294967296) as u32);
        let ghost head = seq![ECMA_ARRAY] + be32_bytes(
            (properties.model().len() % 4294967296) as u32,
        );
        assert(self@ =~= old(self)@ + head);
        let res = self.write_properties(properties);
        match res {
            Ok(()) => {},
            Err(e) => {
                assert(self@ =~= old(self)@ + (head + encode_props(properties.model()).0));
                return Err(e);
            },
        }
        let _ = self.write_object_eof();
        assert(self@ =~= old(self)@ + (head + encode_props(properties.model()).0 + seq![
            0u8,
            0u8,
            9u8,
        ]));
        Ok(())
    }

    /// Takes the bytes written so far, leaving the writer empty.
    pub fn extract_current_bytes(&mut self) -> (r: Vec<u8>)
        ensures
            r@ == old(self)@,
            final(self)@ == Seq::<u8>::empty(),
    {
        self.writer.extract_current_bytes()
    }

    /// A copy of the bytes written so far.
    pub fn get_current_bytes(&self) -> (r: Vec<u8>)
        ensures
            r@ == self@,
    {
        self.writer.get_current_bytes()
    }

    pub fn len(&self) -> (n: usize)
        ensures
            n == self@.len(),
    {
        self.writer.len()
    }

    pub fn is_empty(&self) -> (b: bool)
        ensures
            b == (self@.len() == 0),
    {
        self.len() == 0
    }
}

} // verus!
