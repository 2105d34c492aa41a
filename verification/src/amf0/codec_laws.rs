//! What the reader gives back of what the writer wrote.
use vstd::prelude::*;
use vstd::utf8::{encode_utf8, encode_utf8_valid_utf8, encode_utf8_decode_utf8};
use crate::bytes_io::{
    be24, be16_bytes, be32_bytes, be64_bytes, lemma_be16_roundtrip,
    lemma_be32_roundtrip, lemma_be64_roundtrip,
};
use crate::amf0::define::{
    Amf0Model, Amf0ReadErrorValue, PropModel, encode_any, encode_props, parse_any, parse_prop,
    parse_props, parse_counted_props, parse_object_body, parse_ecma_body, parse_object_eof,
    parse_string_body, props_insert, key_index, lemma_key_index, shift, OBJECT, ECMA_ARRAY,
};
use crate::amf0::amf0_writer::encode_prop;
use crate::amf0::amf0_reader::lemma_shift_shift;

verus! {

broadcast use {encode_utf8_valid_utf8, encode_utf8_decode_utf8};

/// A value the writer writes in full and the reader reads back: strings
/// and keys of at most 65535 bytes, no long strings or end markers, keys
/// distinct within each object, and fewer than 2^32 array entries.
pub open spec fn wf_value(m: Amf0Model) -> bool
    decreases m, 1int,
{
    match m {
        Amf0Model::Number(_) => true,
        Amf0Model::Boolean(_) => true,
        Amf0Model::Null => true,
        Amf0Model::Str(cs) => encode_utf8(cs).len() <= 65535,
        Amf0Model::Object(ps) => wf_props(ps),
        Amf0Model::EcmaArray(ps) => wf_props(ps) && ps.len() < 4294967296,
        Amf0Model::LongStr(_) => false,
        Amf0Model::End => false,
    }
}

pub open spec fn wf_props(ps: Seq<PropModel>) -> bool
    decreases ps, 0int,
{
    if ps.len() == 0 {
        true
    } else {
        &&& wf_props(ps.drop_last())
        &&& encode_utf8(ps.last().key).len() <= 65535
        &&& wf_value(ps.last().value)
        &&& key_index(ps.drop_last(), ps.last().key) < 0
    }
}

/// What reading gives back: an ECMA array comes back as an object, at
/// every depth.
pub open spec fn normalize(m: Amf0Model) -> Amf0Model
    decreases m, 1int,
{
    match m {
        Amf0Model::Object(ps) => Amf0Model::Object(normalize_props(ps)),
        Amf0Model::EcmaArray(ps) => Amf0Model::Object(normalize_props(ps)),
        _ => m,
    }
}

pub open spec fn normalize_props(ps: Seq<PropModel>) -> Seq<PropModel>
    decreases ps, 0int,
{
    if ps.len() == 0 {
        Seq::empty()
    } else {
        normalize_props(ps.drop_last()).push(
            PropModel { key: ps.last().key, value: normalize(ps.last().value) },
        )
    }
}

proof fn lemma_normalize_props_keys(ps: Seq<PropModel>)
    ensures
        normalize_props(ps).len() == ps.len(),
        forall|i: int| 0 <= i < ps.len() ==> #[trigger] normalize_props(ps)[i].key == ps[i].key,
    decreases ps.len(),
{
    if ps.len() > 0 {
        lemma_normalize_props_keys(ps.drop_last());
    }
}

proof fn lemma_key_absent_concat(a: Seq<PropModel>, b: Seq<PropModel>, k: Seq<char>)
    requires
        key_index(a, k) < 0,
        forall|i: int| 0 <= i < b.len() ==> b[i].key != k,
    ensures
        key_index(a + b, k) < 0,
{
    lemma_key_index(a, k);
    lemma_key_index(a + b, k);
    let r = key_index(a + b, k);
    if r >= 0 {
        if r < a.len() {
            assert((a + b)[r] == a[r]);
        } else {
            assert((a + b)[r] == b[r - a.len()]);
        }
    }
}

/// A written value is at least one byte long and never starts with the
/// object end marker.
proof fn lemma_encode_head(m: Amf0Model)
    requires
        wf_value(m),
    ensures
        encode_any(m).0.len() >= 1,
        encode_any(m).0[0] != 9,
{
}

proof fn lemma_string_roundtrip(cs: Seq<char>, rest: Seq<u8>)
    requires
        encode_utf8(cs).len() <= 65535,
    ensures
        ({
            let b = encode_utf8(cs);
            parse_string_body(be16_bytes(b.len() as u16) + b + rest, 2) == Ok::<
                (Seq<char>, int),
                Amf0ReadErrorValue,
            >((cs, 2 + b.len() as int))
        }),
{
    let b = encode_utf8(cs);
    let s = be16_bytes(b.len() as u16) + b + rest;
    lemma_be16_roundtrip(b.len() as u16);
    assert(s[0] == be16_bytes(b.len() as u16)[0]);
    assert(s[1] == be16_bytes(b.len() as u16)[1]);
    assert(s.subrange(2, 2 + b.len() as int) =~= b);
}

/// Reading the bytes of properties `ps` in front of `x` is reading `x`
/// with `ps` already inserted.
proof fn lemma_props_concat(ps: Seq<PropModel>, x: Seq<u8>, acc: Seq<PropModel>)
    requires
        wf_props(ps),
        forall|i: int| 0 <= i < ps.len() ==> key_index(acc, #[trigger] ps[i].key) < 0,
    ensures
        encode_props(ps).1,
        parse_props(encode_props(ps).0 + x, acc) == shift(
            parse_props(x, acc + normalize_props(ps)),
            encode_props(ps).0.len() as int,
        ),
    decreases ps, 0int,
{
    if ps.len() == 0 {
        assert(encode_props(ps).0 + x =~= x);
        assert(acc + normalize_props(ps) =~= acc);
    } else {
        let init = ps.drop_last();
        let last = ps.last();
        let e_init = encode_props(init).0;
        let e_last = encode_prop(last).0;
        assert forall|i: int| 0 <= i < init.len() implies key_index(acc, #[trigger] init[i].key)
            < 0 by {
            assert(init[i] == ps[i]);
        }
        lemma_props_concat(init, e_last + x, acc);
        assert(encode_props(ps).0 + x =~= e_init + (e_last + x));
        let big_a = acc + normalize_props(init);
        lemma_prop_step(last, x, big_a);
        // the new key is absent from what came before
        lemma_normalize_props_keys(init);
        lemma_key_index(init, last.key);
        assert(key_index(acc, ps[ps.len() - 1].key) < 0);
        lemma_key_absent_concat(acc, normalize_props(init), last.key);
        assert(props_insert(big_a, last.key, normalize(last.value)) =~= acc + normalize_props(ps));
        assert(parse_props(e_last + x, big_a) == shift(
            parse_props(x, acc + normalize_props(ps)),
            e_last.len() as int,
        ));
        lemma_shift_shift(
            parse_props(x, acc + normalize_props(ps)),
            e_last.len() as int,
            e_init.len() as int,
        );
    }
}

/// One property in front of `x`.
#[verifier::rlimit(40)]
#[verifier::spinoff_prover]
proof fn lemma_prop_step(p: PropModel, x: Seq<u8>, a: Seq<PropModel>)
    requires
        encode_utf8(p.key).len() <= 65535,
        wf_value(p.value),
    ensures
        encode_prop(p).1,
        parse_object_eof(encode_prop(p).0 + x) == Ok::<bool, Amf0ReadErrorValue>(false),
        parse_prop(encode_prop(p).0 + x) == Ok::<(PropModel, int), Amf0ReadErrorValue>(
            (PropModel { key: p.key, value: normalize(p.value) }, encode_prop(p).0.len() as int),
        ),
        parse_props(encode_prop(p).0 + x, a) == shift(
            parse_props(x, props_insert(a, p.key, normalize(p.value))),
            encode_prop(p).0.len() as int,
        ),
    decreases p.value, 2int,
{
    let kb = encode_utf8(p.key);
    let vb = encode_any(p.value).0;
    let s = encode_prop(p).0 + x;
    assert((kb.len() % 65536) as u16 == kb.len() as u16);
    lemma_value_roundtrip(p.value, x);
    lemma_encode_head(p.value);
    lemma_be16_roundtrip(kb.len() as u16);
    assert(s =~= be16_bytes(kb.len() as u16) + kb + (vb + x));
    lemma_string_roundtrip(p.key, vb + x);
    assert(s.subrange(2 + kb.len() as int, s.len() as int) =~= vb + x);
    // the end marker check sees either a non-zero key length or the value marker
    assert(s[0] == be16_bytes(kb.len() as u16)[0]);
    assert(s[1] == be16_bytes(kb.len() as u16)[1]);
    if kb.len() == 0 {
        assert(s[2] == vb[0]);
    }
    assert(be24(s[0], s[1], s[2]) != 9);
    assert(s.len() >= 3);
    let n = encode_prop(p).0.len() as int;
    assert(s.subrange(n, s.len() as int) =~= x);
}

proof fn lemma_counted_step(p: PropModel, x: Seq<u8>, c: int, a: Seq<PropModel>)
    requires
        encode_utf8(p.key).len() <= 65535,
        wf_value(p.value),
        c >= 0,
    ensures
        parse_counted_props(encode_prop(p).0 + x, c + 1, a) == shift(
            parse_counted_props(x, c, props_insert(a, p.key, normalize(p.value))),
            encode_prop(p).0.len() as int,
        ),
    decreases p.value, 3int,
{
    lemma_prop_step(p, x, a);
    let s = encode_prop(p).0 + x;
    assert(s.subrange(encode_prop(p).0.len() as int, s.len() as int) =~= x);
}

/// The counted form, for the entries of an ECMA array.
proof fn lemma_counted_props_concat(ps: Seq<PropModel>, x: Seq<u8>, c: int, acc: Seq<PropModel>)
    requires
        wf_props(ps),
        c >= 0,
        forall|i: int| 0 <= i < ps.len() ==> key_index(acc, #[trigger] ps[i].key) < 0,
    ensures
        encode_props(ps).1,
        parse_counted_props(encode_props(ps).0 + x, c + ps.len(), acc) == shift(
            parse_counted_props(x, c, acc + normalize_props(ps)),
            encode_props(ps).0.len() as int,
        ),
    decreases ps, 0int,
{
    if ps.len() == 0 {
        assert(encode_props(ps).0 + x =~= x);
        assert(acc + normalize_props(ps) =~= acc);
    } else {
        let init = ps.drop_last();
        let last = ps.last();
        let e_init = encode_props(init).0;
        let e_last = encode_prop(last).0;
        assert forall|i: int| 0 <= i < init.len() implies key_index(acc, #[trigger] init[i].key)
            < 0 by {
            assert(init[i] == ps[i]);
        }
        lemma_counted_props_concat(init, e_last + x, c + 1, acc);
        assert(encode_props(ps).0 + x =~= e_init + (e_last + x));
        let big_a = acc + normalize_props(init);
        lemma_prop_step(last, x, big_a);
        lemma_normalize_props_keys(init);
        lemma_key_index(init, last.key);
        assert(key_index(acc, ps[ps.len() - 1].key) < 0);
        lemma_key_absent_concat(acc, normalize_props(init), last.key);
        assert(props_insert(big_a, last.key, normalize(last.value)) =~= acc + normalize_props(ps));
        lemma_counted_step(last, x, c, big_a);
        assert(parse_counted_props(e_last + x, c + 1, big_a) == shift(
            parse_counted_props(x, c, acc + normalize_props(ps)),
            e_last.len() as int,
        ));
        lemma_shift_shift(
            parse_counted_props(x, c, acc + normalize_props(ps)),
            e_last.len() as int,
            e_init.len() as int,
        );
    }
}

proof fn lemma_object_roundtrip(ps: Seq<PropModel>, rest: Seq<u8>)
    requires
        wf_props(ps),
    ensures
        encode_any(Amf0Model::Object(ps)).1,
        parse_any(encode_any(Amf0Model::Object(ps)).0 + rest) == Ok::<
            (Amf0Model, int),
            Amf0ReadErrorValue,
        >(
            (
                Amf0Model::Object(normalize_props(ps)),
                encode_any(Amf0Model::Object(ps)).0.len() as int,
            ),
        ),
    decreases ps, 1int,
{
    let ep = encode_props(ps).0;
    let tail = seq![0u8, 0u8, 9u8] + rest;
    lemma_props_concat(ps, tail, Seq::empty());
    let e = encode_any(Amf0Model::Object(ps)).0;
    assert(e =~= seq![OBJECT] + ep + seq![0u8, 0u8, 9u8]);
    let s = e + rest;
    let body = s.subrange(1, s.len() as int);
    assert(s[0] == OBJECT);
    assert(body =~= ep + tail);
    assert(Seq::<PropModel>::empty() + normalize_props(ps) =~= normalize_props(ps));
    assert(parse_props(tail, normalize_props(ps)) == Ok::<(Seq<PropModel>, int), Amf0ReadErrorValue>(
        (normalize_props(ps), 3),
    ));
    assert(parse_object_body(body) == Ok::<(Amf0Model, int), Amf0ReadErrorValue>(
        (Amf0Model::Object(normalize_props(ps)), ep.len() as int + 3),
    ));
}

proof fn lemma_ecma_roundtrip(ps: Seq<PropModel>, rest: Seq<u8>)
    requires
        wf_props(ps),
        ps.len() < 4294967296,
    ensures
        encode_any(Amf0Model::EcmaArray(ps)).1,
        parse_any(encode_any(Amf0Model::EcmaArray(ps)).0 + rest) == Ok::<
            (Amf0Model, int),
            Amf0ReadErrorValue,
        >(
            (
                Amf0Model::Object(normalize_props(ps)),
                encode_any(Amf0Model::EcmaArray(ps)).0.len() as int,
            ),
        ),
    decreases ps, 1int,
{
    let ep = encode_props(ps).0;
    let tail = seq![0u8, 0u8, 9u8] + rest;
    let cnt = (ps.len() % 4294967296) as u32;
    lemma_be32_roundtrip(cnt);
    assert(cnt == ps.len());
    lemma_counted_props_concat(ps, tail, 0, Seq::empty());
    let e = encode_any(Amf0Model::EcmaArray(ps)).0;
    assert(e =~= seq![ECMA_ARRAY] + be32_bytes(cnt) + ep + seq![0u8, 0u8, 9u8]);
    let s = e + rest;
    let body = s.subrange(1, s.len() as int);
    assert(s[0] == ECMA_ARRAY);
    assert(body =~= be32_bytes(cnt) + (ep + tail));
    assert(body[0] == be32_bytes(cnt)[0]);
    assert(body[1] == be32_bytes(cnt)[1]);
    assert(body[2] == be32_bytes(cnt)[2]);
    assert(body[3] == be32_bytes(cnt)[3]);
    assert(body.subrange(4, body.len() as int) =~= ep + tail);
    assert(Seq::<PropModel>::empty() + normalize_props(ps) =~= normalize_props(ps));
    assert(parse_counted_props(tail, 0, normalize_props(ps)) == Ok::<
        (Seq<PropModel>, int),
        Amf0ReadErrorValue,
    >((normalize_props(ps), 0)));
    assert(body.subrange(4 + ep.len() as int, body.len() as int) =~= tail);
    assert(parse_ecma_body(body) == Ok::<(Amf0Model, int), Amf0ReadErrorValue>(
        (Amf0Model::Object(normalize_props(ps)), 4 + ep.len() as int + 3),
    ));
}

proof fn lemma_scalar_roundtrip(m: Amf0Model, rest: Seq<u8>)
    requires
        wf_value(m),
        !(m is Object),
        !(m is EcmaArray),
    ensures
        encode_any(m).1,
        parse_any(encode_any(m).0 + rest) == Ok::<(Amf0Model, int), Amf0ReadErrorValue>(
            (normalize(m), encode_any(m).0.len() as int),
        ),
{
    let e = encode_any(m).0;
    let s = e + rest;
    let body = s.subrange(1, s.len() as int);
    assert(s[0] == e[0]);
    match m {
        Amf0Model::Number(bits) => {
            lemma_be64_roundtrip(bits);
            assert(body.subrange(0, 8) =~= be64_bytes(bits));
            assert(forall|i: int| 0 <= i < 8 ==> body[i] == be64_bytes(bits)[i]);
        },
        Amf0Model::Boolean(b) => {
            assert(body[0] == e[1]);
        },
        Amf0Model::Str(cs) => {
            let b = encode_utf8(cs);
            assert(body =~= be16_bytes(b.len() as u16) + b + rest);
            lemma_string_roundtrip(cs, rest);
        },
        _ => {},
    }
}

/// Reading back what was written: for a value that the writer writes in
/// full, reading its bytes, whatever follows them, gives back the value
/// (with ECMA arrays as objects) and takes exactly those bytes.
pub proof fn lemma_value_roundtrip(m: Amf0Model, rest: Seq<u8>)
    requires
        wf_value(m),
    ensures
        encode_any(m).1,
        parse_any(encode_any(m).0 + rest) == Ok::<(Amf0Model, int), Amf0ReadErrorValue>(
            (normalize(m), encode_any(m).0.len() as int),
        ),
    decreases m, 1int,
{
    match m {
        Amf0Model::Object(ps) => lemma_object_roundtrip(ps, rest),
        Amf0Model::EcmaArray(ps) => lemma_ecma_roundtrip(ps, rest),
        _ => lemma_scalar_roundtrip(m, rest),
    }
}

} // verus!
