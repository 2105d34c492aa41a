//! The stream's metadata: the AMF0 script message `@setDataFrame`,
//! `onMetaData`, ... that a publisher sends.
use vstd::prelude::*;
use vstd::utf8::{is_ascii_chars, is_ascii_chars_encode_utf8};
use crate::bytes_io::BytesReader;
use crate::amf0::define::{Amf0Model, Amf0ValueType, parse_all, encode_any};
use crate::amf0::amf0_reader::Amf0Reader;
use crate::amf0::amf0_writer::Amf0Writer;

verus! {

/// "@setDataFrame".
pub open spec fn set_data_frame() -> Seq<char> {
    seq!['@', 's', 'e', 't', 'D', 'a', 't', 'a', 'F', 'r', 'a', 'm', 'e']
}

/// "onMetaData".
pub open spec fn on_metadata() -> Seq<char> {
    seq!['o', 'n', 'M', 'e', 't', 'a', 'D', 'a', 't', 'a']
}

/// A message is metadata when it reads as AMF0 values of which the first
/// two are the strings "@setDataFrame" and "onMetaData".
pub open spec fn is_metadata_body(body: Seq<u8>) -> bool {
    match parse_all(body) {
        Ok((vs, _n)) => vs.len() >= 2 && vs[0] == Amf0Model::Str(set_data_frame()) && vs[1]
            == Amf0Model::Str(on_metadata()),
        Err(_) => false,
    }
}

/// The length of the AMF0 string "@setDataFrame": marker, length, 13
/// bytes.
pub proof fn lemma_set_data_frame_len()
    ensures
        encode_any(Amf0Model::Str(set_data_frame())).0.len() == 16,
{
    let cs = set_data_frame();
    assert(is_ascii_chars(cs)) by {
        assert forall|i: int| 0 <= i < cs.len() implies '\0' <= #[trigger] cs[i] <= '\u{7f}' by {
        }
    }
    is_ascii_chars_encode_utf8(cs);
}

/// `body` without the AMF0 string "@setDataFrame" it starts with: the
/// length of that string, as the AMF0 writer writes it, is cut off.
pub fn strip_set_data_frame(body: &Vec<u8>) -> (r: Result<Vec<u8>, crate::amf0::define::Amf0WriteError>)
    requires
        body@.len() >= 16,
    ensures
        r matches Ok(v) && v@ == body@.skip(16),
{
    let mut amf_writer = Amf0Writer::new();
    let name = String::from_str("@setDataFrame");
    proof {
        reveal_strlit("@setDataFrame");
        assert(name@ =~= set_data_frame());
        lemma_set_data_frame_len();
    }
    match amf_writer.write_string(&name) {
        Ok(()) => {},
        Err(e) => return Err(e),
    }
    let n = amf_writer.len();
    let mut right: Vec<u8> = Vec::new();
    let mut i: usize = n;
    while i < body.len()
        invariant
            n == 16,
            n <= i <= body@.len(),
            right@ == body@.subrange(16, i as int),
        decreases body@.len() - i,
    {
        right.push(body[i]);
        i = i + 1;
        assert(right@ =~= body@.subrange(16, i as int));
    }
    Ok(right)
}

pub struct MetaData {
    chunk_body: Vec<u8>,
}

impl View for MetaData {
    type V = Seq<u8>;

    closed spec fn view(&self) -> Seq<u8> {
        self.chunk_body@
    }
}

fn string_is(s: &String, lit: &str) -> (b: bool)
    ensures
        b == (s@ == lit@),
{
    let other = String::from_str(lit);
    *s == other
}

impl MetaData {
    pub fn default() -> (m: Self)
        ensures
            m@ == Seq::<u8>::empty(),
    {
        Self { chunk_body: Vec::new() }
    }

    /// Keeps `body` when it is metadata.
    pub fn save(&mut self, body: Vec<u8>)
        ensures
            is_metadata_body(body@) ==> final(self)@ == body@,
            !is_metadata_body(body@) ==> final(self)@ == old(self)@,
    {
        let copy = crate::cache::frame::copy_bytes(&body);
        if self.is_metadata(copy) {
            self.chunk_body = body;
        }
    }

    /// The metadata without its leading "@setDataFrame", as HTTP-FLV sends
    /// it.
    pub fn remove_set_data_frame(&mut self) -> (r: Result<Vec<u8>, crate::amf0::define::Amf0WriteError>)
        requires
            old(self)@.len() >= 16,
        ensures
            final(self)@ == old(self)@,
            r matches Ok(v) && v@ == old(self)@.skip(16),
    {
        strip_set_data_frame(&self.chunk_body)
    }

    /// Whether `body` is metadata.
    pub fn is_metadata(&mut self, body: Vec<u8>) -> (b: bool)
        ensures
            b == is_metadata_body(body@),
            final(self)@ == old(self)@,
    {
        let reader = BytesReader::new(body);
        let mut amf_reader = Amf0Reader::new(reader);
        let values = match amf_reader.read_all() {
            Ok(v) => v,
            Err(_) => return false,
        };
        if values.len() < 2 {
            return false;
        }
        proof {
            reveal_strlit("@setDataFrame");
            reveal_strlit("onMetaData");
            assert(values@.map_values(|v: Amf0ValueType| v.model())[0] == values@[0].model());
            assert(values@.map_values(|v: Amf0ValueType| v.model())[1] == values@[1].model());
        }
        match &values[0] {
            Amf0ValueType::UTF8String(s) => {
                if !string_is(s, "@setDataFrame") {
                    assert(s@ != set_data_frame()) by {
                        if s@ == set_data_frame() {
                            assert(s@ =~= "@setDataFrame"@);
                        }
                    }
                    return false;
                }
            },
            _ => return false,
        }
        match &values[1] {
            Amf0ValueType::UTF8String(s) => {
                if !string_is(s, "onMetaData") {
                    assert(s@ != on_metadata()) by {
                        if s@ == on_metadata() {
                            assert(s@ =~= "onMetaData"@);
                        }
                    }
                    return false;
                }
            },
            _ => return false,
        }
        assert("@setDataFrame"@ =~= set_data_frame());
        assert("onMetaData"@ =~= on_metadata());
        true
    }

    pub fn get_chunk_body(&self) -> (r: Vec<u8>)
        ensures
            r@ == self@,
    {
        crate::cache::frame::copy_bytes(&self.chunk_body)
    }
}

} // verus!
