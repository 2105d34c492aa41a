use xiu::amf0::amf0_reader::Amf0Reader;
use xiu::amf0::amf0_writer::Amf0Writer;
use xiu::amf0::define::{self as amf0_markers, Amf0ValueType, UnOrderedMap};
use xiu::bytes_io::{BytesReadError, BytesReader};
use xiu::amf0::define::{Amf0ReadErrorValue, Amf0WriteErrorValue};

fn s(v: &str) -> Amf0ValueType {
    Amf0ValueType::UTF8String(String::from(v))
}

#[test]
fn test_amf_reader() {
        let data: [u8; 177] = [
            2, 0, 7, 99, 111, 110, 110, 101, 99, 116, 0, 63, 240, 0, 0, 0, 0, 0, 0, //body
            3, 0, 3, 97, 112, 112, 2, 0, 6, 104, 97, 114, 108, 97, 110, 0, 4, 116, 121, 112, 101,
            2, 0, 10, 110, 111, 110, 112, 114, 105, 118, 97, 116, 101, 0, 8, 102, 108, 97, 115,
            104, 86, 101, 114, 2, 0, 31, 70, 77, 76, 69, 47, 51, 46, 48, 32, 40, 99, 111, 109, 112,
            97, 116, 105, 98, 108, 101, 59, 32, 70, 77, 83, 99, 47, 49, 46, 48, 41, 0, 6, 115, 119,
            102, 85, 114, 108, 2, 0, 28, 114, 116, 109, 112, 58, 47, 47, 108, 111, 99, 97, 108,
            104, 111, 115, 116, 58, 49, 57, 51, 53, 47, 104, 97, 114, 108, 97, 110, 0, 5, 116, 99,
            85, 114, 108, 2, 0, 28, 114, 116, 109, 112, 58, 47, 47, 108, 111, 99, 97, 108, 104,
            111, 115, 116, 58, 49, 57, 51, 53, 47, 104, 97, 114, 108, 97, 110, 0, 0, 9,
        ];

    let mut bytes_reader = BytesReader::new(Vec::new());
    bytes_reader.extend_from_slice(&data);
    let mut amf_reader = Amf0Reader::new(bytes_reader);

    let command_name = amf_reader.read_with_type(amf0_markers::STRING).unwrap();
    assert_eq!(command_name, Amf0ValueType::UTF8String(String::from("connect")));

    let transaction_id = amf_reader.read_with_type(amf0_markers::NUMBER).unwrap();
    assert_eq!(transaction_id, Amf0ValueType::Number(1.0f64.to_bits()));

    let command_obj_raw = amf_reader.read_with_type(amf0_markers::OBJECT).unwrap();
    let mut properties = UnOrderedMap::new();
    properties.insert(String::from("app"), s("harlan"));
    properties.insert(String::from("type"), s("nonprivate"));
    properties.insert(String::from("flashVer"), s("FMLE/3.0 (compatible; FMSc/1.0)"));
    properties.insert(String::from("swfUrl"), s("rtmp://localhost:1935/harlan"));
    properties.insert(String::from("tcUrl"), s("rtmp://localhost:1935/harlan"));
    assert_eq!(command_obj_raw, Amf0ValueType::Object(properties));

    let _ = amf_reader.read_all();

    println!("test");
}

fn reader_of(bytes: &[u8]) -> Amf0Reader {
    let mut r = BytesReader::new(Vec::new());
    r.extend_from_slice(bytes);
    Amf0Reader::new(r)
}

#[test]
fn test_player_connect_reader() {
    // A player's connect command: name, transaction id, command object.
    // The packet capture these bytes come from spells the key
    // "videoCodecs" (76 69 64 65 6f 43 6f 64 65 63 73). A copy of it with a
    // stray 0xC3 between "video" and "Codecs" makes the key invalid UTF-8
    // and contradicts the object expected below; that byte is left out, so
    // the array holds 170 bytes.
    let data: [u8; 170] = [
        2, 0, 7, 99, 111, 110, 110, 101, 99, 116, 0, 63, 240, 0, 0, 0, 0, 0, 0, 3, 0, 3, 97,
        112, 112, 2, 0, 4, 108, 105, 118, 101, 0, 5, 116, 99, 85, 114, 108, 2, 0, 26, 114, 116,
        109, 112, 58, 47, 47, 108, 111, 99, 97, 108, 104, 111, 115, 116, 58, 49, 57, 51, 53,
        47, 108, 105, 118, 101, 0, 4, 102, 112, 97, 100, 1, 0, 0, 12, 99, 97, 112, 97, 98, 105,
        108, 105, 116, 105, 101, 115, 0, 64, 46, 0, 0, 0, 0, 0, 0, 0, 11, 97, 117, 100, 105,
        111, 67, 111, 100, 101, 99, 115, 0, 64, 168, 238, 0, 0, 0, 0, 0, 0, 11, 118, 105, 100,
        101, 111, 67, 111, 100, 101, 99, 115, 0, 64, 111, 128, 0, 0, 0, 0, 0, 0, 13, 118,
        105, 100, 101, 111, 70, 117, 110, 99, 116, 105, 111, 110, 0, 63, 240, 0, 0, 0, 0, 0, 0,
        0, 0, 9,
    ];
    let mut amf_reader = reader_of(&data);
    assert_eq!(amf_reader.read_with_type(amf0_markers::STRING).unwrap(), s("connect"));
    assert_eq!(
        amf_reader.read_with_type(amf0_markers::NUMBER).unwrap(),
        Amf0ValueType::Number(1.0f64.to_bits())
    );
    let mut properties = UnOrderedMap::new();
    properties.insert(String::from("app"), s("live"));
    properties.insert(String::from("tcUrl"), s("rtmp://localhost:1935/live"));
    properties.insert(String::from("fpad"), Amf0ValueType::Boolean(false));
    properties.insert(String::from("capabilities"), Amf0ValueType::Number(15.0f64.to_bits()));
    properties.insert(String::from("audioCodecs"), Amf0ValueType::Number(3191.0f64.to_bits()));
    properties.insert(String::from("videoCodecs"), Amf0ValueType::Number(252.0f64.to_bits()));
    properties.insert(String::from("videoFunction"), Amf0ValueType::Number(1.0f64.to_bits()));
    assert_eq!(
        amf_reader.read_with_type(amf0_markers::OBJECT).unwrap(),
        Amf0ValueType::Object(properties)
    );
    assert_eq!(amf_reader.read_all().unwrap(), Vec::<Amf0ValueType>::new());
}

#[test]
fn written_values_read_back() {
    let mut obj = UnOrderedMap::new();
    obj.insert(String::from("level"), s("status"));
    obj.insert(String::from("code"), s("NetStream.Play.Start"));
    obj.insert(String::from("n"), Amf0ValueType::Number(2.5f64.to_bits()));
    let values = vec![
        s("onStatus"),
        Amf0ValueType::Number(0),
        Amf0ValueType::Null,
        Amf0ValueType::Boolean(true),
        Amf0ValueType::Object(obj),
    ];
    let mut w = Amf0Writer::new();
    w.write_anys(&values).unwrap();
    let bytes = w.extract_current_bytes();
    assert_eq!(&bytes[0..3], &[2, 0, 8]);
    let mut r = reader_of(&bytes);
    let read = r.read_all().unwrap();
    assert_eq!(read, values);
}

#[test]
fn reader_errors() {
    let mut r = reader_of(&[0x10]);
    assert_eq!(
        r.read_any().unwrap_err().value,
        Amf0ReadErrorValue::UnknownMarker { marker: 0x10 }
    );
    let mut r = reader_of(&[2, 0, 1, 97]);
    assert_eq!(
        r.read_with_type(amf0_markers::NUMBER).unwrap_err().value,
        Amf0ReadErrorValue::WrongType
    );
    let mut r = reader_of(&[0, 1, 2]);
    assert_eq!(
        r.read_any().unwrap_err().value,
        Amf0ReadErrorValue::BytesReadError(BytesReadError::NotEnoughBytes)
    );
    let mut r = reader_of(&[2, 0, 1, 0xff]);
    assert_eq!(r.read_any().unwrap_err().value, Amf0ReadErrorValue::StringParseError);
    let mut r = reader_of(&[]);
    assert_eq!(r.read_any().unwrap(), Amf0ValueType::END);
}

#[test]
fn long_string_is_refused_by_the_writer() {
    let long: String = std::iter::repeat('a').take(70000).collect();
    let mut w = Amf0Writer::new();
    assert_eq!(
        w.write_string(&long).unwrap_err().value,
        Amf0WriteErrorValue::NormalStringTooLong
    );
}
