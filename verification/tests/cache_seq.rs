use xiu::amf0::amf0_writer::Amf0Writer;
use xiu::amf0::define::{Amf0ValueType, UnOrderedMap};
use xiu::bytes_io::BytesReadError;
use xiu::cache::cache::{Cache, CacheErrorValue};
use xiu::cache::frame::FrameData;
use xiu::cache::metadata::{strip_set_data_frame, MetaData};

fn metadata_body() -> Vec<u8> {
    let mut obj = UnOrderedMap::new();
    obj.insert(String::from("width"), Amf0ValueType::Number(1280.0f64.to_bits()));
    let mut w = Amf0Writer::new();
    w.write_string(&String::from("@setDataFrame")).unwrap();
    w.write_string(&String::from("onMetaData")).unwrap();
    w.write_any(&Amf0ValueType::Object(obj)).unwrap();
    w.extract_current_bytes()
}

#[test]
fn aac_sequence_header_is_kept() {
    let mut cache = Cache::new(1);
    assert!(cache.get_audio_seq().is_none());
    cache.save_audio_data(&vec![0xAF, 0x00, 0x12, 0x10], 5).unwrap();
    assert_eq!(
        cache.get_audio_seq(),
        Some(FrameData::Audio { timestamp: 5, data: vec![0xAF, 0x00, 0x12, 0x10] })
    );
    // a raw AAC frame leaves the header as it was
    cache.save_audio_data(&vec![0xAF, 0x01, 0x21], 6).unwrap();
    assert_eq!(
        cache.get_audio_seq(),
        Some(FrameData::Audio { timestamp: 5, data: vec![0xAF, 0x00, 0x12, 0x10] })
    );
    // both frames went to the GOP cache
    let gops = cache.get_gops_data().unwrap();
    assert_eq!(gops[0].len(), 2);
}

#[test]
fn avc_sequence_header_is_kept() {
    let mut cache = Cache::new(2);
    let seq = vec![0x17, 0x00, 0, 0, 0, 1, 0x64];
    cache.save_video_data(&seq, 0).unwrap();
    cache.save_video_data(&vec![0x27, 0x01, 0, 0, 0, 9], 40).unwrap();
    assert_eq!(cache.get_video_seq(), Some(FrameData::Video { timestamp: 0, data: seq }));
}

#[test]
fn empty_messages_fail() {
    let mut cache = Cache::new(1);
    assert_eq!(
        cache.save_video_data(&vec![], 0).unwrap_err().value,
        CacheErrorValue::BytesReadError(BytesReadError::NotEnoughBytes)
    );
    assert_eq!(
        cache.save_audio_data(&vec![], 0).unwrap_err().value,
        CacheErrorValue::BytesReadError(BytesReadError::NotEnoughBytes)
    );
}

#[test]
fn disabled_cache_hands_out_no_gops() {
    let cache = Cache::new(0);
    assert!(cache.get_gops_data().is_none());
}

#[test]
fn metadata_is_kept_only_when_it_is_metadata() {
    let mut cache = Cache::new(1);
    cache.save_metadata(&vec![1, 2, 3], 1);
    assert!(cache.get_metadata().is_none());
    let body = metadata_body();
    cache.save_metadata(&body, 7);
    assert_eq!(cache.get_metadata(), Some(FrameData::MetaData { timestamp: 7, data: body.clone() }));

    let mut m = MetaData::default();
    assert!(m.is_metadata(body.clone()));
    m.save(body.clone());
    assert_eq!(m.get_chunk_body(), body);
    assert_eq!(m.remove_set_data_frame().unwrap(), body[16..].to_vec());
    assert_eq!(strip_set_data_frame(&body).unwrap(), body[16..].to_vec());
}
