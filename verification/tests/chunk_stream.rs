use xiu::chunk::errors::UnpackErrorValue;
use xiu::chunk::packetizer::ChunkPacketizer;
use xiu::chunk::unpacketizer::{ChunkUnpacketizer, UnpackResult};
use xiu::chunk::{ChunkBasicHeader, ChunkInfo};
use xiu::bytes_io::BytesReadError;

#[test]
fn test_set_chunk_size() {
    let mut unpacker = ChunkUnpacketizer::new();

    let data: [u8; 16] = [
        //
        02, //|format+csid|
        00, 00, 00, //timestamp
        00, 00, 04, //msg_length
        01, //msg_type_id
        00, 00, 00, 00, //msg_stream_id
        00, 00, 10, 00, //body
    ];

    unpacker.extend_data(&data[..]);

    let rv = unpacker.read_chunk();

    let body = vec![00, 00, 10, 00];

    let expected = ChunkInfo::new(2, 0, 0, 4, 1, 0, body);

    assert_eq!(
        rv.unwrap(),
        UnpackResult::ChunkInfo(expected),
        "not correct"
    )
}

fn payload(n: usize) -> Vec<u8> {
    (0..n).map(|i| (i % 253) as u8).collect()
}

#[test]
fn packetized_message_reads_back() {
    let mut packer = ChunkPacketizer::new();
    let body = payload(300);
    let mut info = ChunkInfo::new(3, 0, 1000, 300, 20, 1, body.clone());
    packer.write_chunk(&mut info).unwrap();
    let bytes = packer.extract_current_bytes();
    // 12 header bytes, then 128 + 1 + 128 + 1 + 44 bytes of payload and type-3 headers
    assert_eq!(bytes.len(), 12 + 300 + 2);
    let mut unpacker = ChunkUnpacketizer::new();
    unpacker.extend_data(&bytes);
    match unpacker.read_chunks().unwrap() {
        UnpackResult::Chunks(chunks) => {
            assert_eq!(chunks.len(), 1);
            assert_eq!(chunks[0].payload, body);
            assert_eq!(chunks[0].message_header.timestamp, 1000);
            assert_eq!(chunks[0].message_header.msg_type_id, 20);
            assert_eq!(chunks[0].basic_header.chunk_stream_id, 3);
        }
        other => panic!("unexpected {:?}", other),
    }
}

#[test]
fn extended_timestamp_reads_back() {
    let mut packer = ChunkPacketizer::new();
    let mut info = ChunkInfo::new(4, 0, 0x1234_5678, 4, 9, 1, vec![1, 2, 3, 4]);
    packer.write_chunk(&mut info).unwrap();
    let bytes = packer.extract_current_bytes();
    assert_eq!(&bytes[1..4], &[0xff, 0xff, 0xff]);
    assert_eq!(bytes.len(), 12 + 4 + 4);
    let mut unpacker = ChunkUnpacketizer::new();
    unpacker.extend_data(&bytes);
    match unpacker.read_chunk().unwrap() {
        UnpackResult::ChunkInfo(c) => {
            assert_eq!(c.message_header.timestamp, 0x1234_5678);
            assert_eq!(c.payload, vec![1, 2, 3, 4]);
        }
        other => panic!("unexpected {:?}", other),
    }
}

#[test]
fn partial_chunk_waits_for_more_bytes() {
    let data: [u8; 16] = [2, 0, 0, 0, 0, 0, 4, 1, 0, 0, 0, 0, 0, 0, 16, 0];
    let mut unpacker = ChunkUnpacketizer::new();
    unpacker.extend_data(&data[..10]);
    let e = unpacker.read_chunk().unwrap_err();
    assert_eq!(e.value, UnpackErrorValue::BytesReadError(BytesReadError::NotEnoughBytes));
    unpacker.extend_data(&data[10..]);
    match unpacker.read_chunk().unwrap() {
        UnpackResult::ChunkInfo(c) => assert_eq!(c.payload, vec![0, 0, 16, 0]),
        other => panic!("unexpected {:?}", other),
    }
}

#[test]
fn no_message_is_empty_chunks() {
    let mut unpacker = ChunkUnpacketizer::new();
    assert_eq!(
        unpacker.read_chunks().unwrap_err().value,
        UnpackErrorValue::EmptyChunks
    );
}

#[test]
fn extended_delta_of_a_type1_chunk_is_added_to_the_timestamp() {
    let mut data = vec![
        0x03, 0x00, 0x03, 0xE8, 0x00, 0x00, 0x02, 0x09, 0x01, 0x00, 0x00, 0x00, 0xAA, 0xBB,
    ];
    // type 1 on chunk stream 3: saturated delta, length 2, type 9,
    // then the extended delta 0x01000000
    data.extend_from_slice(&[0x43, 0xFF, 0xFF, 0xFF, 0x00, 0x00, 0x02, 0x09]);
    data.extend_from_slice(&[0x01, 0x00, 0x00, 0x00, 0xCC, 0xDD]);
    let mut unpacker = ChunkUnpacketizer::new();
    unpacker.extend_data(&data);
    match unpacker.read_chunks().unwrap() {
        UnpackResult::Chunks(chunks) => {
            assert_eq!(chunks.len(), 2);
            assert_eq!(chunks[0].message_header.timestamp, 1000);
            assert_eq!(chunks[1].message_header.timestamp, 1000 + 0x0100_0000);
            assert_eq!(chunks[1].payload, vec![0xCC, 0xDD]);
        }
        other => panic!("unexpected {:?}", other),
    }
}

#[test]
fn three_byte_basic_header_reads_back() {
    let mut packer = ChunkPacketizer::new();
    let mut info = ChunkInfo::new(400, 0, 0, 1, 9, 1, vec![7]);
    packer.write_chunk(&mut info).unwrap();
    let bytes = packer.extract_current_bytes();
    assert_eq!(&bytes[..3], &[1, (400u32 - 64) as u8, ((400u32 - 64) >> 8) as u8]);
    let mut unpacker = ChunkUnpacketizer::new();
    unpacker.extend_data(&bytes[..3]);
    assert_eq!(
        unpacker.read_basic_header().unwrap(),
        UnpackResult::ChunkBasicHeaderResult(ChunkBasicHeader::new(0, 400))
    );
}

#[test]
fn written_basic_header_reads_back() {
    for fmt in 0..4u8 {
        for csid in [2u32, 63, 64, 318, 319, 400, 65599] {
            let mut packer = ChunkPacketizer::new();
            packer.write_basic_header(fmt, csid);
            let w = packer.extract_current_bytes();
            let mut u = ChunkUnpacketizer::new();
            u.extend_data(&w);
            assert_eq!(
                u.read_basic_header().unwrap(),
                UnpackResult::ChunkBasicHeaderResult(ChunkBasicHeader::new(fmt, csid))
            );
            // nothing is left to read
            if fmt < 3 {
                assert_eq!(
                    u.read_message_header().unwrap_err().value,
                    UnpackErrorValue::BytesReadError(BytesReadError::NotEnoughBytes)
                );
            }
        }
    }
}
