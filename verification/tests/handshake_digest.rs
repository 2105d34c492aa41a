use xiu::handshake::define::{rtmp_client_key_first_half, SchemaVersion};
use xiu::handshake::errors::HandshakeErrorValue;
use xiu::handshake::digest::{find_digest, find_digest_offset, make_digest, DigestProcessor};

#[test]
fn test_find_digest() {
        let data: [u8; 1536] = [
            120, 70, 39, 240, //time
            0, 0, 0, 0, //version
            167, 65, 0, 0, 241, 58, 214, 16, 217, 172, 183, 96, 42, 12, 181, 58, 130, 183, 49, 68,
            200, 218, 6, 28, 216, 142, 5, 6, 254, 9, 229, 86, 67, 47, 243, 86, 77, 4, 164, 119,
            152, 152, 22, 49, 85, 60, 124, 66, 140, 18, 93, 106, 226, 219, 108, 4, 179, 212, 215,
            6, 71, 55, 205, 67, 23, 57, 232, 85, 17, 65, 252, 0, 152, 195, 19, 49, 84, 73, 142, 8,
            47, 46, 112, 53, 17, 43, 232, 87, 45, 150, 99, 75, 5, 139, 24, 119, 88, 50, 79, 108,
            245, 102, 114, 67, 107, 129, 197, 11, 214, 157, 179, 83, 136, 119, 63, 53, 7, 157, 192,
            89, 153, 100, 133, 116, 146, 180, 143, 97, 72, 15, 152, 33, 51, 81, 19, 6, 98, 238, 55,
            94, 65, 148, 3, 42, 243, 76, 250, 80, 13, 15, 210, 96, 35, 80, 218, 126, 229, 106, 195,
            46, 95, 248, 158, 31, 48, 53, 196, 125, 209, 34, 128, 92, 200, 246, 109, 96, 237, 245,
            100, 83, 97, 197, 77, 9, 12, 104, 217, 80, 75, 21, 62, 113, 2, 41, 232, 34, 53, 84,
            220, 55, 57, 128, 28, 98, 129, 80, 38, 61, 132, 100, 111, 30, 184, 37, 48, 35, 20, 101,
            252, 45, 162, 27, 80, 21, 156, 51, 70, 62, 180, 102, 230, 114, 90, 238, 96, 116, 103,
            146, 192, 7, 42, 172, 203, 115, 202, 52, 148, 64, 229, 218, 21, 66, 72, 18, 214, 40,
            233, 73, 74, 126, 197, 160, 58, 63, 241, 5, 17, 34, 176, 34, 157, 11, 196, 86, 80, 121,
            21, 156, 112, 9, 138, 43, 23, 64, 229, 145, 43, 49, 155, 106, 119, 35, 77, 248, 247,
            116, 57, 195, 206, 67, 246, 245, 114, 59, 247, 7, 114, 120, 232, 38, 105, 6, 161, 76,
            121, 97, 5, 16, 150, 98, 211, 234, 245, 105, 254, 248, 11, 16, 237, 243, 7, 2, 165, 77,
            31, 88, 213, 184, 34, 111, 243, 224, 148, 80, 217, 154, 60, 94, 228, 76, 218, 92, 91,
            60, 238, 127, 250, 187, 188, 113, 108, 84, 217, 29, 195, 141, 53, 39, 81, 17, 238, 44,
            226, 243, 178, 65, 32, 156, 169, 75, 174, 31, 73, 108, 12, 16, 191, 52, 225, 158, 182,
            107, 6, 253, 120, 34, 152, 166, 43, 53, 109, 96, 198, 68, 97, 183, 228, 59, 255, 95,
            195, 36, 52, 113, 211, 22, 161, 24, 173, 19, 30, 252, 43, 73, 25, 59, 181, 102, 253,
            26, 59, 4, 54, 218, 104, 68, 80, 50, 206, 63, 233, 66, 73, 122, 183, 13, 200, 95, 129,
            154, 252, 70, 143, 175, 3, 114, 195, 15, 251, 79, 58, 244, 199, 107, 30, 67, 115, 20,
            15, 113, 59, 27, 192, 157, 123, 91, 44, 215, 177, 16, 68, 146, 165, 11, 85, 180, 37,
            35, 122, 74, 98, 0, 200, 143, 7, 53, 171, 174, 112, 3, 80, 94, 219, 90, 201, 4, 13,
            120, 178, 101, 181, 30, 222, 152, 39, 23, 178, 34, 165, 40, 246, 232, 136, 113, 181,
            168, 118, 83, 226, 45, 62, 19, 76, 90, 54, 87, 79, 96, 98, 49, 221, 251, 160, 49, 159,
            131, 247, 63, 136, 92, 226, 18, 103, 238, 40, 75, 189, 210, 59, 108, 206, 173, 136, 75,
            31, 214, 74, 122, 242, 203, 47, 71, 97, 161, 246, 18, 0, 241, 220, 125, 142, 119, 82,
            52, 120, 38, 39, 18, 151, 153, 78, 72, 151, 173, 69, 32, 14, 165, 135, 62, 52, 90, 101,
            59, 98, 42, 5, 123, 7, 199, 33, 16, 215, 164, 145, 25, 94, 44, 221, 40, 71, 228, 139,
            80, 161, 26, 56, 16, 88, 72, 92, 83, 41, 180, 145, 79, 142, 24, 203, 102, 91, 71, 185,
            31, 162, 183, 251, 60, 245, 11, 213, 49, 98, 27, 4, 26, 70, 204, 161, 3, 134, 9, 106,
            115, 156, 119, 151, 54, 196, 190, 45, 18, 46, 63, 71, 121, 54, 35, 133, 52, 42, 201,
            202, 16, 2, 237, 92, 113, 115, 88, 204, 11, 18, 236, 194, 20, 100, 156, 24, 9, 230,
            109, 195, 46, 6, 47, 100, 32, 135, 67, 75, 17, 239, 92, 62, 100, 83, 130, 71, 58, 9,
            53, 189, 44, 209, 248, 228, 57, 8, 127, 139, 103, 83, 27, 65, 119, 79, 35, 105, 83, 81,
            66, 141, 27, 248, 225, 252, 86, 101, 141, 87, 116, 143, 29, 4, 32, 180, 167, 48, 110,
            240, 82, 82, 60, 128, 41, 195, 64, 183, 179, 217, 76, 203, 218, 165, 104, 25, 123, 191,
            96, 238, 215, 42, 59, 154, 104, 198, 121, 235, 148, 253, 80, 215, 249, 59, 56, 24, 175,
            143, 105, 204, 134, 48, 88, 79, 232, 225, 89, 162, 200, 90, 126, 124, 68, 42, 122, 140,
            103, 246, 108, 55, 80, 8, 37, 223, 93, 202, 68, 193, 254, 216, 65, 173, 82, 61, 13,
            165, 226, 254, 52, 209, 217, 209, 73, 51, 78, 51, 112, 209, 47, 83, 56, 58, 95, 104,
            93, 190, 8, 68, 111, 3, 43, 154, 91, 240, 0, 126, 102, 33, 193, 111, 90, 233, 139, 240,
            94, 177, 158, 113, 2, 183, 119, 105, 113, 140, 201, 50, 67, 203, 40, 78, 59, 216, 69,
            88, 8, 47, 108, 81, 91, 127, 176, 149, 62, 242, 129, 118, 85, 179, 98, 77, 87, 140, 2,
            139, 25, 109, 66, 84, 117, 72, 62, 213, 110, 208, 33, 236, 113, 30, 25, 160, 69, 72,
            36, 209, 17, 27, 252, 164, 57, 45, 110, 163, 126, 79, 141, 150, 27, 175, 75, 23, 57,
            113, 235, 105, 40, 113, 92, 224, 65, 128, 32, 213, 112, 95, 237, 72, 56, 215, 20, 216,
            59, 242, 77, 64, 103, 211, 127, 189, 46, 158, 13, 19, 27, 244, 13, 227, 127, 196, 79,
            169, 19, 241, 214, 179, 80, 155, 145, 228, 78, 148, 127, 19, 0, 150, 205, 28, 0, 232,
            50, 253, 98, 29, 80, 25, 93, 171, 207, 218, 40, 129, 248, 119, 53, 147, 248, 91, 87,
            179, 167, 28, 87, 115, 5, 70, 26, 126, 206, 15, 107, 27, 233, 189, 90, 39, 26, 19, 106,
            217, 44, 26, 12, 196, 96, 118, 10, 57, 233, 202, 97, 87, 207, 149, 80, 22, 130, 95, 27,
            100, 128, 85, 27, 65, 51, 96, 10, 185, 245, 196, 49, 53, 94, 224, 121, 21, 40, 73, 121,
            232, 184, 230, 49, 240, 160, 117, 34, 60, 254, 152, 88, 149, 66, 91, 36, 216, 86, 112,
            99, 232, 177, 85, 100, 206, 41, 19, 54, 30, 175, 29, 36, 24, 237, 211, 24, 100, 207,
            114, 1, 250, 174, 141, 24, 173, 171, 218, 125, 104, 43, 61, 31, 221, 200, 236, 104,
            252, 90, 119, 17, 89, 95, 246, 50, 50, 230, 237, 76, 19, 4, 164, 22, 1, 135, 7, 106, 9,
            137, 48, 20, 57, 184, 116, 126, 11, 231, 234, 32, 15, 148, 230, 29, 31, 116, 2, 13,
            229, 165, 21, 28, 202, 107, 62, 81, 113, 196, 22, 89, 104, 4, 187, 101, 5, 124, 30, 89,
            248, 89, 96, 96, 54, 218, 178, 85, 46, 59, 20, 81, 152, 114, 57, 7, 220, 92, 146, 76,
            202, 150, 14, 29, 173, 182, 205, 40, 200, 44, 148, 89, 106, 44, 8, 15, 219, 234, 155,
            97, 237, 1, 88, 67, 37, 145, 230, 70, 128, 56, 67, 75, 26, 130, 50, 42, 154, 142, 251,
            89, 157, 78, 79, 18, 207, 46, 178, 20, 166, 34, 31, 62, 38, 224, 27, 110, 67, 23, 25,
            104, 25, 101, 70, 71, 221, 112, 151, 94, 175, 237, 114, 40, 232, 144, 82, 17, 58, 120,
            167, 67, 137, 74, 198, 39, 197, 124, 71, 75, 31, 144, 80, 66, 60, 5, 38, 55, 109, 194,
            33, 33, 25, 147, 99, 47, 157, 102, 78, 50, 56, 231, 50, 57, 222, 42, 234, 60, 16, 116,
            164, 49, 230, 223, 191, 35, 96, 135, 4, 10, 195, 180, 83, 47, 123, 134, 128, 32, 232,
            5, 253, 85, 114, 238, 142, 86, 195, 170, 200, 65, 242, 9, 67, 93, 179, 30, 66, 92, 22,
            169, 237, 120, 96, 33, 248, 58, 222, 67, 87, 120, 139, 225, 40, 41, 201, 129, 239, 58,
            89, 209, 49, 66, 2, 76, 167, 84, 185, 66, 111, 51, 16, 154, 133, 77, 50, 184, 69, 126,
            98, 27, 64, 19, 205, 200, 197, 85, 185, 54, 2, 44, 65, 194, 86, 69, 247, 92, 235, 66,
            115, 126, 36, 106, 118, 230, 233, 1, 245, 77, 25, 35, 211, 33, 77, 82, 219, 205, 231,
            69, 183, 8, 124, 117, 163, 98, 32, 34, 213, 204, 43, 124, 163, 243, 148, 31, 135, 98,
            7, 108, 121, 196, 213, 88, 127, 17, 86, 58, 196, 198, 150, 104, 129, 163, 211, 2, 154,
            107, 147, 20, 3, 86, 125, 90, 94, 13, 154, 90, 202, 196, 227, 55, 112, 198, 140, 74,
            76, 9, 56, 96, 237, 141, 234, 126, 179, 3, 12, 89,
        ];

    // This C1 carries version 0, the mark of a simple handshake: neither
    // schema's digest field holds the HMAC of the rest under the player
    // key, so the search ends with `DigestNotFound`.
    let r = find_digest(&data, rtmp_client_key_first_half().as_slice());
    assert_eq!(r.err().unwrap().value, HandshakeErrorValue::DigestNotFound);
}

#[test]
fn make_digest_is_hmac_sha256() {
    // RFC 4231, test case 2
    let d = make_digest(b"what do ya want for nothing?", b"Jefe");
    assert_eq!(
        hex::encode(d),
        "5bdcc146bf60754e6a042426089575c75a003f089d2739839dec58b964ec3843"
    );
}

fn sample_c1() -> Vec<u8> {
    let mut v = Vec::new();
    for i in 0..1536u32 {
        v.push((i.wrapping_mul(31).wrapping_add(7) % 251) as u8);
    }
    v
}

#[test]
fn filled_digest_is_found_again() {
    let key = rtmp_client_key_first_half();
    let mut p = DigestProcessor::new(sample_c1(), key.clone());
    let filled = p.generate_and_fill_digest().unwrap();
    assert_eq!(filled.len(), 1536);
    assert_ne!(filled, sample_c1());
    let mut q = DigestProcessor::new(filled.clone(), key.clone());
    let (digest, version) = q.read_digest().unwrap();
    assert!(version == SchemaVersion::Schema0);
    let arr: [u8; 1536] = filled.as_slice().try_into().unwrap();
    let found = find_digest(&arr, key.as_slice()).unwrap();
    assert_eq!(found.digest_content.to_vec(), digest);
}

#[test]
fn random_data_has_no_digest() {
    let key = rtmp_client_key_first_half();
    let mut p = DigestProcessor::new(sample_c1(), key);
    assert!(p.read_digest().is_err());
}

#[test]
fn digest_offset_stays_inside_its_half() {
    let data: [u8; 1536] = [255u8; 1536];
    let o0 = find_digest_offset(&data, &SchemaVersion::Schema0);
    let o1 = find_digest_offset(&data, &SchemaVersion::Schema1);
    // four bytes of 255 sum to 1020; 1020 % 728 = 292
    assert_eq!(o0, 292 + 776);
    assert_eq!(o1, 292 + 12);
}

#[test]
fn test_array() {
    let vec1: [u8; 3] = [1, 2, 3];
    let vec2: [u8; 3] = [4, 5, 6];

    let v3 = xiu::bytes_io::concat_bytes(&vec1, &vec2);
    assert_eq!(v3, vec![1, 2, 3, 4, 5, 6]);

    let line: Vec<String> = v3.iter().map(|i| format!("{}", i)).collect();
    println!("{}", line.join(" "));
}
