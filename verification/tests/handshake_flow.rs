use xiu::handshake::client::SimpleHandshakeClient;
use xiu::handshake::define::{rtmp_client_key_first_half, ServerHandshakeState};
use xiu::handshake::digest::DigestProcessor;
use xiu::handshake::server::HandshakeServer;

#[test]
fn plain_client_and_server_complete_the_handshake() {
    let mut c = SimpleHandshakeClient::new();
    let mut s = HandshakeServer::new();
    c.handshake().unwrap();
    let c0c1 = c.extract_current_bytes();
    assert_eq!(c0c1.len(), 1537);
    assert_eq!(c0c1[0], 3);
    assert_eq!(&c0c1[5..9], &[0, 0, 0, 0]);

    s.extend_data(&c0c1);
    s.handshake().unwrap();
    let s0s1s2 = s.extract_current_bytes();
    assert_eq!(s0s1s2.len(), 1 + 1536 + 1536);
    assert_eq!(s0s1s2[0], 3);
    // S2 echoes C1's time stamp
    assert_eq!(&s0s1s2[1537..1541], &c0c1[1..5]);

    c.extend_data(&s0s1s2);
    c.handshake().unwrap();
    let c2 = c.extract_current_bytes();
    // C2 echoes S1
    assert_eq!(&c2[..], &s0s1s2[1..1537]);

    s.extend_data(&c2);
    s.handshake().unwrap();
    assert_eq!(s.state(), ServerHandshakeState::Finish);
}

#[test]
fn digest_client_gets_a_signed_answer() {
    // A C1 signed under the player key, as a Flash player sends it.
    let mut c1 = vec![0u8; 1536];
    c1[4] = 9;
    for i in 8..1536 {
        c1[i] = (i * 7 % 256) as u8;
    }
    let signed = DigestProcessor::new(c1, rtmp_client_key_first_half())
        .generate_and_fill_digest()
        .unwrap();
    let mut s = HandshakeServer::new();
    let mut c0c1 = vec![3u8];
    c0c1.extend_from_slice(&signed);
    s.extend_data(&c0c1);
    s.handshake().unwrap();
    let out = s.extract_current_bytes();
    assert_eq!(out.len(), 1 + 1536 + 1536);
    assert_eq!(out[0], 3);
}

#[test]
fn short_input_is_not_enough() {
    let mut s = HandshakeServer::new();
    s.extend_data(&[3, 0, 0]);
    assert!(s.handshake().is_err());
    assert!(s.extract_current_bytes().is_empty());
}
