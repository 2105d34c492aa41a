use xiu::gb28181::api_service::{ApiService, RequestFormData};
use xiu::gb28181::errors::Gb28181ErrorValue;
use xiu::gb28181::server::GB28181Server;
use xiu::gb28181::session::{millis_from_epoch, GB28181ServerSession, GB28181StreamHandler};

fn form(secret: &str, stream: Option<&str>) -> RequestFormData {
    RequestFormData {
        secret: String::from(secret),
        schema: None,
        stream_id: stream.map(String::from),
        re_use_port: None,
        port: None,
        tcp_mode: None,
        need_dump: None,
    }
}

#[test]
fn sessions_are_unique_by_stream_name() {
    let mut server = GB28181Server::new();
    assert_eq!(server.start_session(String::from("cam"), Some(30000)).unwrap(), 30000);
    assert!(server.session_exists(&String::from("cam")));
    assert_eq!(
        server.start_session(String::from("cam"), Some(30002)).unwrap_err().value,
        Gb28181ErrorValue::SessionExists
    );
    assert_eq!(
        server.start_session(String::from("other"), None).unwrap_err().value,
        Gb28181ErrorValue::NewSessionFailed
    );
    assert!(server.stop_session(&String::from("cam")));
    assert!(!server.stop_session(&String::from("cam")));
    assert_eq!(server.start_session(String::from("cam"), Some(30004)).unwrap(), 30004);
}

#[test]
fn api_checks_the_secret_first() {
    let api = ApiService::new(String::from("xiu"));
    assert_eq!(api.secret_code(&form("xiu", None)), 0);
    assert_eq!(api.secret_code(&form("bad", None)), -1);
    let e = api.open_rtp_server(&form("bad", Some("cam"))).err().unwrap();
    assert_eq!(e.code, -1);
    assert_eq!(e.err_msg, "The secret is not correct");
    let e = api.open_rtp_server(&form("xiu", None)).err().unwrap();
    assert_eq!(e.code, -2);
    assert_eq!(e.err_msg, "The stream name should not be empty");
    let mut f = form("xiu", Some("cam"));
    let plan = api.open_rtp_server(&f).ok().unwrap();
    assert_eq!((plan.local_port, plan.stream_name.as_str(), plan.need_dump), (0, "cam", false));
    f.port = Some(30000);
    f.need_dump = Some(true);
    let plan = api.open_rtp_server(&f).ok().unwrap();
    assert_eq!((plan.local_port, plan.need_dump), (30000, true));
    let bad = form("bad", Some("cam"));
    let (code, stream) = api.close_rtp_server(&bad);
    assert_eq!((code, stream.as_str()), (-1, "cam"));
}

#[test]
fn dump_records_frame_the_packets() {
    let mut s = GB28181ServerSession::new(30000, String::from("cam"), true);
    let r = s.dump_at(1000, &[1, 2, 3]);
    assert_eq!(r, vec![0, 0, 0, 3, 1, 2, 3]);
    let r = s.dump_at(1300, &[9]);
    assert_eq!(r, vec![0x01, 0x2C, 0, 1, 9]);
    let r = s.dump_at(1300 + 70000, &[]);
    assert_eq!(r, vec![(70000u32 % 65536 >> 8) as u8, (70000u32 % 65536) as u8, 0, 0]);
    let mut quiet = GB28181ServerSession::new(30000, String::from("cam"), false);
    assert!(quiet.dump(&[1]).is_empty());
    assert!(!s.dump(&[5]).is_empty());
    let _ = GB28181StreamHandler::new();
}

#[test]
fn millis_truncate_to_64_bits() {
    assert_eq!(millis_from_epoch(None), 0);
    assert_eq!(millis_from_epoch(Some(1234)), 1234);
    assert_eq!(millis_from_epoch(Some((1u128 << 64) + 5)), 5);
}
