use xiu::cache::frame::FrameData;
use xiu::channels::define::{ChannelErrorValue, ClientEvent, SubscribeType, SubscriberInfo};
use xiu::channels::manager::ChannelsManager;
use xiu::channels::transmitter::Transmitter;

fn s(v: &str) -> String {
    String::from(v)
}

#[test]
fn publish_subscribe_unpublish() {
    let mut m = ChannelsManager::new();
    m.set_rtmp_push_enabled(true);
    let (id, ev) = m.publish(&s("live"), &s("cam")).unwrap();
    assert_eq!(ev, Some(ClientEvent::Publish { app_name: s("live"), stream_name: s("cam") }));
    let (id2, _) = m.publish(&s("live"), &s("cam2")).unwrap();
    assert_ne!(id, id2);
    assert_eq!(
        m.publish(&s("live"), &s("cam")).unwrap_err().value,
        ChannelErrorValue::Exists
    );
    assert_eq!(m.subscribe(&s("live"), &s("cam")).0.unwrap(), id);
    assert_eq!(m.unsubscribe(&s("live"), &s("cam")).unwrap(), id);
    assert_eq!(m.unpublish(&s("live"), &s("cam")).unwrap(), id);
    assert_eq!(
        m.unpublish(&s("live"), &s("cam")).unwrap_err().value,
        ChannelErrorValue::NoStreamName
    );
    assert_eq!(
        m.unpublish(&s("other"), &s("cam")).unwrap_err().value,
        ChannelErrorValue::NoAppName
    );
    let (r, ev) = m.subscribe(&s("live"), &s("cam"));
    assert_eq!(r.unwrap_err().value, ChannelErrorValue::NoAppOrStreamName);
    assert!(ev.is_none());
}

#[test]
fn pull_asks_the_relay_for_unknown_streams() {
    let mut m = ChannelsManager::new();
    m.set_rtmp_pull_enabled(true);
    let (r, ev) = m.subscribe(&s("live"), &s("far"));
    assert!(r.is_err());
    assert_eq!(ev, Some(ClientEvent::Subscribe { app_name: s("live"), stream_name: s("far") }));
    m.set_rtmp_gop_num(3);
    assert_eq!(m.rtmp_gop_num(), 3);
}

#[test]
fn transmitter_hands_out_sequence_headers_and_gops() {
    let mut t = Transmitter::new(1);
    let seq = FrameData::Video { timestamp: 0, data: vec![0x17, 0x00, 0, 0, 0, 1] };
    let key = FrameData::Video { timestamp: 40, data: vec![0x17, 0x01, 0, 0, 0, 5] };
    assert_eq!(t.on_data(&seq).unwrap(), Vec::<u128>::new());
    let player = SubscriberInfo { id: 7, sub_type: SubscribeType::PlayerRtmp };
    let first = t.on_subscribe(player);
    assert_eq!(first[0], seq);
    assert_eq!(t.on_data(&key).unwrap(), vec![7u128]);
    let late = t.on_subscribe(SubscriberInfo { id: 8, sub_type: SubscribeType::PlayerHttpFlv });
    assert_eq!(late[0], seq);
    assert!(late.contains(&key));
    let publisher = t.on_subscribe(SubscriberInfo { id: 9, sub_type: SubscribeType::PublisherRtmp });
    assert!(publisher.is_empty());
    t.on_unsubscribe(7);
    assert_eq!(t.on_data(&key).unwrap(), vec![8u128, 9u128]);
}
