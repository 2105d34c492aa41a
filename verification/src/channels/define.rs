//! What publishers, subscribers and the channels manager exchange.
use vstd::prelude::*;
use crate::cache::cache::CacheError;

verus! {

/// Who subscribes to a stream.
#[derive(Debug, Clone, Copy, PartialEq, Eq)]
pub enum SubscribeType {
    PlayerRtmp,
    PlayerHttpFlv,
    PlayerHls,
    PublisherRtmp,
}

/// A subscriber: its id (a UUID, as a 128-bit number) and its kind.
#[derive(Debug, Clone, Copy, PartialEq, Eq)]
pub struct SubscriberInfo {
    pub id: u128,
    pub sub_type: SubscribeType,
}

/// Work for the relay clients: push a stream to, or pull it from, another
/// RTMP server.
#[derive(Debug, Clone, PartialEq, Eq)]
pub enum ClientEvent {
    Publish { app_name: String, stream_name: String },
    UnPublish { app_name: String, stream_name: String },
    Subscribe { app_name: String, stream_name: String },
    UnSubscribe { app_name: String, stream_name: String },
}

/// A publisher or subscriber, as the API names it when kicking it off.
#[derive(Debug, Clone, PartialEq, Eq)]
pub enum PubSubInfo {
    Subscribe { app_name: String, stream_name: String, sub_info: SubscriberInfo },
    Publish { app_name: String, stream_name: String },
}

#[derive(Debug, Clone, Copy, PartialEq, Eq)]
pub enum ChannelErrorValue {
    NoAppName,
    NoStreamName,
    NoAppOrStreamName,
    Exists,
    SendError,
    SendAudioError,
    SendVideoError,
    CacheError(CacheError),
}

#[derive(Debug, Clone, Copy, PartialEq, Eq)]
pub struct ChannelError {
    pub value: ChannelErrorValue,
}

} // verus!
