//! The media frames that travel from a publisher to its subscribers.
use vstd::prelude::*;

verus! {

/// A frame: FLV video or audio tag data, or script data, with its
/// timestamp.
#[derive(Debug, Clone, PartialEq, Eq)]
pub enum FrameData {
    Video { timestamp: u32, data: Vec<u8> },
    Audio { timestamp: u32, data: Vec<u8> },
    MetaData { timestamp: u32, data: Vec<u8> },
}

/// Mathematical model of a `FrameData`.
pub enum FrameModel {
    Video { timestamp: u32, data: Seq<u8> },
    Audio { timestamp: u32, data: Seq<u8> },
    MetaData { timestamp: u32, data: Seq<u8> },
}

impl View for FrameData {
    type V = FrameModel;

    open spec fn view(&self) -> FrameModel {
        match self {
            FrameData::Video { timestamp, data } => FrameModel::Video {
                timestamp: *timestamp,
                data: data@,
            },
            FrameData::Audio { timestamp, data } => FrameModel::Audio {
                timestamp: *timestamp,
                data: data@,
            },
            FrameData::MetaData { timestamp, data } => FrameModel::MetaData {
                timestamp: *timestamp,
                data: data@,
            },
        }
    }
}

pub fn copy_bytes(v: &Vec<u8>) -> (r: Vec<u8>)
    ensures
        r@ == v@,
{
    let r = v.clone();
    assert(r@ =~= v@);
    r
}

impl FrameData {
    /// A copy of the frame.
    pub fn copy(&self) -> (r: FrameData)
        ensures
            r@ == self@,
    {
        match self {
            FrameData::Video { timestamp, data } => FrameData::Video {
                timestamp: *timestamp,
                data: copy_bytes(data),
            },
            FrameData::Audio { timestamp, data } => FrameData::Audio {
                timestamp: *timestamp,
                data: copy_bytes(data),
            },
            FrameData::MetaData { timestamp, data } => FrameData::MetaData {
                timestamp: *timestamp,
                data: copy_bytes(data),
            },
        }
    }

    pub fn is_audio(&self) -> (b: bool)
        ensures
            b == self@ is Audio,
    {
        match self {
            FrameData::Audio { .. } => true,
            _ => false,
        }
    }
}

} // verus!
