//! A stream's transmitter: it caches what the publisher sends and tells
//! which subscribers get each frame. A new player first gets the cached
//! metadata, sequence headers and GOPs. The caller owns the channels and
//! does the sending.
use vstd::prelude::*;
use crate::cache::cache::{Cache, CacheModel, cache_after_audio, cache_after_video};
use crate::cache::frame::{FrameData, FrameModel};
use crate::cache::gop::{Gop, frames_view, flatten};
use crate::cache::metadata::is_metadata_body;
use crate::channels::define::{ChannelError, ChannelErrorValue, SubscriberInfo, SubscribeType};

verus! {

/// What a new subscriber gets before the live frames: nothing for a
/// publisher relay; for a player, the metadata, the AAC and AVC sequence
/// headers (each when there is one) and then every cached GOP frame.
pub open spec fn prior_data(c: CacheModel, sub_type: SubscribeType) -> Seq<FrameModel> {
    if sub_type == SubscribeType::PublisherRtmp {
        Seq::empty()
    } else {
        (if c.metadata.len() > 0 {
            seq![FrameModel::MetaData { timestamp: c.metadata_timestamp, data: c.metadata }]
        } else {
            Seq::empty()
        }) + (if c.audio_seq.len() > 0 {
            seq![FrameModel::Audio { timestamp: c.audio_timestamp, data: c.audio_seq }]
        } else {
            Seq::empty()
        }) + (if c.video_seq.len() > 0 {
            seq![FrameModel::Video { timestamp: c.video_timestamp, data: c.video_seq }]
        } else {
            Seq::empty()
        }) + if c.gops.size != 0 {
            flatten(c.gops.gops)
        } else {
            Seq::empty()
        }
    }
}

/// The subscribers other than `id`, in order.
pub open spec fn without(s: Seq<u128>, id: u128) -> Seq<u128> {
    s.filter(|x: u128| x != id)
}

pub proof fn lemma_without_push(s: Seq<u128>, x: u128, id: u128)
    ensures
        without(s.push(x), id) == if x != id {
            without(s, id).push(x)
        } else {
            without(s, id)
        },
{
    reveal(Seq::filter);
    assert(s.push(x).drop_last() =~= s);
}

/// The frame reached all subscribers of the moment.
pub open spec fn sent_to(r: Result<Vec<u128>, ChannelError>, subscribers: Seq<u128>) -> bool {
    r matches Ok(v) && v@ == subscribers
}

/// The cache refused the frame.
pub open spec fn cache_failed(r: Result<Vec<u128>, ChannelError>) -> bool {
    r matches Err(e) && e.value is CacheError
}

/// Mathematical model of a `Transmitter`.
pub struct TransmitterModel {
    pub subscribers: Seq<u128>,
    pub cache: CacheModel,
}

pub struct Transmitter {
    subscribers: Vec<u128>,
    cache: Cache,
}

impl View for Transmitter {
    type V = TransmitterModel;

    closed spec fn view(&self) -> TransmitterModel {
        TransmitterModel { subscribers: self.subscribers@, cache: self.cache@ }
    }
}

pub open spec fn frames_of(v: Seq<FrameData>) -> Seq<FrameModel> {
    frames_view(v)
}

impl Transmitter {
    pub fn new(gop_num: usize) -> (t: Self)
        ensures
            t@.subscribers == Seq::<u128>::empty(),
            t@.cache.metadata == Seq::<u8>::empty(),
            t@.cache.audio_seq == Seq::<u8>::empty(),
            t@.cache.video_seq == Seq::<u8>::empty(),
            t@.cache.gops.size == gop_num,
            t@.cache.gops.gops == seq![Seq::<FrameModel>::empty()],
    {
        Transmitter { subscribers: Vec::new(), cache: Cache::new(gop_num) }
    }

    fn append_gop(out: &mut Vec<FrameData>, gop: Gop)
        ensures
            frames_view(final(out)@) == frames_view(old(out)@) + gop@,
    {
        let frames = gop.get_frame_data();
        let mut i: usize = 0;
        let ghost start = out@;
        while i < frames.len()
            invariant
                i <= frames@.len(),
                frames_view(frames@) == gop@,
                frames_view(out@) == frames_view(start) + gop@.take(i as int),
            decreases frames@.len() - i,
        {
            let ghost before = out@;
            out.push(frames[i].copy());
            proof {
                assert(frames_view(out@) =~= frames_view(before).push(frames@[i as int]@));
                assert(gop@.take(i + 1) =~= gop@.take(i as int).push(gop@[i as int]));
            }
            i = i + 1;
        }
        assert(gop@.take(frames@.len() as int) =~= gop@);
    }

    /// Registers a subscriber and returns what it gets first; see
    /// `prior_data`. A subscriber registered already stays registered once.
    pub fn on_subscribe(&mut self, info: SubscriberInfo) -> (r: Vec<FrameData>)
        ensures
            frames_view(r@) == prior_data(old(self)@.cache, info.sub_type),
            final(self)@.cache == old(self)@.cache,
            final(self)@.subscribers == if old(self)@.subscribers.contains(info.id) {
                old(self)@.subscribers
            } else {
                old(self)@.subscribers.push(info.id)
            },
    {
        let mut out: Vec<FrameData> = Vec::new();
        let ghost c = self@.cache;
        match info.sub_type {
            SubscribeType::PublisherRtmp => {
                assert(frames_view(out@) =~= Seq::<FrameModel>::empty());
            },
            _ => {
                let ghost mut expected: Seq<FrameModel> = Seq::empty();
                assert(frames_view(out@) =~= expected);
                if let Some(meta) = self.cache.get_metadata() {
                    proof {
                        expected = expected.push(meta@);
                    }
                    out.push(meta);
                    assert(frames_view(out@) =~= expected);
                }
                if let Some(audio) = self.cache.get_audio_seq() {
                    proof {
                        expected = expected.push(audio@);
                    }
                    out.push(audio);
                    assert(frames_view(out@) =~= expected);
                }
                if let Some(video) = self.cache.get_video_seq() {
                    proof {
                        expected = expected.push(video@);
                    }
                    out.push(video);
                    assert(frames_view(out@) =~= expected);
                }
                let ghost heads = expected;
                if let Some(gops_data) = self.cache.get_gops_data() {
                    let mut gops = gops_data;
                    let ghost all = crate::cache::gop::gops_view(gops@);
                    let ghost mut taken: int = 0;
                    while gops.len() > 0
                        invariant
                            0 <= taken <= all.len(),
                            crate::cache::gop::gops_view(gops@) == all.skip(taken),
                            frames_view(out@) == heads + flatten(all.take(taken)),
                        decreases gops@.len(),
                    {
                        let ghost g0 = gops@;
                        assert(crate::cache::gop::gops_view(g0).len() == g0.len());
                        let gop = gops.pop_front().unwrap();
                        proof {
                            assert(gops@ =~= g0.drop_first());
                            assert(g0[0] == gop);
                            assert(crate::cache::gop::gops_view(g0)[0] == gop@);
                            assert(all.skip(taken)[0] == gop@);
                            assert(all.take(taken + 1).drop_last() =~= all.take(taken));
                            assert(all.take(taken + 1).last() == gop@);
                            assert(crate::cache::gop::gops_view(gops@) =~= crate::cache::gop::gops_view(
                                g0,
                            ).drop_first());
                            assert(all.skip(taken).drop_first() =~= all.skip(taken + 1));
                        }
                        Self::append_gop(&mut out, gop);
                        proof {
                            taken = taken + 1;
                        }
                    }
                    assert(crate::cache::gop::gops_view(gops@).len() == gops@.len());
                    assert(taken == all.len());
                    assert(all.take(taken) =~= all);
                }
                assert(frames_view(out@) == prior_data(c, info.sub_type)) by {
                    assert(heads =~= (if c.metadata.len() > 0 {
                        seq![FrameModel::MetaData { timestamp: c.metadata_timestamp, data: c.metadata }]
                    } else {
                        Seq::empty()
                    }) + (if c.audio_seq.len() > 0 {
                        seq![FrameModel::Audio { timestamp: c.audio_timestamp, data: c.audio_seq }]
                    } else {
                        Seq::empty()
                    }) + (if c.video_seq.len() > 0 {
                        seq![FrameModel::Video { timestamp: c.video_timestamp, data: c.video_seq }]
                    } else {
                        Seq::empty()
                    }));
                }
            },
        }
        let mut known = false;
        let mut i: usize = 0;
        while i < self.subscribers.len()
            invariant
                i <= self.subscribers@.len(),
                known == (exists|j: int| 0 <= j < i && self.subscribers@[j] == info.id),
            decreases self.subscribers@.len() - i,
        {
            if self.subscribers[i] == info.id {
                known = true;
            }
            i = i + 1;
        }
        if !known {
            self.subscribers.push(info.id);
        }
        out
    }

    /// Drops a subscriber.
    pub fn on_unsubscribe(&mut self, id: u128)
        ensures
            final(self)@.cache == old(self)@.cache,
            final(self)@.subscribers == without(old(self)@.subscribers, id),
    {
        let mut kept: Vec<u128> = Vec::new();
        let mut i: usize = 0;
        while i < self.subscribers.len()
            invariant
                i <= self.subscribers@.len(),
                kept@ == without(self.subscribers@.take(i as int), id),
            decreases self.subscribers@.len() - i,
        {
            let s = self.subscribers[i];
            let ghost prev = kept@;
            if s != id {
                kept.push(s);
            }
            proof {
                let t = self.subscribers@.take(i + 1);
                assert(t.drop_last() =~= self.subscribers@.take(i as int));
                assert(t.last() == s);
                lemma_without_push(self.subscribers@.take(i as int), s, id);
                assert(t =~= self.subscribers@.take(i as int).push(s));
            }
            i = i + 1;
        }
        assert(self.subscribers@.take(i as int) =~= self.subscribers@);
        self.subscribers = kept;
    }

    /// Caches a frame of the publisher and says who gets it: nobody for
    /// metadata, every subscriber for audio and video. A frame the cache
    /// cannot read stops the transmitter with the cache's error.
    pub fn on_data(&mut self, data: &FrameData) -> (r: Result<Vec<u128>, ChannelError>)
        ensures
            final(self)@.subscribers == old(self)@.subscribers,
            match data@ {
                FrameModel::MetaData { timestamp, data: body } => r matches Ok(v) && v@.len() == 0
                    && final(self)@.cache == (CacheModel {
                    metadata: if is_metadata_body(body) {
                        body
                    } else {
                        old(self)@.cache.metadata
                    },
                    metadata_timestamp: timestamp,
                    ..old(self)@.cache
                }),
                FrameModel::Audio { timestamp, data: body } => final(self)@.cache == cache_after_audio(
                    old(self)@.cache,
                    body,
                    timestamp,
                ).0 && (cache_after_audio(old(self)@.cache, body, timestamp).1 ==> sent_to(
                    r,
                    old(self)@.subscribers,
                )) && (!cache_after_audio(old(self)@.cache, body, timestamp).1 ==> cache_failed(r)),
                FrameModel::Video { timestamp, data: body } => final(self)@.cache == cache_after_video(
                    old(self)@.cache,
                    body,
                    timestamp,
                ).0 && (cache_after_video(old(self)@.cache, body, timestamp).1 ==> sent_to(
                    r,
                    old(self)@.subscribers,
                )) && (!cache_after_video(old(self)@.cache, body, timestamp).1 ==> cache_failed(r)),
            },
    {
        match data {
            FrameData::MetaData { timestamp, data: body } => {
                self.cache.save_metadata(body, *timestamp);
                Ok(Vec::new())
            },
            FrameData::Audio { timestamp, data: body } => {
                match self.cache.save_audio_data(body, *timestamp) {
                    Ok(()) => {},
                    Err(e) => return Err(ChannelError { value: ChannelErrorValue::CacheError(e) }),
                }
                let v = self.subscribers.clone();
                assert(v@ =~= self.subscribers@);
                Ok(v)
            },
            FrameData::Video { timestamp, data: body } => {
                match self.cache.save_video_data(body, *timestamp) {
                    Ok(()) => {},
                    Err(e) => return Err(ChannelError { value: ChannelErrorValue::CacheError(e) }),
                }
                let v = self.subscribers.clone();
                assert(v@ =~= self.subscribers@);
                Ok(v)
            },
        }
    }
}

} // verus!
