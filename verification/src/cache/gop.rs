//! The GOP cache: the latest groups of pictures of a stream, handed to a
//! new subscriber so that it can start decoding at once.
use vstd::prelude::*;
use std::collections::VecDeque;
use crate::cache::frame::{FrameData, FrameModel};

verus! {

/// Default upper bound on the number of frames a single GOP may hold. The
/// cache normally rotates when a video key frame arrives; an audio-only
/// stream never produces one, so without this cap a single GOP would grow
/// without bound. The whole cache is bounded by the GOP count times this.
pub const DEFAULT_MAX_GOP_FRAME_NUM: usize = 2000;

pub open spec fn frames_view(s: Seq<FrameData>) -> Seq<FrameModel> {
    s.map_values(|f: FrameData| f@)
}

/// The GOPs' frames, oldest first.
pub open spec fn flatten(gops: Seq<Seq<FrameModel>>) -> Seq<FrameModel>
    decreases gops.len(),
{
    if gops.len() == 0 {
        Seq::empty()
    } else {
        flatten(gops.drop_last()) + gops.last()
    }
}

/// Whether a group holds a video frame.
pub open spec fn gop_has_video(g: Seq<FrameModel>) -> bool {
    exists|i: int| 0 <= i < g.len() && #[trigger] g[i] is Video
}

/// One group of pictures: a key frame and what follows it.
pub struct Gop {
    datas: Vec<FrameData>,
}

impl View for Gop {
    type V = Seq<FrameModel>;

    closed spec fn view(&self) -> Seq<FrameModel> {
        frames_view(self.datas@)
    }
}

impl Gop {
    pub fn new() -> (g: Self)
        ensures
            g@ == Seq::<FrameModel>::empty(),
    {
        let g = Self { datas: Vec::new() };
        assert(g@ =~= Seq::<FrameModel>::empty());
        g
    }

    fn save_frame_data(&mut self, data: FrameData)
        ensures
            final(self)@ == old(self)@.push(data@),
    {
        self.datas.push(data);
        assert(self@ =~= old(self)@.push(data@));
    }

    pub fn get_frame_data(self) -> (r: Vec<FrameData>)
        ensures
            frames_view(r@) == self@,
    {
        self.datas
    }

    pub fn len(&self) -> (n: usize)
        ensures
            n == self@.len(),
    {
        self.datas.len()
    }

    pub fn is_empty(&self) -> (b: bool)
        ensures
            b == (self@.len() == 0),
    {
        self.len() == 0
    }

    /// Whether the group holds a video frame. A video group starts with
    /// its key frame, so the search mostly ends at the first frame.
    pub fn has_video(&self) -> (b: bool)
        ensures
            b == gop_has_video(self@),
    {
        let mut i: usize = 0;
        while i < self.datas.len()
            invariant
                i <= self.datas@.len(),
                forall|j: int| 0 <= j < i ==> !(#[trigger] self@[j] is Video),
            decreases self.datas@.len() - i,
        {
            assert(self@[i as int] == self.datas@[i as int]@);
            if !self.datas[i].is_audio() {
                match &self.datas[i] {
                    FrameData::Video { .. } => {
                        return true;
                    },
                    _ => {},
                }
            }
            i = i + 1;
        }
        false
    }

    /// A copy of the group.
    pub fn copy(&self) -> (r: Gop)
        ensures
            r@ == self@,
    {
        let mut datas: Vec<FrameData> = Vec::new();
        let mut i: usize = 0;
        while i < self.datas.len()
            invariant
                i <= self.datas@.len(),
                frames_view(datas@) == self@.subrange(0, i as int),
            decreases self.datas@.len() - i,
        {
            let ghost prev = datas@;
            let c = self.datas[i].copy();
            datas.push(c);
            proof {
                assert(frames_view(datas@) =~= frames_view(prev).push(c@));
                assert(self@[i as int] == self.datas@[i as int]@);
                assert(self@.subrange(0, i + 1) =~= self@.subrange(0, i as int).push(
                    self@[i as int],
                ));
            }
            i = i + 1;
        }
        let r = Gop { datas };
        assert(r@ =~= self@);
        r
    }
}

impl Default for Gop {
    fn default() -> (g: Self)
        ensures
            g@ == Seq::<FrameModel>::empty(),
    {
        Self::new()
    }
}

pub open spec fn gops_view(s: Seq<Gop>) -> Seq<Seq<FrameModel>> {
    s.map_values(|g: Gop| g@)
}

/// Mathematical model of a `Gops`.
pub struct GopsModel {
    pub gops: Seq<Seq<FrameModel>>,
    pub size: usize,
    pub max_frame_num: usize,
}

/// The frame cap a configuration asks for: unset or 0 means the default.
pub open spec fn frame_cap(max_frame_num: Option<usize>) -> usize {
    match max_frame_num {
        Some(n) => if n > 0 {
            n
        } else {
            DEFAULT_MAX_GOP_FRAME_NUM
        },
        None => DEFAULT_MAX_GOP_FRAME_NUM,
    }
}

/// Whether an audio frame opens a new GOP: the latest GOP holds no video
/// frame (the stream is audio only) and `max_frame_num` frames already. A
/// video GOP is never split by the cap; it ends at the next key frame.
pub open spec fn audio_gop_is_full(m: GopsModel, f: FrameModel) -> bool {
    f is Audio && m.gops.len() > 0 && m.gops.last().len() >= m.max_frame_num && !gop_has_video(
        m.gops.last(),
    )
}

/// The cache after saving a frame. With a GOP count of 0 nothing is kept.
/// A video key frame opens a new GOP, and so does an audio frame when the
/// latest GOP is a full audio-only GOP (see `audio_gop_is_full`); when
/// `size` GOPs are held the oldest is dropped first. The frame goes to the
/// latest GOP.
pub open spec fn gops_after_save(m: GopsModel, f: FrameModel, is_key_frame: bool) -> GopsModel {
    if m.size == 0 {
        m
    } else {
        let audio_gop_is_full = audio_gop_is_full(m, f);
        let rotated = if is_key_frame || audio_gop_is_full {
            (if m.gops.len() == m.size {
                m.gops.drop_first()
            } else {
                m.gops
            }).push(Seq::empty())
        } else {
            m.gops
        };
        let gops = if rotated.len() > 0 {
            rotated.update(rotated.len() - 1, rotated.last().push(f))
        } else {
            rotated
        };
        GopsModel { gops, ..m }
    }
}

/// The latest `size` GOPs of a stream.
pub struct Gops {
    gops: VecDeque<Gop>,
    size: usize,
    max_frame_num: usize,
}

impl View for Gops {
    type V = GopsModel;

    closed spec fn view(&self) -> GopsModel {
        GopsModel {
            gops: gops_view(self.gops@),
            size: self.size,
            max_frame_num: self.max_frame_num,
        }
    }
}

impl Gops {
    /// A cache of at most `size` GOPs, each capped at `max_frame_num`
    /// frames (unset or 0: the default cap). It starts with one empty GOP.
    pub fn new(size: usize, max_frame_num: Option<usize>) -> (g: Self)
        ensures
            g@ == (GopsModel {
                gops: seq![Seq::<FrameModel>::empty()],
                size,
                max_frame_num: frame_cap(max_frame_num),
            }),
    {
        let mut gops: VecDeque<Gop> = VecDeque::new();
        gops.push_back(Gop::new());
        let cap = match max_frame_num {
            Some(n) => if n > 0 {
                n
            } else {
                DEFAULT_MAX_GOP_FRAME_NUM
            },
            None => DEFAULT_MAX_GOP_FRAME_NUM,
        };
        let g = Self { gops, size, max_frame_num: cap };
        assert(g@.gops =~= seq![Seq::<FrameModel>::empty()]);
        g
    }

    pub fn save_frame_data(&mut self, data: FrameData, is_key_frame: bool)
        ensures
            final(self)@ == gops_after_save(old(self)@, data@, is_key_frame),
    {
        if self.size == 0 {
            return;
        }
        let ghost m0 = self@;
        let n = self.gops.len();
        let audio_gop_is_full = data.is_audio() && n > 0 && self.gops[n - 1].len()
            >= self.max_frame_num && !self.gops[n - 1].has_video();
        proof {
            if n > 0 {
                assert(m0.gops.last() == self.gops@[n - 1]@);
            }
        }
        if is_key_frame || audio_gop_is_full {
            if self.gops.len() == self.size {
                self.gops.pop_front();
            }
            self.gops.push_back(Gop::new());
        }
        let ghost rotated = self@.gops;
        let ghost f = data@;
        proof {
            if is_key_frame || audio_gop_is_full {
                let kept = if m0.gops.len() == m0.size {
                    m0.gops.drop_first()
                } else {
                    m0.gops
                };
                assert(rotated =~= kept.push(Seq::<FrameModel>::empty()));
            } else {
                assert(rotated =~= m0.gops);
            }
        }
        let ghost before = self.gops@;
        match self.gops.pop_back() {
            Some(mut gop) => {
                gop.save_frame_data(data);
                self.gops.push_back(gop);
                proof {
                    assert(before.len() > 0);
                    assert(self.gops@ =~= before.drop_last().push(gop));
                    assert(self@.gops =~= rotated.update(rotated.len() - 1, rotated.last().push(f)));
                }
            },
            None => {
                assert(rotated.len() == 0);
            },
        }
    }

    /// Whether the cache keeps anything at all.
    pub fn setted(&self) -> (b: bool)
        ensures
            b == (self@.size != 0),
    {
        self.size != 0
    }

    /// A copy of the held GOPs, oldest first.
    pub fn get_gops(&self) -> (r: VecDeque<Gop>)
        ensures
            gops_view(r@) == self@.gops,
    {
        let mut r: VecDeque<Gop> = VecDeque::new();
        let mut i: usize = 0;
        while i < self.gops.len()
            invariant
                i <= self.gops@.len(),
                gops_view(r@) == self@.gops.subrange(0, i as int),
            decreases self.gops@.len() - i,
        {
            let ghost prev = r@;
            let c = self.gops[i].copy();
            r.push_back(c);
            proof {
                assert(gops_view(r@) =~= gops_view(prev).push(c@));
                assert(self@.gops[i as int] == self.gops@[i as int]@);
                assert(self@.gops.subrange(0, i + 1) =~= self@.gops.subrange(0, i as int).push(
                    self@.gops[i as int],
                ));
            }
            i = i + 1;
        }
        assert(self@.gops.subrange(0, self@.gops.len() as int) =~= self@.gops);
        r
    }
}

impl Default for Gops {
    fn default() -> (g: Self)
        ensures
            g@ == (GopsModel {
                gops: seq![Seq::<FrameModel>::empty()],
                size: 1,
                max_frame_num: DEFAULT_MAX_GOP_FRAME_NUM,
            }),
    {
        Self::new(1, None)
    }
}

/// What every cache built by `Gops::new` and `save_frame_data` satisfies:
/// a positive frame cap; with a positive GOP count, between one and `size`
/// GOPs; and every GOP without video within the frame cap.
pub open spec fn gops_wf(m: GopsModel) -> bool {
    &&& m.max_frame_num > 0
    &&& m.size > 0 ==> 1 <= m.gops.len() <= m.size
    &&& forall|g: int|
        0 <= g < m.gops.len() && !gop_has_video(#[trigger] m.gops[g]) ==> m.gops[g].len()
            <= m.max_frame_num
}

/// Law (GOP cache): a new cache is well formed.
pub proof fn lemma_new_gops_wf(size: usize, max_frame_num: Option<usize>)
    ensures
        gops_wf(
            GopsModel {
                gops: seq![Seq::<FrameModel>::empty()],
                size,
                max_frame_num: frame_cap(max_frame_num),
            },
        ),
{
}

/// Law (GOP cache): saving a frame keeps the cache well formed. So the
/// number of GOPs never exceeds the configured count, and a GOP without
/// video never holds more than the frame cap: an audio-only stream keeps
/// at most `size * max_frame_num` frames. (The cache saves audio and
/// video frames only; metadata is kept apart.)
pub proof fn lemma_save_keeps_wf(m: GopsModel, f: FrameModel, is_key_frame: bool)
    requires
        gops_wf(m),
        !(f is MetaData),
    ensures
        gops_wf(gops_after_save(m, f, is_key_frame)),
{
    let m2 = gops_after_save(m, f, is_key_frame);
    if m.size > 0 {
        let full = audio_gop_is_full(m, f);
        let kept = if m.gops.len() == m.size {
            m.gops.drop_first()
        } else {
            m.gops
        };
        let rotated = if is_key_frame || full {
            kept.push(Seq::<FrameModel>::empty())
        } else {
            m.gops
        };
        assert forall|g: int|
            0 <= g < m2.gops.len() && !gop_has_video(#[trigger] m2.gops[g]) implies m2.gops[g].len()
                <= m2.max_frame_num by {
            if g < rotated.len() - 1 {
                if (is_key_frame || full) && m.gops.len() == m.size {
                    assert(m2.gops[g] == m.gops[g + 1]);
                    assert(!gop_has_video(m.gops[g + 1]));
                    assert(m2.gops[g].len() <= m2.max_frame_num);
                } else {
                    assert(m2.gops[g] == m.gops[g]);
                    assert(!gop_has_video(m.gops[g]));
                    assert(m2.gops[g].len() <= m2.max_frame_num);
                }
            } else if is_key_frame || full {
                assert(m2.gops[g] == Seq::<FrameModel>::empty().push(f));
                assert(m2.gops[g].len() <= m2.max_frame_num);
            } else {
                let last = m.gops[g];
                assert(last == m.gops.last());
                assert(m2.gops[g] == last.push(f));
                if gop_has_video(last) {
                    let i = choose|i: int| 0 <= i < last.len() && #[trigger] last[i] is Video;
                    assert(last.push(f)[i] is Video);
                } else if f is Video {
                    assert(last.push(f)[last.len() as int] is Video);
                } else {
                    assert(!gop_has_video(m.gops[g]));
                    assert(f is Audio);
                    assert(last.len() < m.max_frame_num);
                    assert(m2.gops[g].len() <= m2.max_frame_num);
                }
            }
        }
    }
}

/// Law (GOP cache): with a GOP count of 0 the cache keeps nothing.
pub proof fn lemma_disabled_keeps_nothing(m: GopsModel, f: FrameModel, is_key_frame: bool)
    requires
        m.size == 0,
    ensures
        gops_after_save(m, f, is_key_frame) == m,
{
}

/// Law (GOP cache): a video frame that is not a key frame never opens a
/// GOP; it is appended to the latest one, so a video GOP is never split
/// before its next key frame.
pub proof fn lemma_inter_frame_appends(m: GopsModel, f: FrameModel)
    requires
        gops_wf(m),
        m.size > 0,
        f is Video,
    ensures
        gops_after_save(m, f, false).gops.len() == m.gops.len(),
        gops_after_save(m, f, false).gops.drop_last() == m.gops.drop_last(),
        gops_after_save(m, f, false).gops.last() == m.gops.last().push(f),
{
    assert(gops_after_save(m, f, false).gops.drop_last() =~= m.gops.drop_last());
}

/// Law (GOP cache): the frame cap never splits a video GOP: once the
/// latest GOP holds a video frame, every frame but a key frame joins it.
pub proof fn lemma_video_gop_not_split(m: GopsModel, f: FrameModel)
    requires
        gops_wf(m),
        m.size > 0,
        gop_has_video(m.gops.last()),
    ensures
        gops_after_save(m, f, false).gops.len() == m.gops.len(),
        gops_after_save(m, f, false).gops.drop_last() == m.gops.drop_last(),
        gops_after_save(m, f, false).gops.last() == m.gops.last().push(f),
{
    assert(gops_after_save(m, f, false).gops.drop_last() =~= m.gops.drop_last());
}

/// Law (GOP cache): a key frame opens a new GOP, which it heads.
pub proof fn lemma_key_frame_heads_gop(m: GopsModel, f: FrameModel)
    requires
        gops_wf(m),
        m.size > 0,
    ensures
        gops_after_save(m, f, true).gops.last() == seq![f],
{
    assert(Seq::<FrameModel>::empty().push(f) =~= seq![f]);
}

/// The cache as `Gops::new` makes it.
pub open spec fn new_gops(size: usize, max_frame_num: Option<usize>) -> GopsModel {
    GopsModel {
        gops: seq![Seq::<FrameModel>::empty()],
        size,
        max_frame_num: frame_cap(max_frame_num),
    }
}

/// The cache after saving each frame of `fs`, with its key-frame flag, in
/// turn.
pub open spec fn gops_after_saves(m: GopsModel, fs: Seq<(FrameModel, bool)>) -> GopsModel
    decreases fs.len(),
{
    if fs.len() == 0 {
        m
    } else {
        let (f, k) = fs.last();
        gops_after_save(gops_after_saves(m, fs.drop_last()), f, k)
    }
}

pub open spec fn saved_frames(fs: Seq<(FrameModel, bool)>) -> Seq<FrameModel> {
    fs.map_values(|p: (FrameModel, bool)| p.0)
}

proof fn lemma_flatten_front(s: Seq<Seq<FrameModel>>)
    requires
        s.len() > 0,
    ensures
        flatten(s) == s[0] + flatten(s.drop_first()),
    decreases s.len(),
{
    if s.len() == 1 {
        assert(s.drop_last() =~= Seq::<Seq<FrameModel>>::empty());
        assert(s.drop_first() =~= Seq::<Seq<FrameModel>>::empty());
        assert(flatten(Seq::<Seq<FrameModel>>::empty()) == Seq::<FrameModel>::empty());
        assert(flatten(s) =~= s[0]);
    } else {
        lemma_flatten_front(s.drop_last());
        assert(s.drop_last().drop_first() =~= s.drop_first().drop_last());
        assert(s.drop_last()[0] == s[0]);
        assert(s.drop_first().last() == s.last());
        assert(flatten(s) =~= s[0] + flatten(s.drop_first()));
    }
}

proof fn lemma_flatten_push_last(s: Seq<Seq<FrameModel>>, f: FrameModel)
    requires
        s.len() > 0,
    ensures
        flatten(s.update(s.len() - 1, s.last().push(f))) == flatten(s).push(f),
{
    let t = s.update(s.len() - 1, s.last().push(f));
    assert(t.drop_last() =~= s.drop_last());
    assert(flatten(t) =~= flatten(s).push(f));
}

proof fn lemma_flatten_push_empty(s: Seq<Seq<FrameModel>>)
    ensures
        flatten(s.push(Seq::empty())) == flatten(s),
{
    assert(s.push(Seq::<FrameModel>::empty()).drop_last() =~= s);
    assert(flatten(s.push(Seq::<FrameModel>::empty())) =~= flatten(s));
}

/// Law (GOP cache): the cached frames, GOP after GOP, are the latest
/// frames saved, in the order they were saved: a contiguous suffix of
/// everything saved, with nothing reordered or repeated. A cache with a
/// GOP count of 0 holds no frame.
pub proof fn lemma_cached_frames_are_suffix(
    size: usize,
    max_frame_num: Option<usize>,
    fs: Seq<(FrameModel, bool)>,
)
    ensures
        size == 0 ==> flatten(gops_after_saves(new_gops(size, max_frame_num), fs).gops)
            == Seq::<FrameModel>::empty(),
        size > 0 ==> gops_after_saves(new_gops(size, max_frame_num), fs).gops.len() >= 1,
        gops_after_saves(new_gops(size, max_frame_num), fs).size == size,
        exists|k: int|
            0 <= k <= fs.len() && #[trigger] flatten(
                gops_after_saves(new_gops(size, max_frame_num), fs).gops,
            ) == saved_frames(fs).skip(k),
    decreases fs.len(),
{
    let m0 = new_gops(size, max_frame_num);
    let all = saved_frames(fs);
    if fs.len() == 0 {
        assert(seq![Seq::<FrameModel>::empty()].drop_last() =~= Seq::<Seq<FrameModel>>::empty());
        assert(flatten(Seq::<Seq<FrameModel>>::empty()) == Seq::<FrameModel>::empty());
        assert(flatten(m0.gops) =~= Seq::<FrameModel>::empty());
        assert(flatten(m0.gops) == all.skip(0));
    } else {
        let prev = fs.drop_last();
        let (f, key) = fs.last();
        lemma_cached_frames_are_suffix(size, max_frame_num, prev);
        let m = gops_after_saves(m0, prev);
        let k = choose|k: int|
            0 <= k <= prev.len() && #[trigger] flatten(m.gops) == saved_frames(prev).skip(k);
        assert(saved_frames(prev) =~= all.drop_last());
        assert(all.last() == f);
        let m2 = gops_after_save(m, f, key);
        assert(m2 == gops_after_saves(m0, fs));
        if size == 0 {
            assert(m2 == m);
            assert(flatten(m2.gops) == all.skip(fs.len() as int));
        } else {
            let full = audio_gop_is_full(m, f);
            let rotated = if key || full {
                (if m.gops.len() == m.size {
                    m.gops.drop_first()
                } else {
                    m.gops
                }).push(Seq::empty())
            } else {
                m.gops
            };
            let mut k2 = k;
            if key || full {
                if m.gops.len() == m.size {
                    lemma_flatten_front(m.gops);
                    assert(flatten(m.gops.drop_first()) =~= flatten(m.gops).skip(
                        m.gops[0].len() as int,
                    ));
                    k2 = k + m.gops[0].len();
                    assert(flatten(m.gops.drop_first()) =~= saved_frames(prev).skip(k2));
                    lemma_flatten_push_empty(m.gops.drop_first());
                } else {
                    lemma_flatten_push_empty(m.gops);
                }
            }
            assert(flatten(rotated) == saved_frames(prev).skip(k2));
            lemma_flatten_push_last(rotated, f);
            assert(m2.gops == rotated.update(rotated.len() - 1, rotated.last().push(f)));
            assert(flatten(m2.gops) =~= all.skip(k2));
        }
    }
}

} // verus!
