//! The live playlist (RFC 8216 with the low-latency extensions): its
//! segments and partial segments, its media sequence number and its text.
//! Writing the playlist and the segment files is left to the caller.
use vstd::prelude::*;
use std::collections::VecDeque;
use crate::text::{decimal, signed_decimal, seconds_text, push_decimal, push_signed_decimal, push_seconds};

verus! {

/// An LL-HLS partial segment.
pub struct PartialSegment {
    duration: i64,
    name: String,
    independent: bool,
}

pub struct PartialModel {
    pub duration: i64,
    pub name: Seq<char>,
    pub independent: bool,
}

impl View for PartialSegment {
    type V = PartialModel;

    closed spec fn view(&self) -> PartialModel {
        PartialModel { duration: self.duration, name: self.name@, independent: self.independent }
    }
}

impl PartialSegment {
    pub fn new(duration: i64, name: String, independent: bool) -> (p: Self)
        ensures
            p@ == (PartialModel { duration, name: name@, independent }),
    {
        PartialSegment { duration, name, independent }
    }
}

/// A media segment (a `.ts` file) and, while it is incomplete, its
/// partial segments.
pub struct Segment {
    duration: i64,
    discontinuity: bool,
    name: String,
    path: String,
    is_eof: bool,
    is_complete: bool,
    partials: Vec<PartialSegment>,
}

pub struct SegmentModel {
    pub duration: i64,
    pub discontinuity: bool,
    pub name: Seq<char>,
    pub path: Seq<char>,
    pub is_eof: bool,
    pub is_complete: bool,
    pub partials: Seq<PartialModel>,
}

pub open spec fn partials_view(s: Seq<PartialSegment>) -> Seq<PartialModel> {
    s.map_values(|p: PartialSegment| p@)
}

impl View for Segment {
    type V = SegmentModel;

    closed spec fn view(&self) -> SegmentModel {
        SegmentModel {
            duration: self.duration,
            discontinuity: self.discontinuity,
            name: self.name@,
            path: self.path@,
            is_eof: self.is_eof,
            is_complete: self.is_complete,
            partials: partials_view(self.partials@),
        }
    }
}

impl Segment {
    pub fn new(
        duration: i64,
        discontinuity: bool,
        name: String,
        path: String,
        is_eof: bool,
        is_complete: bool,
    ) -> (s: Self)
        ensures
            s@ == (SegmentModel {
                duration,
                discontinuity,
                name: name@,
                path: path@,
                is_eof,
                is_complete,
                partials: Seq::empty(),
            }),
    {
        let s = Self {
            duration,
            discontinuity,
            name,
            path,
            is_eof,
            is_complete,
            partials: Vec::new(),
        };
        assert(partials_view(s.partials@) =~= Seq::<PartialModel>::empty());
        s
    }

    pub fn set_complete(&mut self)
        ensures
            final(self)@ == (SegmentModel { is_complete: true, ..old(self)@ }),
    {
        self.is_complete = true;
    }

    pub fn add_partial(&mut self, seg: PartialSegment)
        ensures
            final(self)@ == (SegmentModel {
                partials: old(self)@.partials.push(seg@),
                ..old(self)@
            }),
    {
        let ghost p0 = self.partials@;
        self.partials.push(seg);
        assert(partials_view(self.partials@) =~= partials_view(p0).push(seg@));
    }
}

/// The answer to a playlist request: the current media sequence number.
pub struct M3u8PlaylistResponse {
    pub sequence_no: u64,
}

/// Names the segment files of a stream: `<n>.ts` in the stream's folder,
/// `n` counting from 0.
pub struct Ts {
    ts_number: u32,
    live_path: String,
}

impl Ts {
    pub closed spec fn number(&self) -> u32 {
        self.ts_number
    }

    pub closed spec fn folder(&self) -> Seq<char> {
        self.live_path@
    }

    pub fn new(path: String) -> (t: Self)
        ensures
            t.number() == 0,
            t.folder() == path@,
    {
        Ts { ts_number: 0, live_path: path }
    }

    /// The name and path of the next segment file.
    pub fn next_file(&mut self) -> (r: (String, String))
        requires
            old(self).number() < u32::MAX,
        ensures
            r.0@ == decimal(old(self).number() as nat) + ".ts"@,
            r.1@ == old(self).folder() + "/"@ + r.0@,
            final(self).number() == old(self).number() + 1,
            final(self).folder() == old(self).folder(),
    {
        let mut name = String::new();
        push_decimal(&mut name, self.ts_number as u64);
        name.append(".ts");
        self.ts_number = self.ts_number + 1;
        let mut path = String::from_str(self.live_path.as_str());
        path.append("/");
        path.append(name.as_str());
        (name, path)
    }
}

/// The playlist after a segment was completed: in a live playlist that
/// holds `live_ts_count` segments the oldest is dropped; the media
/// sequence number goes up by one, the target duration takes the longer
/// of the two, a segment file name is taken and the latest segment is
/// marked complete.
pub open spec fn after_add_segment(m: M3u8Model, duration: i64) -> M3u8Model {
    let segs = if m.is_live && m.segments.len() >= m.live_ts_count {
        m.segments.drop_first()
    } else {
        m.segments
    };
    M3u8Model {
        segments: segs.update(segs.len() - 1, SegmentModel { is_complete: true, ..segs.last() }),
        sequence_no: (m.sequence_no + 1) as u64,
        duration: if duration > m.duration {
            duration
        } else {
            m.duration
        },
        ts_number: (m.ts_number + 1) as u32,
        ..m
    }
}

/// The playlist after a partial segment was added under the next segment
/// file name: it opens a new segment, named after the media sequence
/// number, when there is none or the latest one is complete; otherwise it
/// joins the latest segment.
pub open spec fn after_add_partial(
    m: M3u8Model,
    duration: i64,
    independent: bool,
    ts_name: Seq<char>,
    ts_path: Seq<char>,
) -> M3u8Model {
    let partial = PartialModel { duration, name: ts_name, independent };
    let segs = if m.segments.len() == 0 || m.segments.last().is_complete {
        m.segments.push(
            SegmentModel {
                duration,
                discontinuity: false,
                name: decimal(m.sequence_no as nat) + ".ts"@,
                path: ts_path,
                is_eof: false,
                is_complete: false,
                partials: seq![partial],
            },
        )
    } else {
        m.segments.update(
            m.segments.len() - 1,
            SegmentModel { partials: m.segments.last().partials.push(partial), ..m.segments.last() },
        )
    };
    M3u8Model { segments: segs, ts_number: (m.ts_number + 1) as u32, ..m }
}

/// Mathematical model of an `M3u8`.
pub struct M3u8Model {
    pub version: u16,
    pub sequence_no: u64,
    pub duration: i64,
    pub is_live: bool,
    pub live_ts_count: usize,
    pub segments: Seq<SegmentModel>,
    pub is_header_generated: bool,
    pub m3u8_header: Seq<char>,
    pub m3u8_folder: Seq<char>,
    pub m3u8_name: Seq<char>,
    pub ts_number: u32,
}

pub open spec fn segments_view(s: Seq<Segment>) -> Seq<SegmentModel> {
    s.map_values(|g: Segment| g@)
}

/// Integer division rounding toward zero, as Rust's `/` does.
pub open spec fn trunc_div(a: int, b: int) -> int {
    if a >= 0 {
        a / b
    } else {
        -((-a) / b)
    }
}

/// The playlist header: version, target duration (the longest segment,
/// in whole seconds rounded up), server control, media sequence number,
/// and for a playlist that is not live the VOD tags.
pub open spec fn m3u8_header_text(m: M3u8Model) -> Seq<char> {
    "#EXTM3U\n"@ + "#EXT-X-VERSION:"@ + decimal(m.version as nat) + "\n"@
        + "#EXT-X-TARGETDURATION:"@ + signed_decimal(trunc_div(m.duration + 999, 1000)) + "\n"@
        + "#EXT-X-SERVER-CONTROL:CAN-BLOCK-RELOAD=YES,PART-HOLD-BACK=1.5\n"@
        + "#EXT-X-MEDIA-SEQUENCE:"@ + decimal(m.sequence_no as nat) + "\n"@ + if m.is_live {
        Seq::empty()
    } else {
        "#EXT-X-PLAYLIST-TYPE:VOD\n"@ + "#EXT-X-ALLOW-CACHE:YES\n"@
    }
}

/// The tag of a partial segment.
pub open spec fn partial_text(p: PartialModel) -> Seq<char> {
    "#EXT-X-PART:DURATION="@ + seconds_text(p.duration as int) + ",URI=\""@ + p.name + "\""@ + (
    if p.independent {
        ",INDEPENDENT=YES"@
    } else {
        Seq::empty()
    }) + "\n"@
}

pub open spec fn partials_text(ps: Seq<PartialModel>) -> Seq<char>
    decreases ps.len(),
{
    if ps.len() == 0 {
        Seq::empty()
    } else {
        partials_text(ps.drop_last()) + partial_text(ps.last())
    }
}

/// The lines of a segment: a discontinuity tag if it follows one; its
/// partial segments while it is incomplete, else its duration and name.
pub open spec fn segment_text(s: SegmentModel) -> Seq<char> {
    (if s.discontinuity {
        "#EXT-X-DISCONTINUITY\n"@
    } else {
        Seq::empty()
    }) + if !s.is_complete {
        partials_text(s.partials)
    } else {
        "#EXTINF:"@ + seconds_text(s.duration as int) + ",\n"@ + s.name + "\n"@
    }
}

/// The segments' lines up to and including the first segment that ends
/// the stream, which adds the end tag.
pub open spec fn segments_text(ss: Seq<SegmentModel>) -> Seq<char>
    decreases ss.len(),
{
    if ss.len() == 0 {
        Seq::empty()
    } else if ss[0].is_eof {
        segment_text(ss[0]) + "#EXT-X-ENDLIST\n"@
    } else {
        segment_text(ss[0]) + segments_text(ss.drop_first())
    }
}

/// The live playlist of a stream.
pub struct M3u8 {
    version: u16,
    sequence_no: u64,
    duration: i64,
    is_live: bool,
    live_ts_count: usize,
    segments: VecDeque<Segment>,
    is_header_generated: bool,
    m3u8_header: String,
    m3u8_folder: String,
    m3u8_name: String,
    ts_handler: Ts,
}

impl View for M3u8 {
    type V = M3u8Model;

    closed spec fn view(&self) -> M3u8Model {
        M3u8Model {
            version: self.version,
            sequence_no: self.sequence_no,
            duration: self.duration,
            is_live: self.is_live,
            live_ts_count: self.live_ts_count,
            segments: segments_view(self.segments@),
            is_header_generated: self.is_header_generated,
            m3u8_header: self.m3u8_header@,
            m3u8_folder: self.m3u8_folder@,
            m3u8_name: self.m3u8_name@,
            ts_number: self.ts_handler.number(),
        }
    }
}

impl M3u8 {
    pub closed spec fn ts_folder(&self) -> Seq<char> {
        self.ts_handler.folder()
    }

    /// A live playlist named `name` in `./<app_name>/<stream_name>`, whose
    /// segment files go to the same folder.
    pub fn new(duration: i64, live_ts_count: usize, name: String, app_name: String, stream_name: String) -> (m: Self)
        ensures
            m@ == (M3u8Model {
                version: 6,
                sequence_no: 0,
                duration,
                is_live: true,
                live_ts_count,
                segments: Seq::empty(),
                is_header_generated: false,
                m3u8_header: Seq::empty(),
                m3u8_folder: "./"@ + app_name@ + "/"@ + stream_name@,
                m3u8_name: name@,
                ts_number: 0,
            }),
            m.ts_folder() == m@.m3u8_folder,
    {
        let mut folder = String::from_str("./");
        folder.append(app_name.as_str());
        folder.append("/");
        folder.append(stream_name.as_str());
        let ts_path = String::from_str(folder.as_str());
        let m = Self {
            version: 6,
            sequence_no: 0,
            duration,
            is_live: true,
            live_ts_count,
            segments: VecDeque::new(),
            is_header_generated: false,
            m3u8_header: String::new(),
            m3u8_folder: folder,
            m3u8_name: name,
            ts_handler: Ts::new(ts_path),
        };
        assert(segments_view(m.segments@) =~= Seq::<SegmentModel>::empty());
        m
    }

    /// The longest segment duration so far, in milliseconds.
    pub fn duration(&self) -> (d: i64)
        ensures
            d == self@.duration,
    {
        self.duration
    }

    pub fn sequence_no(&self) -> (n: u64)
        ensures
            n == self@.sequence_no,
    {
        self.sequence_no
    }

    /// Where the playlist file lies: `<folder>/<name>`.
    pub fn m3u8_path(&self) -> (r: String)
        ensures
            r@ == self@.m3u8_folder + "/"@ + self@.m3u8_name,
    {
        let mut p = String::from_str(self.m3u8_folder.as_str());
        p.append("/");
        p.append(self.m3u8_name.as_str());
        p
    }
    /// Completes the latest segment; see `after_add_segment`. Returns the
    /// name and path under which the caller stores the segment's data.
    pub fn add_segment(&mut self, duration: i64, discontinuity: bool, is_eof: bool) -> (r: (
        String,
        String,
    ))
        requires
            old(self)@.segments.len() > (if old(self)@.is_live && old(self)@.segments.len()
                >= old(self)@.live_ts_count {
                1int
            } else {
                0int
            }),
            old(self)@.sequence_no < u64::MAX,
            old(self)@.ts_number < u32::MAX,
        ensures
            final(self)@ == after_add_segment(old(self)@, duration),
            r.0@ == decimal(old(self)@.ts_number as nat) + ".ts"@,
            r.1@ == old(self).ts_folder() + "/"@ + r.0@,
            final(self).ts_folder() == old(self).ts_folder(),
    {
        let ghost m0 = self@;
        let segment_count = self.segments.len();
        if self.is_live && segment_count >= self.live_ts_count {
            self.segments.pop_front();
        }
        self.sequence_no = self.sequence_no + 1;
        if duration > self.duration {
            self.duration = duration;
        }
        let names = self.ts_handler.next_file();
        let ghost before = self.segments@;
        let mut last = match self.segments.pop_back() {
            Some(s) => s,
            None => {
                return names;
            },
        };
        last.set_complete();
        self.segments.push_back(last);
        proof {
            let segs = if m0.is_live && m0.segments.len() >= m0.live_ts_count {
                m0.segments.drop_first()
            } else {
                m0.segments
            };
            assert(segments_view(before) =~= segs);
            assert(self.segments@ =~= before.drop_last().push(last));
            assert(self@.segments =~= segs.update(
                segs.len() - 1,
                SegmentModel { is_complete: true, ..segs.last() },
            ));
        }
        names
    }

    /// Adds a partial segment; see `after_add_partial`. Returns the name
    /// and path under which the caller stores its data.
    pub fn add_partial_segment(&mut self, duration: i64, independent: bool) -> (r: (String, String))
        requires
            old(self)@.ts_number < u32::MAX,
        ensures
            r.0@ == decimal(old(self)@.ts_number as nat) + ".ts"@,
            r.1@ == old(self).ts_folder() + "/"@ + r.0@,
            final(self)@ == after_add_partial(old(self)@, duration, independent, r.0@, r.1@),
            final(self).ts_folder() == old(self).ts_folder(),
    {
        let ghost m0 = self@;
        let (ts_name, ts_path) = self.ts_handler.next_file();
        let partial = PartialSegment::new(duration, String::from_str(ts_name.as_str()), independent);
        let n = self.segments.len();
        let ghost before = self.segments@;
        if n == 0 || self.segments[n - 1].is_complete {
            let mut name = String::new();
            push_decimal(&mut name, self.sequence_no);
            name.append(".ts");
            let mut seg = Segment::new(
                duration,
                false,
                name,
                String::from_str(ts_path.as_str()),
                false,
                false,
            );
            seg.add_partial(partial);
            self.segments.push_back(seg);
            proof {
                assert(seq![PartialModel { duration, name: ts_name@, independent }] =~= Seq::<
                    PartialModel,
                >::empty().push(PartialModel { duration, name: ts_name@, independent }));
                assert(self@.segments =~= m0.segments.push(seg@));
            }
        } else {
            let mut last = match self.segments.pop_back() {
                Some(s) => s,
                None => {
                    return (ts_name, ts_path);
                },
            };
            last.add_partial(partial);
            self.segments.push_back(last);
            proof {
                assert(self.segments@ =~= before.drop_last().push(last));
                assert(self@.segments =~= m0.segments.update(
                    m0.segments.len() - 1,
                    SegmentModel {
                        partials: m0.segments.last().partials.push(
                            PartialModel { duration, name: ts_name@, independent },
                        ),
                        ..m0.segments.last()
                    },
                ));
            }
        }
        (ts_name, ts_path)
    }

    /// The files of the playlist, to be removed: every segment file, then
    /// the playlist itself.
    pub fn clear(&self) -> (r: Vec<String>)
        ensures
            r@.len() == self@.segments.len() + 1,
            forall|i: int| 0 <= i < self@.segments.len() ==> #[trigger] r@[i]@ == self@.segments[i].path,
            r@[self@.segments.len() as int]@ == self@.m3u8_folder + "/"@ + self@.m3u8_name,
    {
        let mut r: Vec<String> = Vec::new();
        let mut i: usize = 0;
        while i < self.segments.len()
            invariant
                i <= self.segments@.len(),
                r@.len() == i,
                forall|j: int| 0 <= j < i ==> #[trigger] r@[j]@ == self@.segments[j].path,
            decreases self.segments@.len() - i,
        {
            r.push(String::from_str(self.segments[i].path.as_str()));
            i = i + 1;
        }
        r.push(self.m3u8_path());
        r
    }

    /// Writes the playlist header; see `m3u8_header_text`.
    pub fn generate_m3u8_header(&mut self)
        requires
            old(self)@.duration <= i64::MAX - 999,
        ensures
            final(self)@ == (M3u8Model {
                is_header_generated: true,
                m3u8_header: m3u8_header_text(old(self)@),
                ..old(self)@
            }),
    {
        self.is_header_generated = true;
        let mut h = String::from_str("#EXTM3U\n");
        h.append("#EXT-X-VERSION:");
        push_decimal(&mut h, self.version as u64);
        h.append("\n");
        h.append("#EXT-X-TARGETDURATION:");
        let d = self.duration + 999;
        let target: i64 = if d >= 0 {
            d / 1000
        } else {
            -((-(d as i128)) / 1000) as i64
        };
        push_signed_decimal(&mut h, target);
        h.append("\n");
        h.append("#EXT-X-SERVER-CONTROL:CAN-BLOCK-RELOAD=YES,PART-HOLD-BACK=1.5\n");
        h.append("#EXT-X-MEDIA-SEQUENCE:");
        push_decimal(&mut h, self.sequence_no);
        h.append("\n");
        if !self.is_live {
            h.append("#EXT-X-PLAYLIST-TYPE:VOD\n");
            h.append("#EXT-X-ALLOW-CACHE:YES\n");
        }
        assert(h@ =~= m3u8_header_text(old(self)@));
        self.m3u8_header = h;
    }

    fn append_partials(content: &mut String, seg: &Segment)
        ensures
            final(content)@ == old(content)@ + partials_text(seg@.partials),
    {
        let mut j: usize = 0;
        while j < seg.partials.len()
            invariant
                j <= seg.partials@.len(),
                content@ == old(content)@ + partials_text(seg@.partials.take(j as int)),
            decreases seg.partials@.len() - j,
        {
            let p = &seg.partials[j];
            content.append("#EXT-X-PART:DURATION=");
            push_seconds(content, p.duration);
            content.append(",URI=\"");
            content.append(p.name.as_str());
            content.append("\"");
            if p.independent {
                content.append(",INDEPENDENT=YES");
            }
            content.append("\n");
            proof {
                let ps = seg@.partials;
                assert(ps.take(j + 1).drop_last() =~= ps.take(j as int));
                assert(ps[j as int] == seg.partials@[j as int]@);
            }
            j = j + 1;
        }
        assert(seg@.partials.take(seg@.partials.len() as int) =~= seg@.partials);
    }

    fn append_segment(content: &mut String, seg: &Segment)
        ensures
            final(content)@ == old(content)@ + segment_text(seg@),
    {
        let ghost c0 = content@;
        if seg.discontinuity {
            content.append("#EXT-X-DISCONTINUITY\n");
        }
        let ghost c1 = content@;
        if !seg.is_complete {
            Self::append_partials(content, seg);
        } else {
            content.append("#EXTINF:");
            push_seconds(content, seg.duration);
            content.append(",\n");
            content.append(seg.name.as_str());
            content.append("\n");
        }
        assert(content@ =~= c0 + segment_text(seg@));
    }

    /// Writes the header and returns the whole playlist: the header, then
    /// the segments' lines (see `segments_text`).
    pub fn refresh_playlist(&mut self) -> (r: String)
        requires
            old(self)@.duration <= i64::MAX - 999,
        ensures
            final(self)@ == (M3u8Model {
                is_header_generated: true,
                m3u8_header: m3u8_header_text(old(self)@),
                ..old(self)@
            }),
            r@ == m3u8_header_text(old(self)@) + segments_text(old(self)@.segments),
    {
        self.generate_m3u8_header();
        let mut content = String::from_str(self.m3u8_header.as_str());
        let ghost segs = self@.segments;
        let mut i: usize = 0;
        assert(segs.skip(0) =~= segs);
        while i < self.segments.len()
            invariant
                self@ == (M3u8Model {
                    is_header_generated: true,
                    m3u8_header: m3u8_header_text(old(self)@),
                    ..old(self)@
                }),
                i <= segs.len(),
                segs == self@.segments,
                segs.len() == self.segments@.len(),
                content@ + segments_text(segs.skip(i as int)) == self@.m3u8_header + segments_text(
                    segs,
                ),
            decreases segs.len() - i,
        {
            let ghost before = content@;
            let seg = &self.segments[i];
            assert(segs[i as int] == seg@);
            assert(segs.skip(i as int).drop_first() =~= segs.skip(i + 1));
            Self::append_segment(&mut content, seg);
            if seg.is_eof {
                content.append("#EXT-X-ENDLIST\n");
                assert(content@ =~= before + segments_text(segs.skip(i as int)));
                assert(content@ =~= self@.m3u8_header + segments_text(segs));
                return content;
            }
            i = i + 1;
        }
        assert(segs.skip(i as int) =~= Seq::<SegmentModel>::empty());
        assert(content@ =~= self@.m3u8_header + segments_text(segs));
        content
    }
}

/// A live playlist holds at most `live_ts_count` complete segments and
/// the one being built: every segment but the latest is complete, and a
/// playlist one past the count ends with an incomplete segment.
pub open spec fn live_bounded(m: M3u8Model) -> bool {
    m.is_live ==> {
        &&& m.segments.len() <= m.live_ts_count + 1
        &&& m.segments.len() == m.live_ts_count + 1 ==> !m.segments.last().is_complete
        &&& forall|i: int| 0 <= i < m.segments.len() - 1 ==> #[trigger] m.segments[i].is_complete
    }
}

/// Completing a segment keeps a live playlist bounded.
pub proof fn lemma_add_segment_keeps_bounded(m: M3u8Model, duration: i64)
    requires
        live_bounded(m),
        m.segments.len() > (if m.is_live && m.segments.len() >= m.live_ts_count {
            1int
        } else {
            0int
        }),
    ensures
        live_bounded(after_add_segment(m, duration)),
{
    let segs = if m.is_live && m.segments.len() >= m.live_ts_count {
        m.segments.drop_first()
    } else {
        m.segments
    };
    let r = after_add_segment(m, duration);
    if m.is_live {
        assert forall|i: int| 0 <= i < r.segments.len() - 1 implies #[trigger] r.segments[i].is_complete by {
            if m.segments.len() >= m.live_ts_count {
                assert(r.segments[i] == m.segments[i + 1]);
            } else {
                assert(r.segments[i] == m.segments[i]);
            }
        }
    }
}

/// Adding a partial segment keeps a live playlist bounded.
pub proof fn lemma_add_partial_keeps_bounded(
    m: M3u8Model,
    duration: i64,
    independent: bool,
    ts_name: Seq<char>,
    ts_path: Seq<char>,
)
    requires
        live_bounded(m),
    ensures
        live_bounded(after_add_partial(m, duration, independent, ts_name, ts_path)),
{
    let r = after_add_partial(m, duration, independent, ts_name, ts_path);
    if m.is_live {
        if m.segments.len() == 0 || m.segments.last().is_complete {
            assert forall|i: int| 0 <= i < r.segments.len() - 1 implies #[trigger] r.segments[i].is_complete by {
                assert(r.segments[i] == m.segments[i]);
                if i < m.segments.len() - 1 {
                    assert(m.segments[i].is_complete);
                }
            }
        } else {
            assert forall|i: int| 0 <= i < r.segments.len() - 1 implies #[trigger] r.segments[i].is_complete by {
                assert(r.segments[i] == m.segments[i]);
            }
        }
    }
}

/// Law (HLS playlist): the playlist's target duration is the longest
/// segment so far: completing a segment never lowers it, and raises it to
/// the segment's duration when that is longer.
pub proof fn lemma_target_duration_is_longest(m: M3u8Model, duration: i64)
    ensures
        after_add_segment(m, duration).duration >= m.duration,
        after_add_segment(m, duration).duration >= duration,
        after_add_segment(m, duration).duration == m.duration || after_add_segment(
            m,
            duration,
        ).duration == duration,
{
}

} // verus!
