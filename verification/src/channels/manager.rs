//! The registry of published streams. Each published stream has a
//! transmitter, named here by an id; the caller runs the transmitters and
//! carries the events between them and the sessions.
use vstd::prelude::*;
use crate::channels::define::{ChannelError, ChannelErrorValue, ClientEvent};

verus! {

/// A published stream and the id of its transmitter.
pub struct StreamEntry {
    pub app_name: String,
    pub stream_name: String,
    pub id: u64,
}

pub struct StreamModel {
    pub app_name: Seq<char>,
    pub stream_name: Seq<char>,
    pub id: u64,
}

impl View for StreamEntry {
    type V = StreamModel;

    open spec fn view(&self) -> StreamModel {
        StreamModel { app_name: self.app_name@, stream_name: self.stream_name@, id: self.id }
    }
}

/// Mathematical model of a `ChannelsManager`.
pub struct ChannelsModel {
    /// The apps that have had a stream published, oldest first.
    pub apps: Seq<Seq<char>>,
    /// The published streams, oldest first.
    pub streams: Seq<StreamModel>,
    pub next_id: u64,
    pub rtmp_push_enabled: bool,
    pub rtmp_pull_enabled: bool,
    pub rtmp_gop_num: usize,
    pub hls_enabled: bool,
}

/// The index of the first app named `app`, or the length.
pub open spec fn app_index(apps: Seq<Seq<char>>, app: Seq<char>) -> int
    decreases apps.len(),
{
    if apps.len() == 0 {
        0
    } else if apps[0] == app {
        0
    } else {
        1 + app_index(apps.drop_first(), app)
    }
}

/// The index of the first stream `stream` of `app`, or the length.
pub open spec fn stream_index(streams: Seq<StreamModel>, app: Seq<char>, stream: Seq<char>) -> int
    decreases streams.len(),
{
    if streams.len() == 0 {
        0
    } else if streams[0].app_name == app && streams[0].stream_name == stream {
        0
    } else {
        1 + stream_index(streams.drop_first(), app, stream)
    }
}

pub proof fn lemma_app_index(apps: Seq<Seq<char>>, app: Seq<char>, i: int)
    requires
        0 <= i <= apps.len(),
        forall|j: int| 0 <= j < i ==> apps[j] != app,
        i < apps.len() ==> apps[i] == app,
    ensures
        app_index(apps, app) == i,
    decreases apps.len(),
{
    if apps.len() > 0 && apps[0] != app {
        lemma_app_index(apps.drop_first(), app, i - 1);
    }
}

pub proof fn lemma_stream_index(
    streams: Seq<StreamModel>,
    app: Seq<char>,
    stream: Seq<char>,
    i: int,
)
    requires
        0 <= i <= streams.len(),
        forall|j: int|
            0 <= j < i ==> !(streams[j].app_name == app && streams[j].stream_name == stream),
        i < streams.len() ==> streams[i].app_name == app && streams[i].stream_name == stream,
    ensures
        stream_index(streams, app, stream) == i,
    decreases streams.len(),
{
    if streams.len() > 0 && !(streams[0].app_name == app && streams[0].stream_name == stream) {
        lemma_stream_index(streams.drop_first(), app, stream, i - 1);
    }
}

/// The registry after a publish: a stream already published is refused;
/// otherwise its app is recorded if new, and the stream is recorded with
/// the next transmitter id.
pub open spec fn after_publish(m: ChannelsModel, app: Seq<char>, stream: Seq<char>) -> ChannelsModel {
    if stream_index(m.streams, app, stream) < m.streams.len() {
        m
    } else {
        ChannelsModel {
            apps: if app_index(m.apps, app) < m.apps.len() {
                m.apps
            } else {
                m.apps.push(app)
            },
            streams: m.streams.push(StreamModel { app_name: app, stream_name: stream, id: m.next_id }),
            next_id: (m.next_id + 1) as u64,
            ..m
        }
    }
}

/// The error of a lookup: the app never had a stream, or it has not this
/// one.
pub open spec fn lookup_error(m: ChannelsModel, app: Seq<char>, stream: Seq<char>) -> Option<
    ChannelErrorValue,
> {
    if app_index(m.apps, app) == m.apps.len() {
        Some(ChannelErrorValue::NoAppName)
    } else if stream_index(m.streams, app, stream) == m.streams.len() {
        Some(ChannelErrorValue::NoStreamName)
    } else {
        None
    }
}

/// A relay event asking to push the stream out.
pub open spec fn is_publish_event(ev: ClientEvent, app: Seq<char>, stream: Seq<char>) -> bool {
    match ev {
        ClientEvent::Publish { app_name, stream_name } => app_name@ == app && stream_name@ == stream,
        _ => false,
    }
}

/// A relay event asking to pull the stream in.
pub open spec fn is_subscribe_event(ev: ClientEvent, app: Seq<char>, stream: Seq<char>) -> bool {
    match ev {
        ClientEvent::Subscribe { app_name, stream_name } => app_name@ == app && stream_name@
            == stream,
        _ => false,
    }
}

pub struct ChannelsManager {
    apps: Vec<String>,
    streams: Vec<StreamEntry>,
    next_id: u64,
    rtmp_push_enabled: bool,
    rtmp_pull_enabled: bool,
    rtmp_gop_num: usize,
    hls_enabled: bool,
}

pub open spec fn streams_view(s: Seq<StreamEntry>) -> Seq<StreamModel> {
    s.map_values(|e: StreamEntry| e@)
}

pub open spec fn apps_view(s: Seq<String>) -> Seq<Seq<char>> {
    s.map_values(|a: String| a@)
}

impl View for ChannelsManager {
    type V = ChannelsModel;

    closed spec fn view(&self) -> ChannelsModel {
        ChannelsModel {
            apps: apps_view(self.apps@),
            streams: streams_view(self.streams@),
            next_id: self.next_id,
            rtmp_push_enabled: self.rtmp_push_enabled,
            rtmp_pull_enabled: self.rtmp_pull_enabled,
            rtmp_gop_num: self.rtmp_gop_num,
            hls_enabled: self.hls_enabled,
        }
    }
}

fn copy_string(s: &String) -> (r: String)
    ensures
        r@ == s@,
{
    s.clone()
}

impl ChannelsManager {
    pub fn new() -> (c: Self)
        ensures
            c@ == (ChannelsModel {
                apps: Seq::empty(),
                streams: Seq::empty(),
                next_id: 0,
                rtmp_push_enabled: false,
                rtmp_pull_enabled: false,
                rtmp_gop_num: 1,
                hls_enabled: false,
            }),
    {
        let c = Self {
            apps: Vec::new(),
            streams: Vec::new(),
            next_id: 0,
            rtmp_push_enabled: false,
            rtmp_pull_enabled: false,
            rtmp_gop_num: 1,
            hls_enabled: false,
        };
        assert(apps_view(c.apps@) =~= Seq::<Seq<char>>::empty());
        assert(streams_view(c.streams@) =~= Seq::<StreamModel>::empty());
        c
    }

    pub fn set_rtmp_push_enabled(&mut self, enabled: bool)
        ensures
            final(self)@ == (ChannelsModel { rtmp_push_enabled: enabled, ..old(self)@ }),
    {
        self.rtmp_push_enabled = enabled;
    }

    pub fn set_rtmp_pull_enabled(&mut self, enabled: bool)
        ensures
            final(self)@ == (ChannelsModel { rtmp_pull_enabled: enabled, ..old(self)@ }),
    {
        self.rtmp_pull_enabled = enabled;
    }

    pub fn set_rtmp_gop_num(&mut self, gop_num: usize)
        ensures
            final(self)@ == (ChannelsModel { rtmp_gop_num: gop_num, ..old(self)@ }),
    {
        self.rtmp_gop_num = gop_num;
    }

    pub fn set_hls_enabled(&mut self, enabled: bool)
        ensures
            final(self)@ == (ChannelsModel { hls_enabled: enabled, ..old(self)@ }),
    {
        self.hls_enabled = enabled;
    }

    /// The id the next published stream's transmitter gets.
    pub fn next_transmitter_id(&self) -> (n: u64)
        ensures
            n == self@.next_id,
    {
        self.next_id
    }

    pub fn rtmp_gop_num(&self) -> (n: usize)
        ensures
            n == self@.rtmp_gop_num,
    {
        self.rtmp_gop_num
    }

    fn find_app(&self, app_name: &String) -> (r: usize)
        ensures
            r == app_index(self@.apps, app_name@),
            r <= self.apps@.len(),
            self@.apps.len() == self.apps@.len(),
    {
        let mut i: usize = 0;
        while i < self.apps.len()
            invariant
                i <= self.apps@.len(),
                forall|j: int| 0 <= j < i ==> self@.apps[j] != app_name@,
            decreases self.apps@.len() - i,
        {
            if self.apps[i] == *app_name {
                proof {
                    lemma_app_index(self@.apps, app_name@, i as int);
                }
                return i;
            }
            i = i + 1;
        }
        proof {
            lemma_app_index(self@.apps, app_name@, i as int);
        }
        i
    }

    fn find_stream(&self, app_name: &String, stream_name: &String) -> (r: usize)
        ensures
            r == stream_index(self@.streams, app_name@, stream_name@),
            r <= self.streams@.len(),
            self@.streams.len() == self.streams@.len(),
    {
        let mut i: usize = 0;
        while i < self.streams.len()
            invariant
                i <= self.streams@.len(),
                forall|j: int|
                    0 <= j < i ==> !(self@.streams[j].app_name == app_name@
                        && self@.streams[j].stream_name == stream_name@),
            decreases self.streams@.len() - i,
        {
            if self.streams[i].app_name == *app_name && self.streams[i].stream_name == *stream_name {
                proof {
                    lemma_stream_index(self@.streams, app_name@, stream_name@, i as int);
                }
                return i;
            }
            i = i + 1;
        }
        proof {
            lemma_stream_index(self@.streams, app_name@, stream_name@, i as int);
        }
        i
    }

    /// Registers a publisher; see `after_publish`. On success, the id of
    /// the stream's transmitter, for the caller to start, and the relay
    /// event to send when pushing or HLS is on.
    pub fn publish(&mut self, app_name: &String, stream_name: &String) -> (r: Result<
        (u64, Option<ClientEvent>),
        ChannelError,
    >)
        requires
            old(self)@.next_id < u64::MAX,
        ensures
            final(self)@ == after_publish(old(self)@, app_name@, stream_name@),
            stream_index(old(self)@.streams, app_name@, stream_name@) < old(self)@.streams.len()
                ==> r == Err::<(u64, Option<ClientEvent>), ChannelError>(
                ChannelError { value: ChannelErrorValue::Exists },
            ),
            stream_index(old(self)@.streams, app_name@, stream_name@) == old(self)@.streams.len()
                ==> (r matches Ok((id, ev)) && id == old(self)@.next_id && (ev is Some
                <==> (old(self)@.rtmp_push_enabled || old(self)@.hls_enabled)) && (ev is Some
                ==> is_publish_event(ev->0, app_name@, stream_name@))),
    {
        let ghost m0 = self@;
        if self.find_stream(app_name, stream_name) < self.streams.len() {
            return Err(ChannelError { value: ChannelErrorValue::Exists });
        }
        if self.find_app(app_name) == self.apps.len() {
            let ghost a0 = self.apps@;
            self.apps.push(copy_string(app_name));
            assert(apps_view(self.apps@) =~= apps_view(a0).push(app_name@));
        }
        let id = self.next_id;
        let ghost s0 = self.streams@;
        let entry = StreamEntry {
            app_name: copy_string(app_name),
            stream_name: copy_string(stream_name),
            id,
        };
        self.streams.push(entry);
        assert(streams_view(self.streams@) =~= streams_view(s0).push(entry@));
        self.next_id = self.next_id + 1;
        assert(self@ == after_publish(m0, app_name@, stream_name@));
        let event = if self.rtmp_push_enabled || self.hls_enabled {
            Some(
                ClientEvent::Publish {
                    app_name: copy_string(app_name),
                    stream_name: copy_string(stream_name),
                },
            )
        } else {
            None
        };
        Ok((id, event))
    }

    /// Unregisters a publisher. On success, the id of the transmitter to
    /// stop; its app stays recorded.
    pub fn unpublish(&mut self, app_name: &String, stream_name: &String) -> (r: Result<
        u64,
        ChannelError,
    >)
        ensures
            match lookup_error(old(self)@, app_name@, stream_name@) {
                Some(e) => r == Err::<u64, ChannelError>(ChannelError { value: e })
                    && final(self)@ == old(self)@,
                None => {
                    let i = stream_index(old(self)@.streams, app_name@, stream_name@);
                    &&& r == Ok::<u64, ChannelError>(old(self)@.streams[i].id)
                    &&& final(self)@ == (ChannelsModel {
                        streams: old(self)@.streams.remove(i),
                        ..old(self)@
                    })
                },
            },
    {
        if self.find_app(app_name) == self.apps.len() {
            return Err(ChannelError { value: ChannelErrorValue::NoAppName });
        }
        let i = self.find_stream(app_name, stream_name);
        if i == self.streams.len() {
            return Err(ChannelError { value: ChannelErrorValue::NoStreamName });
        }
        let ghost s0 = self.streams@;
        let entry = self.streams.remove(i);
        assert(streams_view(self.streams@) =~= streams_view(s0).remove(i as int));
        Ok(entry.id)
    }

    /// Looks up the stream a player asks for. On success, the id of the
    /// transmitter to ask for the stream's data. Otherwise the stream is
    /// unknown; when pulling is on, the relay event asking for it is given
    /// too.
    pub fn subscribe(&self, app_name: &String, stream_name: &String) -> (r: (
        Result<u64, ChannelError>,
        Option<ClientEvent>,
    ))
        ensures
            ({
                let i = stream_index(self@.streams, app_name@, stream_name@);
                if i < self@.streams.len() {
                    r.0 == Ok::<u64, ChannelError>(self@.streams[i].id) && r.1 is None
                } else {
                    &&& r.0 == Err::<u64, ChannelError>(
                        ChannelError { value: ChannelErrorValue::NoAppOrStreamName },
                    )
                    &&& (r.1 is Some <==> self@.rtmp_pull_enabled)
                    &&& (r.1 is Some ==> is_subscribe_event(r.1->0, app_name@, stream_name@))
                }
            }),
    {
        let i = self.find_stream(app_name, stream_name);
        if i < self.streams.len() {
            return (Ok(self.streams[i].id), None);
        }
        let event = if self.rtmp_pull_enabled {
            Some(
                ClientEvent::Subscribe {
                    app_name: copy_string(app_name),
                    stream_name: copy_string(stream_name),
                },
            )
        } else {
            None
        };
        (Err(ChannelError { value: ChannelErrorValue::NoAppOrStreamName }), event)
    }

    /// Looks up the stream a player leaves. On success, the id of the
    /// transmitter to tell.
    pub fn unsubscribe(&self, app_name: &String, stream_name: &String) -> (r: Result<
        u64,
        ChannelError,
    >)
        ensures
            match lookup_error(self@, app_name@, stream_name@) {
                Some(e) => r == Err::<u64, ChannelError>(ChannelError { value: e }),
                None => r == Ok::<u64, ChannelError>(
                    self@.streams[stream_index(self@.streams, app_name@, stream_name@)].id,
                ),
            },
    {
        if self.find_app(app_name) == self.apps.len() {
            return Err(ChannelError { value: ChannelErrorValue::NoAppName });
        }
        let i = self.find_stream(app_name, stream_name);
        if i == self.streams.len() {
            return Err(ChannelError { value: ChannelErrorValue::NoStreamName });
        }
        Ok(self.streams[i].id)
    }
}

/// No stream is published twice.
pub open spec fn streams_distinct(streams: Seq<StreamModel>) -> bool {
    forall|i: int, j: int|
        0 <= i < j < streams.len() ==> !(streams[i].app_name == streams[j].app_name
            && streams[i].stream_name == streams[j].stream_name)
}

proof fn lemma_index_bounds(streams: Seq<StreamModel>, app: Seq<char>, stream: Seq<char>)
    ensures
        0 <= stream_index(streams, app, stream) <= streams.len(),
        stream_index(streams, app, stream) < streams.len() ==> streams[stream_index(
            streams,
            app,
            stream,
        )].app_name == app && streams[stream_index(streams, app, stream)].stream_name == stream,
        forall|j: int|
            0 <= j < stream_index(streams, app, stream) ==> !(#[trigger] streams[j].app_name == app
                && streams[j].stream_name == stream),
    decreases streams.len(),
{
    if streams.len() > 0 {
        lemma_index_bounds(streams.drop_first(), app, stream);
        assert forall|j: int| 0 <= j < stream_index(streams, app, stream) implies !(
        #[trigger] streams[j].app_name == app && streams[j].stream_name == stream) by {
            if j > 0 {
                assert(streams[j] == streams.drop_first()[j - 1]);
            }
        }
    }
}

proof fn lemma_app_index_bounds(apps: Seq<Seq<char>>, app: Seq<char>)
    ensures
        0 <= app_index(apps, app) <= apps.len(),
        app_index(apps, app) < apps.len() ==> apps[app_index(apps, app)] == app,
        forall|j: int| 0 <= j < app_index(apps, app) ==> #[trigger] apps[j] != app,
    decreases apps.len(),
{
    if apps.len() > 0 {
        lemma_app_index_bounds(apps.drop_first(), app);
        assert forall|j: int| 0 <= j < app_index(apps, app) implies #[trigger] apps[j] != app by {
            if j > 0 {
                assert(apps[j] == apps.drop_first()[j - 1]);
            }
        }
    }
}

/// Law (channels): a stream that is published already cannot be
/// published again; the registry is left as it was.
pub proof fn lemma_publish_twice_refused(m: ChannelsModel, app: Seq<char>, stream: Seq<char>)
    requires
        stream_index(m.streams, app, stream) < m.streams.len(),
    ensures
        after_publish(m, app, stream) == m,
{
}

/// Law (channels): publishing keeps every stream published at most once.
pub proof fn lemma_publish_keeps_distinct(m: ChannelsModel, app: Seq<char>, stream: Seq<char>)
    requires
        streams_distinct(m.streams),
    ensures
        streams_distinct(after_publish(m, app, stream).streams),
{
    lemma_index_bounds(m.streams, app, stream);
    let m2 = after_publish(m, app, stream);
    if stream_index(m.streams, app, stream) == m.streams.len() {
        assert forall|i: int, j: int| 0 <= i < j < m2.streams.len() implies !(
        m2.streams[i].app_name == m2.streams[j].app_name && m2.streams[i].stream_name
            == m2.streams[j].stream_name) by {
            if j == m.streams.len() {
                assert(m2.streams[i] == m.streams[i]);
                assert(!(m.streams[i].app_name == app && m.streams[i].stream_name == stream));
            }
        }
    }
}

/// Law (channels): once a new stream is published, it is found under its
/// names with the transmitter id it was given, and unpublishing it gives
/// back that id and the streams as they were before.
pub proof fn lemma_publish_then_unpublish(m: ChannelsModel, app: Seq<char>, stream: Seq<char>)
    requires
        stream_index(m.streams, app, stream) == m.streams.len(),
    ensures
        ({
            let m2 = after_publish(m, app, stream);
            let i = stream_index(m2.streams, app, stream);
            &&& lookup_error(m2, app, stream) is None
            &&& i == m.streams.len()
            &&& m2.streams[i].id == m.next_id
            &&& m2.streams.remove(i) == m.streams
        }),
{
    let m2 = after_publish(m, app, stream);
    lemma_index_bounds(m.streams, app, stream);
    lemma_app_index_bounds(m.apps, app);
    lemma_app_index_bounds(m2.apps, app);
    lemma_stream_index(m2.streams, app, stream, m.streams.len() as int);
    if app_index(m.apps, app) == m.apps.len() {
        assert forall|j: int| 0 <= j < m.apps.len() implies m2.apps[j] != app by {
            assert(m2.apps[j] == m.apps[j]);
        }
        lemma_app_index(m2.apps, app, m.apps.len() as int);
    }
    assert(m2.streams.remove(m.streams.len() as int) =~= m.streams);
}

} // verus!
