//! The registry of running GB28181 sessions, by stream name. The caller
//! opens and closes the sessions' sockets; the registry decides whether a
//! session may start and records the port it listens on.
use vstd::prelude::*;
use crate::gb28181::errors::{Gb28181Error, Gb28181ErrorValue};

verus! {

/// A running session: its stream name and the port it listens on.
pub struct SessionEntry {
    pub stream_name: String,
    pub local_port: u16,
}

/// The index of the first session named `name`, or the length.
pub open spec fn session_index(s: Seq<(Seq<char>, u16)>, name: Seq<char>) -> int
    decreases s.len(),
{
    if s.len() == 0 {
        0
    } else if s[0].0 == name {
        0
    } else {
        1 + session_index(s.drop_first(), name)
    }
}

pub open spec fn has_session(s: Seq<(Seq<char>, u16)>, name: Seq<char>) -> bool {
    exists|i: int| 0 <= i < s.len() && #[trigger] s[i].0 == name
}

/// No two sessions have the same stream name.
pub open spec fn names_distinct(s: Seq<(Seq<char>, u16)>) -> bool {
    forall|i: int, j: int| 0 <= i < j < s.len() ==> #[trigger] s[i].0 != #[trigger] s[j].0
}

pub proof fn lemma_session_index(s: Seq<(Seq<char>, u16)>, name: Seq<char>, i: int)
    requires
        0 <= i <= s.len(),
        forall|j: int| 0 <= j < i ==> #[trigger] s[j].0 != name,
        i < s.len() ==> s[i].0 == name,
    ensures
        session_index(s, name) == i,
    decreases s.len(),
{
    if s.len() > 0 && s[0].0 != name {
        assert forall|j: int| 0 <= j < i - 1 implies #[trigger] s.drop_first()[j].0 != name by {
            assert(s.drop_first()[j] == s[j + 1]);
        }
        lemma_session_index(s.drop_first(), name, i - 1);
    }
}

pub proof fn lemma_session_index_found(s: Seq<(Seq<char>, u16)>, name: Seq<char>)
    ensures
        0 <= session_index(s, name) <= s.len(),
        session_index(s, name) < s.len() ==> s[session_index(s, name)].0 == name,
        session_index(s, name) < s.len() <==> has_session(s, name),
    decreases s.len(),
{
    if s.len() > 0 && s[0].0 != name {
        lemma_session_index_found(s.drop_first(), name);
        if has_session(s, name) {
            let i = choose|i: int| 0 <= i < s.len() && #[trigger] s[i].0 == name;
            assert(s.drop_first()[i - 1].0 == name);
        }
        if has_session(s.drop_first(), name) {
            let i = choose|i: int| 0 <= i < s.len() - 1 && #[trigger] s.drop_first()[i].0 == name;
            assert(s[i + 1].0 == name);
        }
    } else if s.len() > 0 {
        assert(s[0].0 == name);
    }
}

pub struct GB28181Server {
    sessions: Vec<SessionEntry>,
}

pub open spec fn sessions_view(s: Seq<SessionEntry>) -> Seq<(Seq<char>, u16)> {
    s.map_values(|e: SessionEntry| (e.stream_name@, e.local_port))
}

impl View for GB28181Server {
    type V = Seq<(Seq<char>, u16)>;

    closed spec fn view(&self) -> Seq<(Seq<char>, u16)> {
        sessions_view(self.sessions@)
    }
}

impl GB28181Server {
    pub fn new() -> (s: Self)
        ensures
            s@ == Seq::<(Seq<char>, u16)>::empty(),
    {
        let s = GB28181Server { sessions: Vec::new() };
        assert(s@ =~= Seq::<(Seq<char>, u16)>::empty());
        s
    }

    fn find(&self, stream_name: &String) -> (r: usize)
        ensures
            r == session_index(self@, stream_name@),
            r <= self@.len(),
            r < self@.len() <==> has_session(self@, stream_name@),
            self@.len() == self.sessions@.len(),
    {
        let mut i: usize = 0;
        while i < self.sessions.len()
            invariant
                i <= self.sessions@.len(),
                self@ == sessions_view(self.sessions@),
                forall|j: int| 0 <= j < i ==> #[trigger] self@[j].0 != stream_name@,
            decreases self.sessions@.len() - i,
        {
            assert(self@[i as int] == (self.sessions@[i as int].stream_name@, self.sessions@[i as int].local_port));
            if self.sessions[i].stream_name == *stream_name {
                proof {
                    lemma_session_index(self@, stream_name@, i as int);
                }
                return i;
            }
            i = i + 1;
        }
        proof {
            lemma_session_index(self@, stream_name@, i as int);
        }
        i
    }

    /// Whether a session with that stream name is running.
    pub fn session_exists(&self, stream_name: &String) -> (r: bool)
        ensures
            r == has_session(self@, stream_name@),
    {
        self.find(stream_name) < self.sessions.len()
    }

    /// Records a session that the caller opened for `stream_name`:
    /// `opened_port` is the port it listens on, or `None` where it could
    /// not be opened. A name that already has a session is refused first.
    pub fn start_session(&mut self, stream_name: String, opened_port: Option<u16>) -> (r: Result<
        u16,
        Gb28181Error,
    >)
        requires
            names_distinct(old(self)@),
        ensures
            names_distinct(final(self)@),
            has_session(old(self)@, stream_name@) ==> (r matches Err(e) && e.value
                == Gb28181ErrorValue::SessionExists) && final(self)@ == old(self)@,
            !has_session(old(self)@, stream_name@) && opened_port is None ==> (r matches Err(e)
                && e.value == Gb28181ErrorValue::NewSessionFailed) && final(self)@ == old(self)@,
            !has_session(old(self)@, stream_name@) && opened_port is Some ==> r == Ok::<
                u16,
                Gb28181Error,
            >(opened_port->0) && final(self)@ == old(self)@.push((stream_name@, opened_port->0)),
    {
        if self.session_exists(&stream_name) {
            return Err(Gb28181Error { value: Gb28181ErrorValue::SessionExists });
        }
        match opened_port {
            Some(port) => {
                let ghost name = stream_name@;
                self.sessions.push(SessionEntry { stream_name, local_port: port });
                assert(self@ =~= old(self)@.push((name, port)));
                Ok(port)
            },
            None => Err(Gb28181Error { value: Gb28181ErrorValue::NewSessionFailed }),
        }
    }

    /// Forgets the session of `stream_name`; whether there was one. The
    /// caller closes it.
    pub fn stop_session(&mut self, stream_name: &String) -> (r: bool)
        requires
            names_distinct(old(self)@),
        ensures
            names_distinct(final(self)@),
            r == has_session(old(self)@, stream_name@),
            r ==> final(self)@ == old(self)@.remove(session_index(old(self)@, stream_name@)),
            !r ==> final(self)@ == old(self)@,
            !has_session(final(self)@, stream_name@),
    {
        let i = self.find(stream_name);
        if i < self.sessions.len() {
            let ghost before = self.sessions@;
            proof {
                lemma_session_index_found(old(self)@, stream_name@);
            }
            self.sessions.remove(i);
            assert(self@ =~= old(self)@.remove(i as int)) by {
                assert(self.sessions@ =~= before.remove(i as int));
            }
            assert forall|k: int| 0 <= k < self@.len() implies #[trigger] self@[k].0 != stream_name@ by {
                if k < i {
                    assert(self@[k] == old(self)@[k]);
                    assert(old(self)@[k].0 != old(self)@[i as int].0);
                } else {
                    assert(self@[k] == old(self)@[k + 1]);
                    assert(old(self)@[i as int].0 != old(self)@[k + 1].0);
                }
            }
            true
        } else {
            false
        }
    }
}

/// Once a session has started under a name, the registry has a session of
/// that name, so `start_session` refuses the name until it is stopped.
pub proof fn lemma_start_twice_refused(s: Seq<(Seq<char>, u16)>, name: Seq<char>, port: u16)
    ensures
        has_session(s.push((name, port)), name),
{
    assert(s.push((name, port))[s.len() as int].0 == name);
}

/// After a session is stopped its name can be started again.
pub proof fn lemma_stop_frees_name(s: Seq<(Seq<char>, u16)>, name: Seq<char>)
    requires
        names_distinct(s),
        has_session(s, name),
    ensures
        !has_session(s.remove(session_index(s, name)), name),
{
    let i = choose|i: int| 0 <= i < s.len() && #[trigger] s[i].0 == name;
    let k = session_index(s, name);
    assert forall|j: int| 0 <= j < i implies #[trigger] s[j].0 != name by {
        assert(s[j].0 != s[i].0);
    }
    lemma_session_index(s, name, i);
    assert forall|m: int| 0 <= m < s.len() - 1 implies #[trigger] s.remove(k)[m].0 != name by {
        if m < k {
            assert(s.remove(k)[m] == s[m]);
            assert(s[m].0 != s[k].0);
        } else {
            assert(s.remove(k)[m] == s[m + 1]);
            assert(s[k].0 != s[m + 1].0);
        }
    }
}

} // verus!
