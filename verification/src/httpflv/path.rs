//! Which stream an HTTP-FLV request asks for: `/<app>/<stream>.flv`.
use vstd::prelude::*;
use crate::hls::path::{index_of, lemma_index_of, find_char};

verus! {

/// Whether `.flv` starts at index `i` of `p`.
pub open spec fn flv_at(p: Seq<char>, i: int) -> bool {
    &&& 0 <= i
    &&& i + 4 <= p.len()
    &&& p[i] == '.'
    &&& p[i + 1] == 'f'
    &&& p[i + 2] == 'l'
    &&& p[i + 3] == 'v'
}

/// The first index at or after `from` where `.flv` starts; -1 when none.
pub open spec fn first_flv(p: Seq<char>, from: int) -> int
    decreases p.len() - from,
{
    if from < 0 || from + 4 > p.len() {
        -1
    } else if flv_at(p, from) {
        from
    } else {
        first_flv(p, from + 1)
    }
}

/// What an HTTP-FLV request path asks for.
pub enum FlvRequest {
    /// No `.flv` after the first character: answered with 404.
    NotFound,
    /// The stream to play.
    Play { app_name: String, stream_name: String },
    /// A `.flv` path with fewer than two `/` before the `.flv`, which the
    /// server cannot serve: the request is dropped.
    Malformed,
}

pub enum FlvRequestModel {
    NotFound,
    Play { app_name: Seq<char>, stream_name: Seq<char> },
    Malformed,
}

impl View for FlvRequest {
    type V = FlvRequestModel;

    open spec fn view(&self) -> FlvRequestModel {
        match self {
            FlvRequest::NotFound => FlvRequestModel::NotFound,
            FlvRequest::Play { app_name, stream_name } => FlvRequestModel::Play {
                app_name: app_name@,
                stream_name: stream_name@,
            },
            FlvRequest::Malformed => FlvRequestModel::Malformed,
        }
    }
}

/// The part before the first `.flv` is split at `/`: the app is the
/// second piece and the stream the third.
pub open spec fn flv_request_spec(p: Seq<char>) -> FlvRequestModel {
    let i = first_flv(p, 0);
    if i <= 0 {
        FlvRequestModel::NotFound
    } else {
        let left = p.take(i);
        let i1 = index_of(left, '/');
        let r2 = left.skip(i1 + 1);
        let i2 = index_of(r2, '/');
        let r3 = r2.skip(i2 + 1);
        if i1 == left.len() || i2 == r2.len() {
            FlvRequestModel::Malformed
        } else {
            FlvRequestModel::Play { app_name: r2.take(i2), stream_name: r3.take(index_of(r3, '/')) }
        }
    }
}

proof fn lemma_first_flv(p: Seq<char>, from: int, i: int)
    requires
        0 <= from,
        from <= i,
        forall|j: int| from <= j < i ==> !flv_at(p, j),
        flv_at(p, i) || (i == -1 || i + 4 > p.len()),
    ensures
        first_flv(p, from) == (if flv_at(p, i) { i } else { -1 }),
    decreases p.len() - from,
{
    if from + 4 <= p.len() && !flv_at(p, from) {
        lemma_first_flv(p, from + 1, i);
    }
}

/// The first index where `.flv` starts, or -1.
fn find_flv(path: &str) -> (r: Option<usize>)
    ensures
        r is None ==> first_flv(path@, 0) == -1,
        r matches Some(k) ==> k == first_flv(path@, 0) && k + 4 <= path@.len(),
{
    let n = path.unicode_len();
    let mut i: usize = 0;
    while i < n && n - i >= 4
        invariant
            n == path@.len(),
            i <= n,
            forall|j: int| 0 <= j < i ==> !flv_at(path@, j),
        decreases n - i,
    {
        if path.get_char(i) == '.' && path.get_char(i + 1) == 'f' && path.get_char(i + 2) == 'l'
            && path.get_char(i + 3) == 'v' {
            proof {
                lemma_first_flv(path@, 0, i as int);
            }
            return Some(i);
        }
        i = i + 1;
    }
    proof {
        assert(!flv_at(path@, i as int));
        lemma_first_flv(path@, 0, i as int);
    }
    None
}

/// What a request path asks for; see `flv_request_spec`.
pub fn flv_request(path: &str) -> (r: FlvRequest)
    ensures
        r@ == flv_request_spec(path@),
{
    let i = match find_flv(path) {
        Some(k) if k > 0 => k,
        _ => {
            return FlvRequest::NotFound;
        },
    };
    let ghost p = path@;
    let ghost left = p.take(i as int);
    let i1 = find_char(path, '/', 0);
    let i1 = if i1 < i { i1 } else { i };
    proof {
        lemma_index_of(left, '/', i1 as int);
    }
    if i1 == i {
        return FlvRequest::Malformed;
    }
    let i2 = find_char(path, '/', i1 + 1);
    let i2 = if i2 < i { i2 } else { i };
    let ghost r2 = left.skip(i1 + 1);
    proof {
        assert forall|j: int| 0 <= j < i2 - i1 - 1 implies r2[j] != '/' by {
            assert(r2[j] == p[i1 + 1 + j]);
        }
        lemma_index_of(r2, '/', i2 - i1 - 1);
    }
    if i2 == i {
        return FlvRequest::Malformed;
    }
    let i3 = find_char(path, '/', i2 + 1);
    let i3 = if i3 < i { i3 } else { i };
    let ghost r3 = r2.skip(i2 - i1);
    proof {
        assert forall|j: int| 0 <= j < i3 - i2 - 1 implies r3[j] != '/' by {
            assert(r3[j] == p[i2 + 1 + j]);
        }
        if i3 < i {
            assert(r3[i3 - i2 - 1] == p[i3 as int]);
        }
        lemma_index_of(r3, '/', i3 - i2 - 1);
    }
    let app_name = path.substring_char(i1 + 1, i2).to_owned();
    let stream_name = path.substring_char(i2 + 1, i3).to_owned();
    proof {
        assert(app_name@ =~= r2.take(i2 - i1 - 1));
        assert(stream_name@ =~= r3.take(i3 - i2 - 1));
    }
    FlvRequest::Play { app_name, stream_name }
}

} // verus!
