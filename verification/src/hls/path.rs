//! The request paths the HLS server answers: `/<app>/<stream>/<file>.m3u8`
//! for a playlist and `/<app>/<stream>/<file>.ts` for a segment.
use vstd::prelude::*;

verus! {

#[derive(Debug, Clone, Copy, PartialEq, Eq)]
pub enum HlsFileType {
    Playlist,
    Segment,
}

pub const CONTENT_TYPE_PLAYLIST: &'static str = "application/vnd.apple.mpegurl";
pub const CONTENT_TYPE_SEGMENT: &'static str = "video/mp2t";

impl HlsFileType {
    /// The HTTP content type the file is served with.
    pub fn content_type(&self) -> (r: &'static str)
        ensures
            *self == HlsFileType::Playlist ==> r@ == CONTENT_TYPE_PLAYLIST@,
            *self == HlsFileType::Segment ==> r@ == CONTENT_TYPE_SEGMENT@,
    {
        match self {
            HlsFileType::Playlist => CONTENT_TYPE_PLAYLIST,
            HlsFileType::Segment => CONTENT_TYPE_SEGMENT,
        }
    }
}

/// "m3u8".
pub open spec fn m3u8_ext() -> Seq<char> {
    seq!['m', '3', 'u', '8']
}

/// "ts".
pub open spec fn ts_ext() -> Seq<char> {
    seq!['t', 's']
}

pub open spec fn ext_of(t: HlsFileType) -> Seq<char> {
    match t {
        HlsFileType::Playlist => m3u8_ext(),
        HlsFileType::Segment => ts_ext(),
    }
}

/// Whether `s` holds two dots in a row.
pub open spec fn has_double_dot(s: Seq<char>) -> bool {
    exists|i: int| 0 <= i < s.len() - 1 && #[trigger] s[i] == '.' && s[i + 1] == '.'
}

/// The index of the first `c` in `s`; the length of `s` when there is
/// none.
pub open spec fn index_of(s: Seq<char>, c: char) -> int
    decreases s.len(),
{
    if s.len() == 0 {
        0
    } else if s[0] == c {
        0
    } else {
        1 + index_of(s.drop_first(), c)
    }
}

/// The index of the last `c` in `s`; -1 when there is none.
pub open spec fn last_index_of(s: Seq<char>, c: char) -> int
    decreases s.len(),
{
    if s.len() == 0 {
        -1
    } else if s.last() == c {
        s.len() - 1
    } else {
        last_index_of(s.drop_last(), c)
    }
}

/// Mathematical model of an `HlsPath`.
pub struct HlsPathModel {
    pub app_name: Seq<char>,
    pub stream_name: Seq<char>,
    pub file_name: Seq<char>,
    pub file_type: HlsFileType,
}

/// A request path names a file when, once its first character is
/// dropped, it splits at `/` into exactly three parts, app, stream and
/// file, the file part having a non-empty name before its last `.` and
/// the extension `m3u8` or `ts` after it. Empty paths and paths holding
/// `..` name nothing.
pub open spec fn parse_hls_path(p: Seq<char>) -> Option<HlsPathModel> {
    if p.len() == 0 || has_double_dot(p) {
        None
    } else {
        let rest = p.drop_first();
        let i1 = index_of(rest, '/');
        if i1 == rest.len() {
            None
        } else {
            let r2 = rest.skip(i1 + 1);
            let i2 = index_of(r2, '/');
            if i2 == r2.len() {
                None
            } else {
                let file_part = r2.skip(i2 + 1);
                if index_of(file_part, '/') < file_part.len() {
                    None
                } else {
                    let d = last_index_of(file_part, '.');
                    let name = file_part.take(d);
                    let ext = file_part.skip(d + 1);
                    if d < 0 || name.len() == 0 {
                        None
                    } else if ext == m3u8_ext() {
                        Some(
                            HlsPathModel {
                                app_name: rest.take(i1),
                                stream_name: r2.take(i2),
                                file_name: name,
                                file_type: HlsFileType::Playlist,
                            },
                        )
                    } else if ext == ts_ext() {
                        Some(
                            HlsPathModel {
                                app_name: rest.take(i1),
                                stream_name: r2.take(i2),
                                file_name: name,
                                file_type: HlsFileType::Segment,
                            },
                        )
                    } else {
                        None
                    }
                }
            }
        }
    }
}

pub proof fn lemma_index_of(s: Seq<char>, c: char, i: int)
    requires
        0 <= i <= s.len(),
        forall|j: int| 0 <= j < i ==> s[j] != c,
        i < s.len() ==> s[i] == c,
    ensures
        index_of(s, c) == i,
    decreases s.len(),
{
    if s.len() > 0 && s[0] != c {
        lemma_index_of(s.drop_first(), c, i - 1);
    }
}

proof fn lemma_last_index_of(s: Seq<char>, c: char, i: int)
    requires
        -1 <= i < s.len(),
        forall|j: int| i < j < s.len() ==> s[j] != c,
        i >= 0 ==> s[i] == c,
    ensures
        last_index_of(s, c) == i,
    decreases s.len(),
{
    if s.len() > 0 && s.last() != c {
        lemma_last_index_of(s.drop_last(), c, i);
    }
}

/// The first `c` of `s`, when there is one, sits at `index_of(s, c)`.
pub proof fn lemma_index_of_found(s: Seq<char>, c: char)
    ensures
        0 <= index_of(s, c) <= s.len(),
        index_of(s, c) < s.len() ==> s[index_of(s, c)] == c,
    decreases s.len(),
{
    if s.len() > 0 && s[0] != c {
        lemma_index_of_found(s.drop_first(), c);
    }
}

/// The last `c` of `s`, when there is one, sits at `last_index_of(s, c)`.
pub proof fn lemma_last_index_of_found(s: Seq<char>, c: char)
    ensures
        -1 <= last_index_of(s, c) < s.len(),
        last_index_of(s, c) >= 0 ==> s[last_index_of(s, c)] == c,
    decreases s.len(),
{
    if s.len() > 0 && s.last() != c {
        lemma_last_index_of_found(s.drop_last(), c);
    }
}

/// The file path of a parsed request path.
pub open spec fn file_path_of(m: HlsPathModel) -> Seq<char> {
    seq!['.', '/'] + m.app_name + seq!['/'] + m.stream_name + seq!['/'] + m.file_name + seq!['.']
        + ext_of(m.file_type)
}

proof fn lemma_join_path(
    p: Seq<char>,
    rest: Seq<char>,
    app: Seq<char>,
    r2: Seq<char>,
    stream: Seq<char>,
    file_part: Seq<char>,
    name: Seq<char>,
    ext: Seq<char>,
)
    requires
        p == seq!['/'] + rest,
        rest == app + seq!['/'] + r2,
        r2 == stream + seq!['/'] + file_part,
        file_part == name + seq!['.'] + ext,
    ensures
        seq!['.', '/'] + app + seq!['/'] + stream + seq!['/'] + name + seq!['.'] + ext == seq!['.']
            + p,
{
    assert(seq!['.', '/'] + app + seq!['/'] + stream + seq!['/'] + name + seq!['.'] + ext
        =~= seq!['.'] + p);
}

/// Cutting `s` around one of its elements and joining the parts again
/// gives `s`.
proof fn lemma_cut_at(s: Seq<char>, i: int)
    requires
        0 <= i < s.len(),
    ensures
        s == s.take(i) + seq![s[i]] + s.skip(i + 1),
{
    assert(s =~= s.take(i) + seq![s[i]] + s.skip(i + 1));
}

/// Law (HLS paths): parsing a request path that starts with `/` and
/// rebuilding the file path it names loses nothing: the file path is `.`
/// followed by the request path.
pub proof fn lemma_file_path_roundtrip(p: Seq<char>)
    requires
        p.len() > 0,
        p[0] == '/',
        parse_hls_path(p) is Some,
    ensures
        file_path_of(parse_hls_path(p)->Some_0) == seq!['.'] + p,
{
    let m = parse_hls_path(p)->Some_0;
    let rest = p.drop_first();
    let i1 = index_of(rest, '/');
    lemma_index_of_found(rest, '/');
    let r2 = rest.skip(i1 + 1);
    let i2 = index_of(r2, '/');
    lemma_index_of_found(r2, '/');
    let file_part = r2.skip(i2 + 1);
    let d = last_index_of(file_part, '.');
    lemma_last_index_of_found(file_part, '.');
    assert(m.app_name == rest.take(i1));
    assert(m.stream_name == r2.take(i2));
    assert(m.file_name == file_part.take(d));
    assert(ext_of(m.file_type) == file_part.skip(d + 1));
    lemma_cut_at(file_part, d);
    lemma_cut_at(r2, i2);
    lemma_cut_at(rest, i1);
    assert(p == seq!['/'] + rest) by {
        assert(p =~= seq![p[0]] + rest);
    }
    lemma_join_path(
        p,
        rest,
        m.app_name,
        r2,
        m.stream_name,
        file_part,
        m.file_name,
        ext_of(m.file_type),
    );
}

/// A request path naming an HLS file.
pub struct HlsPath {
    pub app_name: String,
    pub stream_name: String,
    pub file_name: String,
    pub file_type: HlsFileType,
}

impl View for HlsPath {
    type V = HlsPathModel;

    open spec fn view(&self) -> HlsPathModel {
        HlsPathModel {
            app_name: self.app_name@,
            stream_name: self.stream_name@,
            file_name: self.file_name@,
            file_type: self.file_type,
        }
    }
}

/// The first index in `from..s.len()` holding `c`, or the length.
pub(crate) fn find_char(s: &str, c: char, from: usize) -> (r: usize)
    requires
        from <= s@.len(),
    ensures
        from <= r <= s@.len(),
        forall|j: int| from <= j < r ==> s@[j] != c,
        r < s@.len() ==> s@[r as int] == c,
{
    let n = s.unicode_len();
    let mut i = from;
    while i < n
        invariant
            n == s@.len(),
            from <= i <= n,
            forall|j: int| from <= j < i ==> s@[j] != c,
        decreases n - i,
    {
        if s.get_char(i) == c {
            return i;
        }
        i = i + 1;
    }
    i
}

/// The last index in `from..s.len()` holding `c`, or `None`.
fn rfind_char(s: &str, c: char, from: usize) -> (r: Option<usize>)
    requires
        from <= s@.len(),
    ensures
        r matches Some(k) ==> from <= k < s@.len() && s@[k as int] == c && forall|j: int|
            k < j < s@.len() ==> s@[j] != c,
        r is None ==> forall|j: int| from <= j < s@.len() ==> s@[j] != c,
{
    let n = s.unicode_len();
    let mut i = n;
    while i > from
        invariant
            n == s@.len(),
            from <= i <= n,
            forall|j: int| i <= j < n ==> s@[j] != c,
        decreases i - from,
    {
        if s.get_char(i - 1) == c {
            return Some(i - 1);
        }
        i = i - 1;
    }
    None
}

fn has_double_dot_exec(s: &str) -> (b: bool)
    ensures
        b == has_double_dot(s@),
{
    let n = s.unicode_len();
    if n < 2 {
        return false;
    }
    let mut i: usize = 0;
    while i < n - 1
        invariant
            n == s@.len(),
            n >= 2,
            forall|j: int| 0 <= j < i && j < n - 1 ==> !(#[trigger] s@[j] == '.' && s@[j + 1] == '.'),
        decreases n - i,
    {
        if s.get_char(i) == '.' && s.get_char(i + 1) == '.' {
            assert(s@[i as int] == '.' && s@[i + 1] == '.');
            return true;
        }
        i = i + 1;
    }
    assert(!has_double_dot(s@)) by {
        if has_double_dot(s@) {
            let k = choose|k: int| 0 <= k < s@.len() - 1 && #[trigger] s@[k] == '.' && s@[k + 1]
                == '.';
            assert(!(s@[k] == '.' && s@[k + 1] == '.'));
        }
    }
    false
}

/// Whether `s[from..to]` spells `word`.
fn spells(s: &str, from: usize, to: usize, word: &str) -> (b: bool)
    requires
        from <= to <= s@.len(),
    ensures
        b == (s@.subrange(from as int, to as int) == word@),
{
    let n = word.unicode_len();
    if to - from != n {
        return false;
    }
    let mut i: usize = 0;
    while i < n
        invariant
            n == word@.len(),
            to - from == n,
            from <= to <= s@.len(),
            i <= n,
            forall|j: int| 0 <= j < i ==> s@[from + j] == word@[j],
        decreases n - i,
    {
        if s.get_char(from + i) != word.get_char(i) {
            return false;
        }
        i = i + 1;
    }
    assert(s@.subrange(from as int, to as int) =~= word@);
    true
}

impl HlsPath {
    /// The file a request path names, if any; see `parse_hls_path`.
    pub fn parse(path: &str) -> (r: Option<HlsPath>)
        requires
            path@.len() > 0 && !has_double_dot(path@) ==> path@[0] as u32 <= 0x7f,
        ensures
            match parse_hls_path(path@) {
                Some(m) => r matches Some(h) && h@ == m,
                None => r is None,
            },
    {
        let n = path.unicode_len();
        if n == 0 || has_double_dot_exec(path) {
            return None;
        }
        let ghost p = path@;
        let ghost rest = p.drop_first();
        let i1 = find_char(path, '/', 1);
        proof {
            lemma_index_of(rest, '/', i1 - 1);
        }
        if i1 == n {
            return None;
        }
        let i2 = find_char(path, '/', i1 + 1);
        let ghost r2 = rest.skip(i1 as int);
        proof {
            assert(r2 =~= p.skip(i1 + 1));
            lemma_index_of(r2, '/', i2 - i1 - 1);
        }
        if i2 == n {
            return None;
        }
        let ghost file_part = r2.skip(i2 - i1);
        proof {
            assert(file_part =~= p.skip(i2 + 1));
        }
        let i3 = find_char(path, '/', i2 + 1);
        proof {
            lemma_index_of(file_part, '/', i3 - i2 - 1);
        }
        if i3 < n {
            return None;
        }
        let d = match rfind_char(path, '.', i2 + 1) {
            Some(d) => d,
            None => {
                proof {
                    lemma_last_index_of(file_part, '.', -1);
                }
                return None;
            },
        };
        proof {
            lemma_last_index_of(file_part, '.', d - i2 - 1);
        }
        if d == i2 + 1 {
            return None;
        }
        let ghost ext = file_part.skip(d - i2);
        let ghost name = file_part.take(d - i2 - 1);
        proof {
            reveal_strlit("m3u8");
            reveal_strlit("ts");
            assert(ext =~= p.subrange(d + 1, n as int));
            assert(m3u8_ext() =~= "m3u8"@);
            assert(ts_ext() =~= "ts"@);
            assert(name.len() > 0);
        }
        let file_type = if spells(path, d + 1, n, "m3u8") {
            HlsFileType::Playlist
        } else if spells(path, d + 1, n, "ts") {
            HlsFileType::Segment
        } else {
            return None;
        };
        let app_name = path.substring_char(1, i1).to_owned();
        let stream_name = path.substring_char(i1 + 1, i2).to_owned();
        let file_name = path.substring_char(i2 + 1, d).to_owned();
        proof {
            assert(app_name@ =~= rest.take(i1 - 1));
            assert(stream_name@ =~= r2.take(i2 - i1 - 1));
            assert(file_name@ =~= name);
            assert(ext == ext_of(file_type));
        }
        Some(HlsPath { app_name, stream_name, file_name, file_type })
    }

    /// Where the file lies: `./<app>/<stream>/<file>.<ext>`.
    pub fn to_file_path(&self) -> (r: String)
        ensures
            r@ == file_path_of(self@),
    {
        let ext = match self.file_type {
            HlsFileType::Playlist => "m3u8",
            HlsFileType::Segment => "ts",
        };
        let mut r = String::from_str("./");
        r.append(self.app_name.as_str());
        r.append("/");
        r.append(self.stream_name.as_str());
        r.append("/");
        r.append(self.file_name.as_str());
        r.append(".");
        r.append(ext);
        proof {
            reveal_strlit("./");
            reveal_strlit("/");
            reveal_strlit(".");
            reveal_strlit("m3u8");
            reveal_strlit("ts");
        }
        r
    }
}

} // verus!
