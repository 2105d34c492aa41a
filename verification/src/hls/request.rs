//! The blocking playlist request of low-latency HLS: a request for a
//! playlist may carry `_HLS_msn` (and `_HLS_part`), asking to be held until
//! the media segment numbered `_HLS_msn` exists.
use vstd::prelude::*;
use crate::text::{decimal, digit_char};

verus! {

pub open spec fn is_ascii_digit(c: char) -> bool {
    '0' <= c <= '9'
}

/// The number a string of decimal digits spells.
pub open spec fn digits_value(s: Seq<char>) -> int
    decreases s.len(),
{
    if s.len() == 0 {
        0
    } else {
        digits_value(s.drop_last()) * 10 + (s.last() as int - '0' as int)
    }
}

/// The string without a leading `+`.
pub open spec fn strip_plus(s: Seq<char>) -> Seq<char> {
    if s.len() > 0 && s[0] == '+' {
        s.drop_first()
    } else {
        s
    }
}

pub open spec fn all_digits(d: Seq<char>) -> bool {
    forall|i: int| 0 <= i < d.len() ==> is_ascii_digit(#[trigger] d[i])
}

/// A `u64` written in decimal, as `u64::from_str` reads it: an optional
/// `+`, then one or more digits, of a value that fits.
pub open spec fn parse_u64_spec(s: Seq<char>) -> Option<u64> {
    let d = strip_plus(s);
    if d.len() > 0 && all_digits(d) && digits_value(d) <= u64::MAX {
        Some(digits_value(d) as u64)
    } else {
        None
    }
}

proof fn lemma_digits_value_nonneg(s: Seq<char>)
    requires
        forall|i: int| 0 <= i < s.len() ==> is_ascii_digit(#[trigger] s[i]),
    ensures
        digits_value(s) >= 0,
    decreases s.len(),
{
    if s.len() > 0 {
        lemma_digits_value_nonneg(s.drop_last());
        assert(is_ascii_digit(s[s.len() - 1]));
    }
}

/// Reads a decimal `u64`; see `parse_u64_spec`.
pub fn parse_u64(s: &str) -> (r: Option<u64>)
    ensures
        r == parse_u64_spec(s@),
{
    let n = s.unicode_len();
    let start: usize = if n > 0 && s.get_char(0) == '+' {
        1
    } else {
        0
    };
    let ghost d = strip_plus(s@);
    assert(d =~= s@.subrange(start as int, n as int));
    if start == n {
        return None;
    }
    let mut value: u64 = 0;
    let mut i = start;
    while i < n
        invariant
            n == s@.len(),
            start <= i <= n,
            d == s@.subrange(start as int, n as int),
            d == strip_plus(s@),
            forall|k: int| start <= k < i ==> is_ascii_digit(#[trigger] s@[k]),
            value == digits_value(s@.subrange(start as int, i as int)),
        decreases n - i,
    {
        let c = s.get_char(i);
        let ghost prefix = s@.subrange(start as int, i as int);
        let ghost next = s@.subrange(start as int, i + 1);
        assert(next.drop_last() =~= prefix);
        if !('0' <= c && c <= '9') {
            assert(d[i - start] == c);
            assert(!is_ascii_digit(d[i - start]));
            assert(!all_digits(d));
            assert(parse_u64_spec(s@) is None);
            return None;
        }
        let digit = (c as u32 - '0' as u32) as u64;
        assert(digits_value(next) == value * 10 + digit);
        if value > 1844674407370955161 || (value == 1844674407370955161 && digit > 5) {
            proof {
                assert forall|k: int| 0 <= k < next.len() implies is_ascii_digit(#[trigger] next[k]) by {
                    assert(next[k] == s@[start + k]);
                }
                assert(d.subrange(0, next.len() as int) =~= next);
                lemma_digits_prefix_bound(d, next);
                assert(value * 10 + digit > u64::MAX) by (nonlinear_arith)
                    requires
                        value > 1844674407370955161 || (value == 1844674407370955161 && digit > 5),
                ;
                assert(all_digits(d) ==> digits_value(d) > u64::MAX);
                assert(parse_u64_spec(s@) is None);
            }
            return None;
        }
        value = value * 10 + digit;
        i = i + 1;
    }
    assert(s@.subrange(start as int, n as int) =~= d);
    assert forall|k: int| 0 <= k < d.len() implies is_ascii_digit(#[trigger] d[k]) by {
        assert(d[k] == s@[start + k]);
    }
    assert(all_digits(d));
    Some(value)
}

/// A string of digits is worth at least any of its prefixes.
proof fn lemma_digits_prefix_bound(d: Seq<char>, p: Seq<char>)
    requires
        p.len() <= d.len(),
        p == d.subrange(0, p.len() as int),
        forall|k: int| 0 <= k < p.len() ==> is_ascii_digit(#[trigger] p[k]),
    ensures
        (forall|k: int| 0 <= k < d.len() ==> is_ascii_digit(#[trigger] d[k])) ==> digits_value(p)
            <= digits_value(d),
    decreases d.len(),
{
    if (forall|k: int| 0 <= k < d.len() ==> is_ascii_digit(#[trigger] d[k])) {
        if p.len() < d.len() {
            let d0 = d.drop_last();
            assert(p == d0.subrange(0, p.len() as int));
            assert forall|k: int| 0 <= k < d0.len() implies is_ascii_digit(#[trigger] d0[k]) by {
                assert(d0[k] == d[k]);
            }
            lemma_digits_prefix_bound(d0, p);
            lemma_digits_value_nonneg(d0);
            assert(is_ascii_digit(d[d.len() - 1]));
        } else {
            assert(p =~= d);
        }
    }
}

/// What a playlist request asks for.
#[derive(Debug, Clone, Copy, PartialEq, Eq, Structural)]
pub enum PlaylistRequest {
    /// The playlist as it is now.
    Plain,
    /// The playlist once media segment `msn` exists.
    Blocking(u64),
    /// A request the server answers with 400.
    BadRequest,
}

/// Reads the `_HLS_msn` and `_HLS_part` directives of a playlist request:
/// `_HLS_part` without `_HLS_msn`, or an `_HLS_msn` that is not a `u64`,
/// is a bad request.
pub fn playlist_request(msn: Option<&str>, has_part: bool) -> (r: PlaylistRequest)
    ensures
        r == (match msn {
            None => if has_part {
                PlaylistRequest::BadRequest
            } else {
                PlaylistRequest::Plain
            },
            Some(m) => match parse_u64_spec(m@) {
                Some(n) => PlaylistRequest::Blocking(n),
                None => PlaylistRequest::BadRequest,
            },
        }),
{
    match msn {
        None => if has_part {
            PlaylistRequest::BadRequest
        } else {
            PlaylistRequest::Plain
        },
        Some(m) => match parse_u64(m) {
            Some(n) => PlaylistRequest::Blocking(n),
            None => PlaylistRequest::BadRequest,
        },
    }
}

/// A blocking request can be answered at once when the playlist's
/// sequence number is already past the segment asked for; otherwise it
/// waits for the sequence event that announces exactly that segment (see
/// `sequence_announced`).
pub fn playlist_ready(sequence_no: u64, msn: u64) -> (r: bool)
    ensures
        r == (sequence_no > msn),
{
    sequence_no > msn
}

/// Whether a sequence event ends the wait of a blocking request: it
/// announces exactly the segment asked for; other events are skipped.
pub fn sequence_announced(sequence: u64, msn: u64) -> (r: bool)
    ensures
        r == (sequence == msn),
{
    sequence == msn
}

proof fn lemma_decimal_digits(n: nat)
    ensures
        decimal(n).len() > 0,
        all_digits(decimal(n)),
        digits_value(decimal(n)) == n,
    decreases n,
{
    if n >= 10 {
        lemma_decimal_digits(n / 10);
        let d = decimal(n);
        assert(d.drop_last() =~= decimal(n / 10));
        assert forall|i: int| 0 <= i < d.len() implies is_ascii_digit(#[trigger] d[i]) by {
            if i < d.len() - 1 {
                assert(d[i] == decimal(n / 10)[i]);
            }
        }
        assert(digit_char(n % 10) as int == 48 + n % 10);
        assert(d.last() == digit_char(n % 10));
        assert('0' as int == 48);
        assert(digits_value(d) == digits_value(d.drop_last()) * 10 + (d.last() as int - '0' as int));
        assert((n / 10) * 10 + n % 10 == n);
    } else {
        assert('0' as int == 48);
        assert(digit_char(n) as int == 48 + n);
        let d = decimal(n);
        assert(d.drop_last() =~= Seq::<char>::empty());
        assert(digits_value(d.drop_last()) == 0);
        assert(d.last() == digit_char(n));
        assert(digits_value(d) == digits_value(d.drop_last()) * 10 + (d.last() as int - '0' as int));
    }
}

/// A sequence number written in decimal, as the playlist writes it, reads
/// back as the same number when a client sends it as `_HLS_msn`.
pub proof fn lemma_msn_roundtrip(n: u64)
    ensures
        parse_u64_spec(decimal(n as nat)) == Some(n),
{
    lemma_decimal_digits(n as nat);
    let d = decimal(n as nat);
    assert(is_ascii_digit(d[0]));
    assert(strip_plus(d) == d);
}

} // verus!
