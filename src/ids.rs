//! Identifier checks: the playback engine's URI parser and the web API's
//! typed identifiers.

use rspotify::model::Id;
use vstd::prelude::*;

verus! {

/// Length of a base62 Spotify id.
pub const BASE62_ID_LEN: usize = 22;

pub open spec fn is_ascii_alnum(c: char) -> bool {
    ('0' <= c && c <= '9') || ('a' <= c && c <= 'z') || ('A' <= c && c <= 'Z')
}

/// Value of one base62 digit: `0-9`, then `a-z`, then `A-Z`.
pub open spec fn base62_digit(c: char) -> int {
    if '0' <= c && c <= '9' {
        c as int - '0' as int
    } else if 'a' <= c && c <= 'z' {
        c as int - 'a' as int + 10
    } else {
        c as int - 'A' as int + 36
    }
}

/// Value of a base62 numeral, most significant digit first.
pub open spec fn base62_value(s: Seq<char>) -> int
    decreases s.len(),
{
    if s.len() == 0 {
        0
    } else {
        base62_value(s.drop_last()) * 62 + base62_digit(s.last())
    }
}

pub open spec fn engine_prefix() -> Seq<char> {
    seq!['s', 'p', 'o', 't', 'i', 'f', 'y', ':']
}

/// The shape the playback engine accepts: `spotify:{type}:{id}` with an
/// arbitrary `{type}` and a 22-digit base62 `{id}`.
pub open spec fn spotify_uri_shape(s: Seq<char>) -> bool {
    &&& s.len() >= 31
    &&& s.take(8) == engine_prefix()
    &&& s[s.len() - 23] == ':'
    &&& forall|i: int| s.len() - 22 <= i < s.len() ==> is_ascii_alnum(#[trigger] s[i])
}

/// The last 22 characters, where the engine reads the id.
pub open spec fn uri_id_part(s: Seq<char>) -> Seq<char> {
    s.skip(s.len() - 22)
}

/// Whether the id part, when it is a base62 numeral, fits in 128 bits.
pub open spec fn uri_id_in_range(s: Seq<char>) -> bool {
    (s.len() >= 31 && forall|i: int| s.len() - 22 <= i < s.len() ==> is_ascii_alnum(#[trigger] s[i]))
        ==> base62_value(uri_id_part(s)) < 0x1_0000_0000_0000_0000_0000_0000_0000_0000
}

/// Relies on librespot's `SpotifyId::from_uri`: it strips `spotify:`, wants a
/// `:` 23 bytes from the end and decodes the 22 base62 bytes after it. The
/// decoding multiplies in `u128` without a check, hence the range demand.
#[verifier::external_body]
fn engine_accepts_uri(uri: &str) -> (r: bool)
    requires
        uri_id_in_range(uri@),
    ensures
        r == spotify_uri_shape(uri@),
{
    librespot::core::spotify_id::SpotifyId::from_uri(uri).is_ok()
}

proof fn lemma_base62_digit_bounds(c: char)
    requires
        is_ascii_alnum(c),
    ensures
        0 <= base62_digit(c) < 62,
{
}

proof fn lemma_base62_value_nonneg(s: Seq<char>)
    requires
        forall|i: int| 0 <= i < s.len() ==> is_ascii_alnum(#[trigger] s[i]),
    ensures
        base62_value(s) >= 0,
    decreases s.len(),
{
    if s.len() > 0 {
        lemma_base62_value_nonneg(s.drop_last());
        lemma_base62_digit_bounds(s.last());
    }
}

/// A longer numeral is worth at least as much as its prefix.
proof fn lemma_base62_prefix_le(s: Seq<char>, i: int, j: int)
    requires
        0 <= i <= j <= s.len(),
        forall|k: int| 0 <= k < s.len() ==> is_ascii_alnum(#[trigger] s[k]),
    ensures
        base62_value(s.take(i)) <= base62_value(s.take(j)),
    decreases j - i,
{
    if i < j {
        lemma_base62_prefix_le(s, i, j - 1);
        assert(s.take(j).drop_last() == s.take(j - 1));
        assert(s.take(j).last() == s[j - 1]);
        lemma_base62_digit_bounds(s[j - 1]);
        assert forall|k: int| 0 <= k < s.take(j - 1).len() implies is_ascii_alnum(
            #[trigger] s.take(j - 1)[k],
        ) by {
            assert(s.take(j - 1)[k] == s[k]);
        }
        lemma_base62_value_nonneg(s.take(j - 1));
        assert(base62_value(s.take(j)) == base62_value(s.take(j - 1)) * 62 + base62_digit(
            s[j - 1],
        ));
    }
}

fn digit_value(c: char) -> (r: u128)
    requires
        is_ascii_alnum(c),
    ensures
        r as int == base62_digit(c),
        r < 62,
{
    if '0' <= c && c <= '9' {
        (c as u32 - '0' as u32) as u128
    } else if 'a' <= c && c <= 'z' {
        (c as u32 - 'a' as u32 + 10) as u128
    } else {
        (c as u32 - 'A' as u32 + 36) as u128
    }
}

/// Decides `uri_id_in_range`: decodes the id part in `u128` with checked
/// arithmetic when it is a base62 numeral.
fn id_part_in_range(uri: &str) -> (r: bool)
    ensures
        r == uri_id_in_range(uri@),
{
    let n = uri.unicode_len();
    if n < 31 {
        return true;
    }
    let start: usize = n - BASE62_ID_LEN;
    let mut k: usize = start;
    while k < n
        invariant
            n == uri@.len(),
            start == n - 22,
            start <= k <= n,
            forall|i: int| start <= i < k ==> is_ascii_alnum(#[trigger] uri@[i]),
        decreases n - k,
    {
        if !is_alnum_char(uri.get_char(k)) {
            return true;
        }
        k = k + 1;
    }
    let ghost part = uri_id_part(uri@);
    assert forall|i: int| 0 <= i < part.len() implies is_ascii_alnum(#[trigger] part[i]) by {
        assert(part[i] == uri@[start + i]);
    }
    let mut acc: u128 = 0;
    let mut j: usize = 0;
    assert(part.take(0) =~= Seq::<char>::empty());
    while j < BASE62_ID_LEN
        invariant
            n == uri@.len(),
            start == n - 22,
            part == uri_id_part(uri@),
            part.len() == 22,
            n >= 31,
            forall|i: int| start <= i < n ==> is_ascii_alnum(#[trigger] uri@[i]),
            forall|i: int| 0 <= i < part.len() ==> is_ascii_alnum(#[trigger] part[i]),
            j <= 22,
            acc as int == base62_value(part.take(j as int)),
        decreases 22 - j,
    {
        let c = uri.get_char(start + j);
        assert(c == part[j as int]);
        let d = digit_value(c);
        assert(part.take(j + 1).drop_last() == part.take(j as int));
        assert(part.take(j + 1).last() == c);
        match acc.checked_mul(62) {
            Some(m) => match m.checked_add(d) {
                Some(v) => {
                    acc = v;
                },
                None => {
                    proof {
                        lemma_base62_prefix_le(part, j + 1, 22);
                        assert(part.take(22) == part);
                        assert(base62_value(part.take(j + 1)) == m + d);
                    }
                    return false;
                },
            },
            None => {
                proof {
                    lemma_base62_prefix_le(part, j + 1, 22);
                    assert(part.take(22) == part);
                    lemma_base62_digit_bounds(c);
                    assert(base62_value(part.take(j + 1)) == acc * 62 + d);
                }
                return false;
            },
        }
        j = j + 1;
    }
    assert(part.take(22) == part);
    true
}

fn is_alnum_char(c: char) -> (r: bool)
    ensures
        r == is_ascii_alnum(c),
{
    ('0' <= c && c <= '9') || ('a' <= c && c <= 'z') || ('A' <= c && c <= 'Z')
}

/// Whether the playback engine can load `uri`: it has the engine's URI shape
/// and its id fits in 128 bits.
pub fn spotify_uri_valid(uri: &str) -> (r: bool)
    ensures
        r == (spotify_uri_shape(uri@) && uri_id_in_range(uri@)),
{
    if id_part_in_range(uri) {
        engine_accepts_uri(uri)
    } else {
        false
    }
}

/// `spotify{sep}{kind}{sep}` with `sep` one of `:` and `/`.
pub open spec fn web_prefix(kind: Seq<char>, sep: char) -> Seq<char> {
    seq!['s', 'p', 'o', 't', 'i', 'f', 'y', sep] + kind + seq![sep]
}

/// What the web API client makes of a URI of the given kind: `spotify:{kind}:{id}`
/// or `spotify/{kind}/{id}` with an ASCII-alphanumeric `{id}`, given back in
/// its canonical `spotify:{kind}:{id}` form.
pub open spec fn web_uri_of(kind: Seq<char>, s: Seq<char>) -> Option<Seq<char>> {
    let n = kind.len() + 9int;
    if s.len() >= n && (s[7] == ':' || s[7] == '/') && s.take(n) == web_prefix(kind, s[7])
        && forall|i: int| n <= i < s.len() ==> is_ascii_alnum(#[trigger] s[i]) {
        Some(web_prefix(kind, ':') + s.skip(n))
    } else {
        None
    }
}

pub open spec fn track_kind() -> Seq<char> {
    seq!['t', 'r', 'a', 'c', 'k']
}

pub open spec fn playlist_kind() -> Seq<char> {
    seq!['p', 'l', 'a', 'y', 'l', 'i', 's', 't']
}

/// Relies on rspotify's `TrackId::from_uri`, which takes `spotify` and a
/// separator, splits the rest at its last separator, wants the type `track`
/// and an ASCII-alphanumeric id, and on `Id::uri`, which writes
/// `spotify:track:{id}`.
#[verifier::external_body]
pub(crate) fn track_uri(uri: &str) -> (r: Option<String>)
    ensures
        r.is_some() == web_uri_of(track_kind(), uri@).is_some(),
        r matches Some(u) ==> web_uri_of(track_kind(), uri@) == Some(u@),
{
    match rspotify::model::TrackId::from_uri(uri) {
        Ok(id) => Some(id.uri()),
        Err(_) => None,
    }
}

/// Relies on rspotify's `PlaylistId::from_uri` and `Id::uri`, as for tracks
/// with the type `playlist`.
#[verifier::external_body]
pub(crate) fn playlist_uri(uri: &str) -> (r: Option<String>)
    ensures
        r.is_some() == web_uri_of(playlist_kind(), uri@).is_some(),
        r matches Some(u) ==> web_uri_of(playlist_kind(), uri@) == Some(u@),
{
    match rspotify::model::PlaylistId::from_uri(uri) {
        Ok(id) => Some(id.uri()),
        Err(_) => None,
    }
}

} // verus!
