use vstd::prelude::*;
use std::collections::HashSet;
use crate::text::{
    has_sub, replaced, index_of, chars_of, str_contains, str_replace, owned, find_char,
    sub_vec, seq_equal, string_of,
};
use crate::numtext::{decimal, decimal_chars, parse_usize, parsed_usize};
use crate::formats::{Transcoding, or_default};

verus! {

/// The author of a track.
pub struct TrackUser {
    pub id: String,
    pub username: String,
    pub permalink_url: String,
    pub avatar_url: Option<String>,
}

/// A track as the archiver uses it.
pub struct Track {
    pub id: String,
    pub title: String,
    pub permalink_url: String,
    pub artwork_url: Option<String>,
    pub description: Option<String>,
    pub user: TrackUser,
    pub created_at: String,
    pub duration: u64,
    pub stream_url: Option<String>,
    pub hls_url: Option<String>,
    pub download_url: Option<String>,
    pub playback_count: Option<u64>,
    pub likes_count: Option<u64>,
    pub reposts_count: Option<u64>,
    pub comment_count: Option<u64>,
    pub genre: Option<String>,
    pub tag_list: Option<String>,
    pub downloadable: Option<bool>,
    /// The renditions listed under `media.transcodings` of the upstream record.
    pub transcodings: Vec<Transcoding>,
}

/// A liked track.
pub struct Like {
    pub created_at: String,
    pub kind: String,
    pub track: Track,
}

/// The fields of an upstream user record, each as found (absent when missing or mistyped).
pub struct RawUser {
    pub id: Option<u64>,
    pub username: Option<String>,
    pub permalink_url: Option<String>,
    pub avatar_url: Option<String>,
}

/// The fields of an upstream track record, each as found (absent when missing or mistyped).
pub struct RawTrack {
    pub id: Option<u64>,
    pub title: Option<String>,
    pub permalink_url: Option<String>,
    pub artwork_url: Option<String>,
    pub description: Option<String>,
    pub user: Option<RawUser>,
    pub created_at: Option<String>,
    pub duration: Option<u64>,
    pub stream_url: Option<String>,
    pub download_url: Option<String>,
    pub playback_count: Option<u64>,
    pub likes_count: Option<u64>,
    pub reposts_count: Option<u64>,
    pub comment_count: Option<u64>,
    pub genre: Option<String>,
    pub tag_list: Option<String>,
    pub downloadable: Option<bool>,
    pub transcodings: Vec<Transcoding>,
}

/// The fields of an upstream like record, each as found.
pub struct RawLike {
    pub kind: Option<String>,
    pub created_at: Option<String>,
    pub track: Option<RawTrack>,
}

pub open spec fn opt_view(o: Option<String>) -> Option<Seq<char>> {
    match o {
        Some(s) => Some(s@),
        None => None,
    }
}

/// The high-resolution variant of an artwork URL.
pub open spec fn original_artwork(a: Seq<char>) -> Seq<char> {
    if has_sub(a, "-large.jpg"@) {
        replaced(a, "-large.jpg"@, "-original.jpg"@)
    } else if has_sub(a, "-t500x500.jpg"@) {
        replaced(a, "-t500x500.jpg"@, "-original.jpg"@)
    } else {
        a
    }
}

/// The value of the first `offset` parameter of a `&`-separated query, if it parses.
pub open spec fn scan_params(q: Seq<char>) -> Option<nat>
    decreases q.len(),
{
    let amp = index_of(q, '&');
    let param = match amp {
        Some(k) => q.subrange(0, k),
        None => q,
    };
    let found = match index_of(param, '=') {
        Some(e) => if param.subrange(0, e) == "offset"@ {
            Some(parsed_usize(param.subrange(e + 1, param.len() as int)))
        } else {
            None
        },
        None => None,
    };
    match found {
        Some(r) => r,
        None => match amp {
            Some(k) => if 0 <= k < q.len() {
                scan_params(q.subrange(k + 1, q.len() as int))
            } else {
                None
            },
            None => None,
        },
    }
}

/// The query of a URL: the text between its first `?` and the next one.
pub open spec fn query_of(u: Seq<char>) -> Option<Seq<char>> {
    match index_of(u, '?') {
        Some(i) => if 0 <= i < u.len() {
            let rest = u.subrange(i + 1, u.len() as int);
            match index_of(rest, '?') {
                Some(j) => if 0 <= j <= rest.len() {
                    Some(rest.subrange(0, j))
                } else {
                    None
                },
                None => Some(rest),
            }
        } else {
            None
        },
        None => None,
    }
}

/// The `offset` parameter of a paging URL.
pub open spec fn offset_of(u: Seq<char>) -> Option<nat> {
    match query_of(u) {
        Some(q) => scan_params(q),
        None => None,
    }
}

proof fn lemma_index_of_bounds(s: Seq<char>, c: char)
    ensures
        index_of(s, c) matches Some(k) ==> 0 <= k < s.len() && s[k] == c,
    decreases s.len(),
{
    if s.len() > 0 && s[0] != c {
        lemma_index_of_bounds(s.subrange(1, s.len() as int), c);
    }
}

/// Converts an artwork URL to its original high-resolution variant.
pub fn get_original_artwork_url(artwork_url: &str) -> (r: String)
    ensures
        r@ == original_artwork(artwork_url@),
{
    if str_contains(artwork_url, "-large.jpg") {
        return str_replace(artwork_url, "-large.jpg", "-original.jpg");
    }
    if str_contains(artwork_url, "-t500x500.jpg") {
        return str_replace(artwork_url, "-t500x500.jpg", "-original.jpg");
    }
    owned(artwork_url)
}

/// The `offset` query parameter of a paging URL such as a `next_href`.
pub fn extract_offset_from_url(url: &str) -> (r: Option<usize>)
    ensures
        r matches Some(v) ==> offset_of(url@) == Some(v as nat),
        r is None ==> offset_of(url@) is None,
{
    let v = chars_of(url);
    let n = v.len();
    let qs = match find_char(&v, 0, n, '?') {
        Some(i) => i + 1,
        None => {
            assert(v@.subrange(0, n as int) =~= v@);
            return None;
        },
    };
    assert(v@.subrange(0, n as int) =~= v@);
    proof {
        lemma_index_of_bounds(v@, '?');
    }
    let qe = match find_char(&v, qs, n, '?') {
        Some(j) => j,
        None => n,
    };
    proof {
        lemma_index_of_bounds(v@.subrange(qs as int, n as int), '?');
    }
    let q = sub_vec(&v, qs, qe);
    assert(query_of(url@) == Some(q@)) by {
        let rest = v@.subrange(qs as int, n as int);
        if index_of(rest, '?') is Some {
            assert(rest.subrange(0, index_of(rest, '?')->0) =~= q@);
        } else {
            assert(rest =~= q@);
        }
    }
    let key = chars_of("offset");
    let qn = q.len();
    let mut pos: usize = 0;
    assert(q@.subrange(0, qn as int) =~= q@);
    while pos <= qn
        invariant
            qn == q@.len(),
            pos <= qn,
            key@ == "offset"@,
            offset_of(url@) == scan_params(q@.subrange(pos as int, qn as int)),
        decreases qn - pos,
    {
        let ghost rest = q@.subrange(pos as int, qn as int);
        let amp = find_char(&q, pos, qn, '&');
        proof {
            lemma_index_of_bounds(rest, '&');
        }
        let pe = match amp {
            Some(k) => k,
            None => qn,
        };
        let ghost param = q@.subrange(pos as int, pe as int);
        assert(param =~= match index_of(rest, '&') {
            Some(k) => rest.subrange(0, k),
            None => rest,
        });
        let eq = find_char(&q, pos, pe, '=');
        proof {
            lemma_index_of_bounds(param, '=');
        }
        match eq {
            Some(e) => {
                let name = sub_vec(&q, pos, e);
                assert(name@ =~= param.subrange(0, (e - pos) as int));
                if seq_equal(&name, &key) {
                    let value = sub_vec(&q, e + 1, pe);
                    assert(value@ =~= param.subrange((e - pos) + 1, param.len() as int));
                    return parse_usize(&value);
                }
            },
            None => {},
        }
        match amp {
            Some(k) => {
                assert(rest.subrange((k - pos) + 1, rest.len() as int) =~= q@.subrange(
                    k + 1,
                    qn as int,
                ));
                pos = k + 1;
            },
            None => {
                return None;
            },
        }
    }
    None
}

/// The author as read from an upstream record, with the defaults for missing fields.
pub open spec fn user_matches(u: TrackUser, raw: Option<RawUser>) -> bool {
    match raw {
        Some(r) => {
            &&& u.id@ == match r.id {
                Some(x) => decimal(x as nat),
                None => ""@,
            }
            &&& u.username@ == or_default(r.username, "Unknown Artist"@)
            &&& u.permalink_url@ == or_default(r.permalink_url, ""@)
            &&& opt_view(u.avatar_url) == match r.avatar_url {
                Some(a) => Some(original_artwork(a@)),
                None => None,
            }
        },
        None => {
            &&& u.id@ == ""@
            &&& u.username@ == "Unknown Artist"@
            &&& u.permalink_url@ == ""@
            &&& u.avatar_url is None
        },
    }
}

/// The fields that every track read from an upstream record takes from it, with defaults.
pub open spec fn track_fields_match(t: Track, raw: RawTrack) -> bool {
    &&& t.title@ == or_default(raw.title, "Untitled"@)
    &&& t.permalink_url@ == or_default(raw.permalink_url, ""@)
    &&& t.description == raw.description
    &&& user_matches(t.user, raw.user)
    &&& t.created_at@ == or_default(raw.created_at, ""@)
    &&& t.duration == match raw.duration {
        Some(d) => d,
        None => 0,
    }
    &&& t.stream_url == raw.stream_url
    &&& t.download_url == raw.download_url
    &&& t.playback_count == raw.playback_count
    &&& t.likes_count == raw.likes_count
    &&& t.reposts_count == raw.reposts_count
    &&& t.comment_count == raw.comment_count
    &&& t.genre == raw.genre
    &&& t.tag_list == raw.tag_list
    &&& t.downloadable == raw.downloadable
    &&& t.transcodings@ == raw.transcodings@
}

/// A track as listed among a user's uploads or likes: artwork as given, no HLS URL yet.
pub open spec fn listed_track_matches(t: Track, raw: RawTrack) -> bool {
    &&& raw.id is Some
    &&& t.id@ == decimal(raw.id->0 as nat)
    &&& track_fields_match(t, raw)
    &&& t.artwork_url == raw.artwork_url
    &&& t.hls_url is None
}

/// The URL of the first rendition whose protocol is `hls`.
pub open spec fn first_hls_url(ts: Seq<Transcoding>) -> Option<Seq<char>>
    decreases ts.len(),
{
    if ts.len() == 0 {
        None
    } else if ts[0].protocol matches Some(p) && p@ == "hls"@ && ts[0].url is Some {
        Some(ts[0].url->0@)
    } else {
        first_hls_url(ts.subrange(1, ts.len() as int))
    }
}

/// Reads the author of a track from its upstream record.
pub fn parse_track_user(raw: Option<RawUser>) -> (u: TrackUser)
    ensures
        user_matches(u, raw),
{
    match raw {
        Some(r) => {
            let id = match r.id {
                Some(x) => string_of(&decimal_chars(x)),
                None => owned(""),
            };
            let username = match r.username {
                Some(n) => n,
                None => owned("Unknown Artist"),
            };
            let permalink_url = match r.permalink_url {
                Some(p) => p,
                None => owned(""),
            };
            let avatar_url = match r.avatar_url {
                Some(a) => Some(get_original_artwork_url(a.as_str())),
                None => None,
            };
            let u = TrackUser { id, username, permalink_url, avatar_url };
            u
        },
        None => TrackUser {
            id: owned(""),
            username: owned("Unknown Artist"),
            permalink_url: owned(""),
            avatar_url: None,
        },
    }
}

fn fill_track(id: String, artwork_url: Option<String>, hls_url: Option<String>, raw: RawTrack) -> (t:
    Track)
    ensures
        track_fields_match(t, raw),
        t.id == id,
        t.artwork_url == artwork_url,
        t.hls_url == hls_url,
{
    let title = match raw.title {
        Some(x) => x,
        None => owned("Untitled"),
    };
    let permalink_url = match raw.permalink_url {
        Some(x) => x,
        None => owned(""),
    };
    let created_at = match raw.created_at {
        Some(x) => x,
        None => owned(""),
    };
    let duration = match raw.duration {
        Some(d) => d,
        None => 0,
    };
    Track {
        id,
        title,
        permalink_url,
        artwork_url,
        description: raw.description,
        user: parse_track_user(raw.user),
        created_at,
        duration,
        stream_url: raw.stream_url,
        hls_url,
        download_url: raw.download_url,
        playback_count: raw.playback_count,
        likes_count: raw.likes_count,
        reposts_count: raw.reposts_count,
        comment_count: raw.comment_count,
        genre: raw.genre,
        tag_list: raw.tag_list,
        downloadable: raw.downloadable,
        transcodings: raw.transcodings,
    }
}

/// A track from a listing of uploads or likes; `None` when the record has no numeric id.
pub fn track_from_listing(raw: RawTrack) -> (r: Option<Track>)
    ensures
        r is None <==> raw.id is None,
        r matches Some(t) ==> listed_track_matches(t, raw),
{
    match raw.id {
        Some(x) => {
            let id = string_of(&decimal_chars(x));
            let artwork = match &raw.artwork_url {
                Some(a) => Some(a.clone()),
                None => None,
            };
            Some(fill_track(id, artwork, None, raw))
        },
        None => None,
    }
}

/// The URL of the first rendition whose protocol is `hls`.
pub fn find_hls_url(ts: &Vec<Transcoding>) -> (r: Option<String>)
    ensures
        opt_view(r) == first_hls_url(ts@),
{
    let mut i: usize = 0;
    assert(ts@.subrange(0, ts@.len() as int) =~= ts@);
    while i < ts.len()
        invariant
            i <= ts@.len(),
            first_hls_url(ts@) == first_hls_url(ts@.subrange(i as int, ts@.len() as int)),
        decreases ts@.len() - i,
    {
        let ghost rest = ts@.subrange(i as int, ts@.len() as int);
        assert(rest.subrange(1, rest.len() as int) =~= ts@.subrange(i + 1, ts@.len() as int));
        assert(rest[0] == ts@[i as int]);
        let t = &ts[i];
        match (&t.protocol, &t.url) {
            (Some(p), Some(u)) => {
                if crate::text::same_text(p.as_str(), "hls") {
                    return Some(u.clone());
                }
            },
            _ => {},
        }
        i = i + 1;
    }
    None
}

/// The full record of one track: the requested id, the original-resolution artwork, and the
/// first HLS rendition's URL.
pub fn track_from_details(track_id: &str, raw: RawTrack) -> (t: Track)
    ensures
        t.id@ == track_id@,
        track_fields_match(t, raw),
        opt_view(t.artwork_url) == match raw.artwork_url {
            Some(a) => Some(original_artwork(a@)),
            None => None,
        },
        opt_view(t.hls_url) == first_hls_url(raw.transcodings@),
{
    let artwork = match &raw.artwork_url {
        Some(a) => Some(get_original_artwork_url(a.as_str())),
        None => None,
    };
    let hls = find_hls_url(&raw.transcodings);
    fill_track(owned(track_id), artwork, hls, raw)
}

/// The ids of the listed records, each once, in order of first appearance.
pub open spec fn distinct_ids(raws: Seq<RawTrack>) -> Seq<u64>
    decreases raws.len(),
{
    if raws.len() == 0 {
        Seq::empty()
    } else {
        let a = distinct_ids(raws.drop_last());
        match raws.last().id {
            Some(x) => if a.contains(x) {
                a
            } else {
                a.push(x)
            },
            None => a,
        }
    }
}

/// `t` was read from `raws[j]`, the first record with id `x`.
#[verifier::opaque]
pub open spec fn listed_from(raws: Seq<RawTrack>, x: u64, t: Track, j: int) -> bool {
    &&& 0 <= j < raws.len()
    &&& raws[j].id == Some(x)
    &&& listed_track_matches(t, raws[j])
    &&& forall|k: int| 0 <= k < j ==> raws[k].id != Some(x)
}

/// `t` was read from the first record of `raws` with id `x`.
pub open spec fn listed_first(raws: Seq<RawTrack>, x: u64, t: Track) -> bool {
    exists|j: int| listed_from(raws, x, t, j)
}

/// The tracks of a listing of uploads: records without an id are dropped, and of records that
/// share an id only the first is kept.
pub fn tracks_from_listing(raws: Vec<RawTrack>) -> (r: Vec<Track>)
    ensures
        r@.len() == distinct_ids(raws@).len(),
        forall|i: int|
            0 <= i < r@.len() ==> listed_first(raws@, distinct_ids(raws@)[i], #[trigger] r@[i]),
{
    broadcast use vstd::std_specs::hash::group_hash_axioms;

    let ghost orig = raws@;
    let n = raws.len();
    let mut rest = raws;
    let mut seen: HashSet<u64> = HashSet::new();
    let ghost mut ids: Seq<u64> = Seq::empty();
    let mut out: Vec<Track> = Vec::new();
    let ghost mut src: Seq<int> = Seq::empty();
    let mut i: usize = 0;
    while i < n
        invariant
            n == orig.len(),
            i <= n,
            rest@ == orig.subrange(i as int, n as int),
            ids == distinct_ids(orig.subrange(0, i as int)),
            seen@ == ids.to_set(),
            out@.len() == ids.len(),
            src.len() == ids.len(),
            forall|k: int|
                0 <= k < i && (#[trigger] orig[k]).id is Some ==> ids.contains(orig[k].id->0),
            forall|a: int| 0 <= a < out@.len() ==> listed_from(orig, ids[a], #[trigger] out@[a], src[a]),
        decreases n - i,
    {
        let raw = rest.remove(0);
        assert(raw == orig[i as int]);
        assert(orig.subrange(0, i + 1).drop_last() =~= orig.subrange(0, i as int));
        assert(orig.subrange(0, i + 1).last() == orig[i as int]);
        assert(rest@ =~= orig.subrange(i + 1, n as int));
        match raw.id {
            Some(x) => {
                if !seen.contains(&x) {
                    let ghost s0 = ids;
                    let ghost o0 = out@;
                    let ghost r0 = src;
                    let t = track_from_listing(raw);
                    match t {
                        Some(t) => {
                            out.push(t);
                            seen.insert(x);
                            proof {
                                s0.lemma_push_to_set_commute(x);
                                ids = ids.push(x);
                            }
                            proof {
                                src = src.push(i as int);
                            }
                            assert forall|a: int| 0 <= a < out@.len() implies listed_from(
                                orig,
                                ids[a],
                                #[trigger] out@[a],
                                src[a],
                            ) by {
                                reveal(listed_from);
                                if a < o0.len() {
                                    assert(out@[a] == o0[a] && ids[a] == s0[a] && src[a] == r0[a]);
                                } else {
                                    assert forall|k: int| 0 <= k < i implies orig[k].id != Some(
                                        ids[a],
                                    ) by {
                                        if orig[k].id == Some(x) {
                                            assert(s0.contains(x));
                                        }
                                    }
                                }
                            }
                            assert forall|k: int|
                                0 <= k < i + 1 && (#[trigger] orig[k]).id is Some implies ids.contains(
                                orig[k].id->0,
                            ) by {
                                if k < i {
                                    let y = orig[k].id->0;
                                    let w = choose|w: int| 0 <= w < s0.len() && s0[w] == y;
                                    assert(ids[w] == y);
                                } else {
                                    assert(ids[s0.len() as int] == x);
                                }
                            }
                        },
                        None => {},
                    }
                }
            },
            None => {},
        }
        i = i + 1;
    }
    assert(orig.subrange(0, n as int) =~= orig);
    assert forall|i: int| 0 <= i < out@.len() implies listed_first(
        orig,
        distinct_ids(orig)[i],
        #[trigger] out@[i],
    ) by {
        assert(listed_from(orig, distinct_ids(orig)[i], out@[i], src[i]));
    }
    out
}

/// The track records of the entries that are likes and carry one, in order.
pub open spec fn liked_tracks(entries: Seq<RawLike>) -> Seq<RawTrack>
    decreases entries.len(),
{
    if entries.len() == 0 {
        Seq::empty()
    } else {
        let rest = liked_tracks(entries.drop_last());
        let e = entries.last();
        match (e.kind, e.track) {
            (Some(k), Some(t)) => if k@ == "like"@ {
                rest.push(t)
            } else {
                rest
            },
            _ => rest,
        }
    }
}

/// Keeps the track records of the entries whose kind is `like`.
pub fn liked_raw_tracks(entries: Vec<RawLike>) -> (r: Vec<RawTrack>)
    ensures
        r@ == liked_tracks(entries@),
{
    let ghost orig = entries@;
    let n = entries.len();
    let mut rest = entries;
    let mut out: Vec<RawTrack> = Vec::new();
    let mut i: usize = 0;
    while i < n
        invariant
            n == orig.len(),
            i <= n,
            rest@ == orig.subrange(i as int, n as int),
            out@ == liked_tracks(orig.subrange(0, i as int)),
        decreases n - i,
    {
        let e = rest.remove(0);
        assert(e == orig[i as int]);
        assert(orig.subrange(0, i + 1).drop_last() =~= orig.subrange(0, i as int));
        assert(orig.subrange(0, i + 1).last() == orig[i as int]);
        assert(rest@ =~= orig.subrange(i + 1, n as int));
        match (e.kind, e.track) {
            (Some(k), Some(t)) => {
                if crate::text::same_text(k.as_str(), "like") {
                    out.push(t);
                }
            },
            _ => {},
        }
        i = i + 1;
    }
    assert(orig.subrange(0, n as int) =~= orig);
    out
}

/// The tracks of a list of likes, in order.
pub fn extract_tracks_from_likes(likes: Vec<Like>) -> (r: Vec<Track>)
    ensures
        r@.len() == likes@.len(),
        forall|i: int| 0 <= i < r@.len() ==> #[trigger] r@[i] == likes@[i].track,
{
    let ghost orig = likes@;
    let n = likes.len();
    let mut rest = likes;
    let mut out: Vec<Track> = Vec::new();
    let mut i: usize = 0;
    while i < n
        invariant
            n == orig.len(),
            i <= n,
            rest@ == orig.subrange(i as int, n as int),
            out@.len() == i,
            forall|k: int| 0 <= k < i ==> #[trigger] out@[k] == orig[k].track,
        decreases n - i,
    {
        let l = rest.remove(0);
        assert(l == orig[i as int]);
        assert(rest@ =~= orig.subrange(i + 1, n as int));
        out.push(l.track);
        i = i + 1;
    }
    out
}

} // verus!
