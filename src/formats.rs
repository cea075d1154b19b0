use vstd::prelude::*;
use crate::text::{
    has_sub, replaced, take_chars, chars_of, string_of, str_contains, seq_replace, seq_take, owned,
    same_text,
};

verus! {

/// A rendition tag with its URL or its file name, as the views of two strings.
pub type TagUrl = (Seq<char>, Seq<char>);

/// The views of a list of (tag, text) string pairs.
pub open spec fn pairs_view(v: Seq<(String, String)>) -> Seq<TagUrl> {
    v.map_values(|p: (String, String)| (p.0@, p.1@))
}

/// Rank of a rendition tag; a lower rank is tried and attached first. The tag of a re-encoded
/// fallback ranks last.
pub open spec fn format_priority(f: Seq<char>) -> i32 {
    if has_sub(f, "transcoded"@) {
        50
    } else if has_sub(f, "hq"@) {
        if has_sub(f, "flac"@) {
            1
        } else if has_sub(f, "opus"@) {
            2
        } else if has_sub(f, "mp3"@) {
            3
        } else if has_sub(f, "aac"@) || has_sub(f, "mp4"@) {
            4
        } else {
            5
        }
    } else if has_sub(f, "progressive"@) && has_sub(f, "mp3"@) {
        10
    } else if has_sub(f, "opus"@) {
        11
    } else if has_sub(f, "mp3"@) {
        12
    } else if has_sub(f, "aac"@) || has_sub(f, "mp4"@) {
        13
    } else if has_sub(f, "hls"@) {
        15
    } else {
        20
    }
}

/// File extension for a rendition tag.
pub open spec fn extension_for(f: Seq<char>) -> Seq<char> {
    if has_sub(f, "audio/mpeg"@) || has_sub(f, "mp3"@) {
        "mp3"@
    } else if has_sub(f, "audio/ogg"@) {
        if has_sub(f, "codecs=\"opus\""@) {
            "opus"@
        } else {
            "ogg"@
        }
    } else if has_sub(f, "audio/mp4"@) || has_sub(f, "aac"@) {
        "m4a"@
    } else if has_sub(f, "wav"@) {
        "wav"@
    } else if has_sub(f, "flac"@) {
        "flac"@
    } else if has_sub(f, "hls"@) {
        "m4a"@
    } else {
        "audio"@
    }
}

/// What one character of a rendition tag becomes in a file name.
pub open spec fn tag_char_sub(c: char) -> Seq<char> {
    if c == '/' || c == '\\' || c == '|' || c == ';' || c == '=' || c == ',' || c == ' ' {
        seq!['_']
    } else if c == ':' {
        seq!['-']
    } else if c == '*' || c == '?' || c == '"' || c == '<' || c == '>' {
        Seq::empty()
    } else {
        seq![c]
    }
}

pub open spec fn tag_chars(s: Seq<char>) -> Seq<char>
    decreases s.len(),
{
    if s.len() == 0 {
        Seq::empty()
    } else {
        tag_chars(s.drop_last()) + tag_char_sub(s.last())
    }
}

pub open spec fn dot_to_underscore(c: char) -> char {
    if c == '.' {
        '_'
    } else {
        c
    }
}

/// A rendition tag made safe for a file name, at most 50 characters.
pub open spec fn sanitized_tag(s: Seq<char>) -> Seq<char> {
    let a = replaced(replaced(tag_chars(s), "codecs="@, ""@), "mp4a.40.2"@, "aac"@);
    take_chars(a.map_values(|c: char| dot_to_underscore(c)), 50)
}

/// Characters that file systems refuse, each replaced by an underscore.
pub open spec fn filename_char(c: char) -> char {
    if c == '/' || c == '\\' || c == ':' || c == '*' || c == '?' || c == '"' || c == '<' || c == '>'
        || c == '|' {
        '_'
    } else {
        c
    }
}

/// A title made safe for a file name, at most 100 characters.
pub open spec fn sanitized_name(s: Seq<char>) -> Seq<char> {
    take_chars(s.map_values(|c: char| filename_char(c)), 100)
}

/// `x` placed after the last element whose rank does not exceed its own.
pub open spec fn insert_by_rank(s: Seq<TagUrl>, x: TagUrl) -> Seq<TagUrl>
    decreases s.len(),
{
    if s.len() == 0 {
        seq![x]
    } else if format_priority(s.last().0) <= format_priority(x.0) {
        s.push(x)
    } else {
        insert_by_rank(s.drop_last(), x).push(s.last())
    }
}

/// The stable sort of `s` by rank: equal ranks keep their order in `s`.
pub open spec fn sorted_by_rank(s: Seq<TagUrl>) -> Seq<TagUrl>
    decreases s.len(),
{
    if s.len() == 0 {
        Seq::empty()
    } else {
        insert_by_rank(sorted_by_rank(s.drop_last()), s.last())
    }
}

/// Rank of a rendition tag (lower is better).
pub fn get_format_priority(format_info: &str) -> (r: i32)
    ensures
        r == format_priority(format_info@),
{
    if str_contains(format_info, "transcoded") {
        50
    } else if str_contains(format_info, "hq") {
        if str_contains(format_info, "flac") {
            1
        } else if str_contains(format_info, "opus") {
            2
        } else if str_contains(format_info, "mp3") {
            3
        } else if str_contains(format_info, "aac") || str_contains(format_info, "mp4") {
            4
        } else {
            5
        }
    } else if str_contains(format_info, "progressive") && str_contains(format_info, "mp3") {
        10
    } else if str_contains(format_info, "opus") {
        11
    } else if str_contains(format_info, "mp3") {
        12
    } else if str_contains(format_info, "aac") || str_contains(format_info, "mp4") {
        13
    } else if str_contains(format_info, "hls") {
        15
    } else {
        20
    }
}

/// File extension for a rendition tag.
pub fn determine_extension_from_format(format_info: &str) -> (r: String)
    ensures
        r@ == extension_for(format_info@),
{
    if str_contains(format_info, "audio/mpeg") || str_contains(format_info, "mp3") {
        owned("mp3")
    } else if str_contains(format_info, "audio/ogg") {
        if str_contains(format_info, "codecs=\"opus\"") {
            owned("opus")
        } else {
            owned("ogg")
        }
    } else if str_contains(format_info, "audio/mp4") || str_contains(format_info, "aac") {
        owned("m4a")
    } else if str_contains(format_info, "wav") {
        owned("wav")
    } else if str_contains(format_info, "flac") {
        owned("flac")
    } else if str_contains(format_info, "hls") {
        owned("m4a")
    } else {
        owned("audio")
    }
}

fn push_tag_char(out: &mut Vec<char>, c: char)
    ensures
        final(out)@ == old(out)@ + tag_char_sub(c),
{
    if c == '/' || c == '\\' || c == '|' || c == ';' || c == '=' || c == ',' || c == ' ' {
        out.push('_');
    } else if c == ':' {
        out.push('-');
    } else if c == '*' || c == '?' || c == '"' || c == '<' || c == '>' {
    } else {
        out.push(c);
    }
    assert(final(out)@ =~= old(out)@ + tag_char_sub(c));
}

/// A rendition tag made safe for use inside a file name.
pub fn sanitize_format_string(format_info: &str) -> (r: String)
    ensures
        r@ == sanitized_tag(format_info@),
{
    let s = chars_of(format_info);
    let mut a: Vec<char> = Vec::new();
    let mut i: usize = 0;
    while i < s.len()
        invariant
            s@ == format_info@,
            i <= s@.len(),
            a@ == tag_chars(s@.subrange(0, i as int)),
        decreases s@.len() - i,
    {
        assert(s@.subrange(0, i + 1).drop_last() =~= s@.subrange(0, i as int));
        push_tag_char(&mut a, s[i]);
        i = i + 1;
    }
    assert(s@.subrange(0, s@.len() as int) =~= s@);
    let b = seq_replace(&a, &chars_of("codecs="), &chars_of(""));
    let c = seq_replace(&b, &chars_of("mp4a.40.2"), &chars_of("aac"));
    let mut d: Vec<char> = Vec::new();
    let mut k: usize = 0;
    while k < c.len()
        invariant
            k <= c@.len(),
            d@ == c@.subrange(0, k as int).map_values(|ch: char| dot_to_underscore(ch)),
        decreases c@.len() - k,
    {
        d.push(if c[k] == '.' { '_' } else { c[k] });
        k = k + 1;
        assert(d@ =~= c@.subrange(0, k as int).map_values(|ch: char| dot_to_underscore(ch)));
    }
    assert(c@.subrange(0, c@.len() as int) =~= c@);
    string_of(&seq_take(&d, 50))
}

/// A track title made safe for use as a file name.
pub fn sanitize_filename(filename: &str) -> (r: String)
    ensures
        r@ == sanitized_name(filename@),
{
    let s = chars_of(filename);
    let mut d: Vec<char> = Vec::new();
    let mut k: usize = 0;
    while k < s.len()
        invariant
            k <= s@.len(),
            d@ == s@.subrange(0, k as int).map_values(|ch: char| filename_char(ch)),
        decreases s@.len() - k,
    {
        let c = s[k];
        let m = if c == '/' || c == '\\' || c == ':' || c == '*' || c == '?' || c == '"' || c == '<'
            || c == '>' || c == '|' {
            '_'
        } else {
            c
        };
        d.push(m);
        k = k + 1;
        assert(d@ =~= s@.subrange(0, k as int).map_values(|ch: char| filename_char(ch)));
    }
    assert(s@.subrange(0, s@.len() as int) =~= s@);
    string_of(&seq_take(&d, 100))
}

proof fn lemma_insert_split(s: Seq<TagUrl>, x: TagUrl, j: int)
    requires
        0 <= j <= s.len(),
        forall|k: int| j <= k < s.len() ==> format_priority(#[trigger] s[k].0) > format_priority(x.0),
        j == 0 || format_priority(s[j - 1].0) <= format_priority(x.0),
    ensures
        insert_by_rank(s, x) == s.subrange(0, j).push(x) + s.subrange(j, s.len() as int),
    decreases s.len(),
{
    if s.len() == j {
        if j == 0 {
            assert(s.subrange(0, j).push(x) + s.subrange(j, s.len() as int) =~= seq![x]);
        } else {
            assert(s.subrange(0, j) =~= s);
            assert(s.subrange(0, j).push(x) + s.subrange(j, s.len() as int) =~= s.push(x));
        }
    } else {
        let t = s.drop_last();
        assert forall|k: int| j <= k < t.len() implies format_priority(#[trigger] t[k].0)
            > format_priority(x.0) by {
            assert(t[k] == s[k]);
        }
        lemma_insert_split(t, x, j);
        assert(t.subrange(0, j) =~= s.subrange(0, j));
        assert(s.subrange(0, j).push(x) + s.subrange(j, s.len() as int) =~= (t.subrange(0, j).push(x)
            + t.subrange(j, t.len() as int)).push(s.last()));
    }
}

/// Inserts `x` into a list ordered by rank, after every element of equal or lower rank.
fn insert_ranked(v: &mut Vec<(String, String)>, x: (String, String))
    ensures
        pairs_view(final(v)@) == insert_by_rank(pairs_view(old(v)@), (x.0@, x.1@)),
{
    let px = get_format_priority(&x.0);
    let mut j: usize = v.len();
    while j > 0 && get_format_priority(&v[j - 1].0) > px
        invariant
            j <= v@.len(),
            v@ == old(v)@,
            px == format_priority(x.0@),
            forall|k: int| j <= k < v@.len() ==> format_priority(#[trigger] v@[k].0@) > px,
        decreases j,
    {
        j = j - 1;
    }
    let ghost s = pairs_view(old(v)@);
    proof {
        assert forall|k: int| j <= k < s.len() implies format_priority(#[trigger] s[k].0)
            > format_priority(x.0@) by {
            assert(s[k].0 == v@[k].0@);
        }
        lemma_insert_split(s, (x.0@, x.1@), j as int);
    }
    v.insert(j, x);
    assert(pairs_view(v@) =~= s.subrange(0, j as int).push((x.0@, x.1@)) + s.subrange(
        j as int,
        s.len() as int,
    ));
}

/// The pairs ordered by the rank of their tags; equal ranks keep their order.
pub fn sort_by_priority(items: &Vec<(String, String)>) -> (r: Vec<(String, String)>)
    ensures
        pairs_view(r@) == sorted_by_rank(pairs_view(items@)),
{
    let mut out: Vec<(String, String)> = Vec::new();
    let mut i: usize = 0;
    while i < items.len()
        invariant
            i <= items@.len(),
            pairs_view(out@) == sorted_by_rank(pairs_view(items@).subrange(0, i as int)),
        decreases items@.len() - i,
    {
        let x = (items[i].0.clone(), items[i].1.clone());
        insert_ranked(&mut out, x);
        assert(pairs_view(items@).subrange(0, i + 1).drop_last() =~= pairs_view(items@).subrange(
            0,
            i as int,
        ));
        i = i + 1;
    }
    assert(pairs_view(items@).subrange(0, i as int) =~= pairs_view(items@));
    out
}

/// One entry of a track's `media.transcodings` list: the fields that the pipeline reads.
pub struct Transcoding {
    pub protocol: Option<String>,
    pub mime_type: Option<String>,
    pub quality: Option<String>,
    pub url: Option<String>,
}

/// The view of an optional string, or `d` when it is absent.
pub open spec fn or_default(o: Option<String>, d: Seq<char>) -> Seq<char> {
    match o {
        Some(s) => s@,
        None => d,
    }
}

/// The tag `protocol/mime-type/quality` of a rendition.
pub open spec fn transcoding_tag(t: Transcoding) -> Seq<char> {
    or_default(t.protocol, "unknown"@) + "/"@ + or_default(t.mime_type, "unknown"@) + "/"@
        + or_default(t.quality, "sq"@)
}

/// The `hls` + `audio/mpegurl` combination, which is never fetched.
pub open spec fn is_blacklisted(t: Transcoding) -> bool {
    has_sub(transcoding_tag(t), "audio/mpegurl"@) && or_default(t.protocol, "unknown"@) == "hls"@
}

/// The renditions worth fetching, in source order: not blacklisted, and with a URL.
pub open spec fn listed_renditions(ts: Seq<Transcoding>) -> Seq<TagUrl>
    decreases ts.len(),
{
    if ts.len() == 0 {
        Seq::empty()
    } else {
        let rest = listed_renditions(ts.drop_last());
        let t = ts.last();
        match t.url {
            Some(u) => if is_blacklisted(t) {
                rest
            } else {
                rest.push((transcoding_tag(t), u@))
            },
            None => rest,
        }
    }
}

fn text_or(o: &Option<String>, d: &str) -> (r: String)
    ensures
        r@ == or_default(*o, d@),
{
    match o {
        Some(s) => s.clone(),
        None => owned(d),
    }
}

/// The tag of one rendition.
pub fn rendition_tag(t: &Transcoding) -> (r: String)
    ensures
        r@ == transcoding_tag(*t),
{
    let p = text_or(&t.protocol, "unknown");
    let m = text_or(&t.mime_type, "unknown");
    let q = text_or(&t.quality, "sq");
    p.concat("/").concat(m.as_str()).concat("/").concat(q.as_str())
}

/// The renditions of a track worth fetching, best rank first; equal ranks keep source order.
pub fn extract_available_formats(transcodings: &Vec<Transcoding>) -> (r: Vec<(String, String)>)
    ensures
        pairs_view(r@) == sorted_by_rank(listed_renditions(transcodings@)),
{
    let mut found: Vec<(String, String)> = Vec::new();
    let mut i: usize = 0;
    while i < transcodings.len()
        invariant
            i <= transcodings@.len(),
            pairs_view(found@) == listed_renditions(transcodings@.subrange(0, i as int)),
        decreases transcodings@.len() - i,
    {
        let t = &transcodings[i];
        let ghost sub = transcodings@.subrange(0, i + 1);
        assert(sub.drop_last() =~= transcodings@.subrange(0, i as int));
        assert(sub.last() == *t);
        match &t.url {
            Some(u) => {
                let tag = rendition_tag(t);
                let p = text_or(&t.protocol, "unknown");
                let blocked = str_contains(tag.as_str(), "audio/mpegurl") && same_text(
                    p.as_str(),
                    "hls",
                );
                if !blocked {
                    let ghost before = found@;
                    found.push((tag, u.clone()));
                    assert(pairs_view(found@) =~= pairs_view(before).push(
                        (transcoding_tag(*t), u@),
                    ));
                }
            },
            None => {},
        }
        i = i + 1;
    }
    assert(transcodings@.subrange(0, i as int) =~= transcodings@);
    sort_by_priority(&found)
}

/// Ranks that never decrease along the list.
pub open spec fn rank_ordered(s: Seq<TagUrl>) -> bool {
    forall|i: int, j: int|
        0 <= i < j < s.len() ==> format_priority(#[trigger] s[i].0) <= format_priority(
            #[trigger] s[j].0,
        )
}

proof fn lemma_insert_keeps_order(s: Seq<TagUrl>, x: TagUrl)
    requires
        rank_ordered(s),
    ensures
        rank_ordered(insert_by_rank(s, x)),
        insert_by_rank(s, x).len() == s.len() + 1,
        insert_by_rank(s, x).to_multiset() == s.to_multiset().insert(x),
    decreases s.len(),
{
    broadcast use vstd::seq_lib::group_to_multiset_ensures;

    if s.len() == 0 {
        assert(seq![x].to_multiset() =~= Seq::<TagUrl>::empty().to_multiset().insert(x)) by {
            broadcast use vstd::seq_lib::group_to_multiset_ensures;
            assert(seq![x] =~= Seq::<TagUrl>::empty().push(x));
        }
    } else if format_priority(s.last().0) <= format_priority(x.0) {
        broadcast use vstd::seq_lib::group_to_multiset_ensures;
    } else {
        let t = s.drop_last();
        assert(rank_ordered(t)) by {
            assert forall|i: int, j: int| 0 <= i < j < t.len() implies format_priority(
                #[trigger] t[i].0,
            ) <= format_priority(#[trigger] t[j].0) by {
                assert(t[i] == s[i] && t[j] == s[j]);
            }
        }
        lemma_insert_keeps_order(t, x);
        let u = insert_by_rank(t, x);
        let r = u.push(s.last());
        assert forall|i: int, j: int| 0 <= i < j < r.len() implies format_priority(
            #[trigger] r[i].0,
        ) <= format_priority(#[trigger] r[j].0) by {
            if j == r.len() - 1 {
                assert(r[j] == s.last());
                if i < u.len() {
                    assert(u.to_multiset().count(u[i]) > 0) by {
                        broadcast use vstd::seq_lib::group_to_multiset_ensures;
                    }
                    assert(t.to_multiset().insert(x).count(u[i]) > 0);
                    if u[i] != x {
                        assert(t.to_multiset().count(u[i]) > 0);
                        assert(t.contains(u[i])) by {
                            broadcast use vstd::seq_lib::group_to_multiset_ensures;
                        }
                        let k = choose|k: int| 0 <= k < t.len() && t[k] == u[i];
                        assert(s[k] == t[k]);
                        assert(format_priority(s[k].0) <= format_priority(s[s.len() - 1].0));
                    }
                }
            } else {
                assert(r[i] == u[i] && r[j] == u[j]);
            }
        }
        assert(s.to_multiset() =~= t.to_multiset().insert(s.last())) by {
            broadcast use vstd::seq_lib::group_to_multiset_ensures;
            assert(s =~= t.push(s.last()));
        }
        assert(r.to_multiset() =~= u.to_multiset().insert(s.last())) by {
            broadcast use vstd::seq_lib::group_to_multiset_ensures;
        }
        assert(r.to_multiset() =~= s.to_multiset().insert(x));
    }
}

/// Ordering renditions by rank is a function of the list alone (two runs on one list agree),
/// keeps every rendition, and yields ranks that never decrease.
pub proof fn lemma_rank_sort_deterministic(a: Seq<TagUrl>, b: Seq<TagUrl>)
    requires
        a == b,
    ensures
        sorted_by_rank(a) == sorted_by_rank(b),
        rank_ordered(sorted_by_rank(a)),
        sorted_by_rank(a).to_multiset() == a.to_multiset(),
    decreases a.len(),
{
    if a.len() == 0 {
        assert(sorted_by_rank(a) =~= a);
    } else {
        lemma_rank_sort_deterministic(a.drop_last(), b.drop_last());
        lemma_insert_keeps_order(sorted_by_rank(a.drop_last()), a.last());
        assert(a.to_multiset() =~= a.drop_last().to_multiset().insert(a.last())) by {
            broadcast use vstd::seq_lib::group_to_multiset_ensures;
            assert(a =~= a.drop_last().push(a.last()));
        }
    }
}

} // verus!
