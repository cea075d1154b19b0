use vstd::prelude::*;
use crate::text::{chars_of, string_of, seq_take, owned, sub_vec, seq_equal};
use crate::numtext::{decimal, decimal_chars};
use crate::upstream::{Track, original_artwork, get_original_artwork_url};

verus! {

/// Parser state over a tag list: finished tags, the tag being read, inside quotes, escaping.
pub type TagScan = (Seq<Seq<char>>, Seq<char>, bool, bool);

/// Characters that separate tags outside quotes.
pub open spec fn is_tag_space(c: char) -> bool {
    c == ' ' || c == '\t' || c == '\n' || c == '\r'
}

/// One character of a tag list read in state `st`.
pub open spec fn tag_step(st: TagScan, c: char) -> TagScan {
    let (tags, cur, quoted, escaped) = st;
    if escaped {
        if c == '"' {
            (tags, cur.push('"'), quoted, false)
        } else {
            (tags, cur.push('\\').push(c), quoted, false)
        }
    } else if c == '\\' {
        (tags, cur, quoted, true)
    } else if c == '"' {
        (tags, cur, !quoted, false)
    } else if is_tag_space(c) && !quoted {
        if cur.len() > 0 {
            (tags.push(cur), Seq::empty(), quoted, false)
        } else {
            (tags, cur, quoted, false)
        }
    } else {
        (tags, cur.push(c), quoted, false)
    }
}

pub open spec fn tag_scan(s: Seq<char>) -> TagScan
    decreases s.len(),
{
    if s.len() == 0 {
        (Seq::empty(), Seq::empty(), false, false)
    } else {
        tag_step(tag_scan(s.drop_last()), s.last())
    }
}

/// The tags of a tag list: separated by spaces, a quoted run is one tag, a backslash escapes a
/// quote (and is kept before any other character), empty tags are dropped.
pub open spec fn parsed_tags(s: Seq<char>) -> Seq<Seq<char>> {
    let st = tag_scan(s);
    if st.1.len() > 0 {
        st.0.push(st.1)
    } else {
        st.0
    }
}

pub open spec fn strings_view(v: Seq<String>) -> Seq<Seq<char>> {
    v.map_values(|t: String| t@)
}

/// Splits a tag list into tags.
pub fn parse_tags(tag_list: &str) -> (r: Vec<String>)
    ensures
        strings_view(r@) == parsed_tags(tag_list@),
        forall|i: int| 0 <= i < r@.len() ==> (#[trigger] r@[i])@.len() > 0,
{
    let s = chars_of(tag_list);
    let mut tags: Vec<String> = Vec::new();
    let mut cur: Vec<char> = Vec::new();
    let mut quoted = false;
    let mut escaped = false;
    let mut i: usize = 0;
    while i < s.len()
        invariant
            s@ == tag_list@,
            i <= s@.len(),
            (strings_view(tags@), cur@, quoted, escaped) == tag_scan(s@.subrange(0, i as int)),
            forall|k: int| 0 <= k < tags@.len() ==> (#[trigger] tags@[k])@.len() > 0,
        decreases s@.len() - i,
    {
        let c = s[i];
        assert(s@.subrange(0, i + 1).drop_last() =~= s@.subrange(0, i as int));
        let ghost t0 = tags@;
        if escaped {
            if c == '"' {
                cur.push('"');
            } else {
                cur.push('\\');
                cur.push(c);
            }
            escaped = false;
        } else if c == '\\' {
            escaped = true;
        } else if c == '"' {
            quoted = !quoted;
        } else if (c == ' ' || c == '\t' || c == '\n' || c == '\r') && !quoted {
            if cur.len() > 0 {
                let ghost cv = cur@;
                tags.push(string_of(&cur));
                cur = Vec::new();
                assert(strings_view(tags@) =~= strings_view(t0).push(cv));
            }
        } else {
            cur.push(c);
        }
        i = i + 1;
    }
    assert(s@.subrange(0, i as int) =~= s@);
    if cur.len() > 0 {
        let ghost t0 = tags@;
        let ghost cv = cur@;
        tags.push(string_of(&cur));
        assert(strings_view(tags@) =~= strings_view(t0).push(cv));
    }
    tags
}

/// The texts joined with `sep` between neighbours.
pub open spec fn joined(v: Seq<Seq<char>>, sep: Seq<char>) -> Seq<char>
    decreases v.len(),
{
    if v.len() == 0 {
        Seq::empty()
    } else if v.len() == 1 {
        v[0]
    } else {
        joined(v.drop_last(), sep) + sep + v.last()
    }
}

/// The strings joined with `sep` between neighbours.
pub fn join_strings(v: &Vec<String>, sep: &str) -> (r: String)
    ensures
        r@ == joined(strings_view(v@), sep@),
{
    let mut out: Vec<char> = Vec::new();
    let sv = chars_of(sep);
    let mut i: usize = 0;
    while i < v.len()
        invariant
            sv@ == sep@,
            i <= v@.len(),
            out@ == joined(strings_view(v@.subrange(0, i as int)), sep@),
        decreases v@.len() - i,
    {
        let ghost pre = strings_view(v@.subrange(0, i as int));
        let ghost now = strings_view(v@.subrange(0, i + 1));
        assert(now.drop_last() =~= pre);
        assert(now.last() == v@[i as int]@);
        if i > 0 {
            let mut k: usize = 0;
            let ghost o0 = out@;
            while k < sv.len()
                invariant
                    k <= sv@.len(),
                    out@ == o0 + sv@.subrange(0, k as int),
                decreases sv@.len() - k,
            {
                out.push(sv[k]);
                k = k + 1;
                assert(out@ =~= o0 + sv@.subrange(0, k as int));
            }
            assert(sv@.subrange(0, sv@.len() as int) =~= sv@);
        }
        let item = chars_of(v[i].as_str());
        let mut k: usize = 0;
        let ghost o1 = out@;
        while k < item.len()
            invariant
                k <= item@.len(),
                out@ == o1 + item@.subrange(0, k as int),
            decreases item@.len() - k,
        {
            out.push(item[k]);
            k = k + 1;
            assert(out@ =~= o1 + item@.subrange(0, k as int));
        }
        assert(item@.subrange(0, item@.len() as int) =~= item@);
        if i == 0 {
            assert(out@ =~= now[0]);
        }
        i = i + 1;
    }
    assert(v@.subrange(0, v@.len() as int) =~= v@);
    string_of(&out)
}

/// The description as posted: cut to 2000 characters, with `...` appended when cut.
pub open spec fn capped_description(d: Seq<char>) -> Seq<char> {
    if d.len() > 2000 {
        d.subrange(0, 2000) + "..."@
    } else {
        d
    }
}

/// Trims a description to the destination's limit.
pub fn cap_description(d: &str) -> (r: String)
    ensures
        r@ == capped_description(d@),
        r@.len() <= 2003,
{
    let v = chars_of(d);
    if v.len() > 2000 {
        let cut = string_of(&seq_take(&v, 2000));
        proof {
            reveal_strlit("...");
        }
        cut.concat("...")
    } else {
        owned(d)
    }
}

/// `m:ss` for a duration in milliseconds.
pub open spec fn duration_text(ms: u64) -> Seq<char> {
    let secs = ms / 1000;
    let m = secs / 60;
    let s = secs % 60;
    decimal(m as nat) + ":"@ + (if s < 10 {
        "0"@
    } else {
        ""@
    }) + decimal(s as nat)
}

/// Formats a duration in milliseconds as minutes and two-digit seconds.
pub fn format_duration(ms: u64) -> (r: String)
    ensures
        r@ == duration_text(ms),
{
    let secs = ms / 1000;
    let m = string_of(&decimal_chars(secs / 60));
    let s = secs % 60;
    let pad = if s < 10 {
        owned("0")
    } else {
        owned("")
    };
    m.concat(":").concat(pad.as_str()).concat(string_of(&decimal_chars(s)).as_str())
}

/// One field of an announcement embed.
pub struct EmbedField {
    pub name: String,
    pub value: String,
    pub inline: bool,
}

/// The announcement of one track, as the destination's embed describes it.
pub struct Embed {
    pub title: String,
    pub description: String,
    pub url: String,
    pub timestamp: String,
    pub author_name: String,
    pub author_url: String,
    pub author_icon_url: String,
    pub thumbnail_url: String,
    pub fields: Vec<EmbedField>,
}

/// A field as (name, value, inline).
pub type FieldView = (Seq<char>, Seq<char>, bool);

pub open spec fn fields_view(v: Seq<EmbedField>) -> Seq<FieldView> {
    v.map_values(|f: EmbedField| (f.name@, f.value@, f.inline))
}

/// The inline fields: duration when positive, genre when not empty, tags when any parse.
pub open spec fn embed_fields(t: Track) -> Seq<FieldView> {
    let d: Seq<FieldView> = if t.duration > 0 {
        seq![("Duration"@, duration_text(t.duration), true)]
    } else {
        Seq::empty()
    };
    let g: Seq<FieldView> = match t.genre {
        Some(g) => if g@.len() > 0 {
            seq![("Genre"@, g@, true)]
        } else {
            Seq::empty()
        },
        None => Seq::empty(),
    };
    let tg: Seq<FieldView> = match t.tag_list {
        Some(l) => if parsed_tags(l@).len() > 0 {
            seq![("Tags"@, joined(parsed_tags(l@), ", "@), false)]
        } else {
            Seq::empty()
        },
        None => Seq::empty(),
    };
    d + g + tg
}

/// The embed announcing `t`.
pub open spec fn embed_matches(e: Embed, t: Track) -> bool {
    &&& e.title@ == t.title@
    &&& e.description@ == capped_description(
        match t.description {
            Some(d) => d@,
            None => Seq::empty(),
        },
    )
    &&& e.url@ == t.permalink_url@
    &&& e.timestamp@ == t.created_at@
    &&& e.author_name@ == t.user.username@
    &&& e.author_url@ == t.user.permalink_url@
    &&& e.author_icon_url@ == match t.user.avatar_url {
        Some(a) => a@,
        None => Seq::empty(),
    }
    &&& e.thumbnail_url@ == match t.artwork_url {
        Some(a) => original_artwork(a@),
        None => Seq::empty(),
    }
    &&& fields_view(e.fields@) == embed_fields(t)
}

fn field(name: &str, value: String, inline: bool) -> (f: EmbedField)
    ensures
        f.name@ == name@,
        f.value@ == value@,
        f.inline == inline,
{
    EmbedField { name: owned(name), value, inline }
}

fn empty_text() -> (r: String)
    ensures
        r@ == Seq::<char>::empty(),
{
    String::new()
}

/// Builds the announcement embed for a track.
pub fn build_track_embed(track: &Track) -> (e: Embed)
    ensures
        embed_matches(e, *track),
        e.description@.len() <= 2003,
{
    let description = match &track.description {
        Some(d) => cap_description(d.as_str()),
        None => cap_description(empty_text().as_str()),
    };
    let mut fields: Vec<EmbedField> = Vec::new();
    if track.duration > 0 {
        fields.push(field("Duration", format_duration(track.duration), true));
    }
    let ghost f1 = fields_view(fields@);
    match &track.genre {
        Some(g) => {
            if g.as_str().unicode_len() > 0 {
                fields.push(field("Genre", g.clone(), true));
            }
        },
        None => {},
    }
    let ghost f2 = fields_view(fields@);
    match &track.tag_list {
        Some(l) => {
            let tags = parse_tags(l.as_str());
            if tags.len() > 0 {
                fields.push(field("Tags", join_strings(&tags, ", "), false));
            }
        },
        None => {},
    }
    let ghost d: Seq<FieldView> = if track.duration > 0 {
        seq![("Duration"@, duration_text(track.duration), true)]
    } else {
        Seq::empty()
    };
    assert(f1 =~= d);
    assert(fields_view(fields@) =~= embed_fields(*track));
    let author_icon_url = match &track.user.avatar_url {
        Some(a) => a.clone(),
        None => empty_text(),
    };
    let thumbnail_url = match &track.artwork_url {
        Some(a) => get_original_artwork_url(a.as_str()),
        None => empty_text(),
    };
    Embed {
        title: track.title.clone(),
        description,
        url: track.permalink_url.clone(),
        timestamp: track.created_at.clone(),
        author_name: track.user.username.clone(),
        author_url: track.user.permalink_url.clone(),
        author_icon_url,
        thumbnail_url,
        fields,
    }
}

/// Most files one message may carry.
pub const MAX_ATTACHMENTS: usize = 10;

/// Most bytes of files one message may carry.
pub const MAX_UPLOAD_BYTES: u64 = 8 * 1024 * 1024;

/// A file offered for an announcement: where it is, the name it is sent under, its size.
pub struct Attachment {
    pub path: String,
    pub name: String,
    pub size: u64,
}

pub type AttachView = (Seq<char>, Seq<char>, nat);

pub open spec fn attach_view(v: Seq<Attachment>) -> Seq<AttachView> {
    v.map_values(|a: Attachment| (a.path@, a.name@, a.size as nat))
}

/// `x` placed after the last element no larger than it.
pub open spec fn insert_by_size(s: Seq<AttachView>, x: AttachView) -> Seq<AttachView>
    decreases s.len(),
{
    if s.len() == 0 {
        seq![x]
    } else if s.last().2 <= x.2 {
        s.push(x)
    } else {
        insert_by_size(s.drop_last(), x).push(s.last())
    }
}

/// The stable sort by size, smallest first.
pub open spec fn sorted_by_size(s: Seq<AttachView>) -> Seq<AttachView>
    decreases s.len(),
{
    if s.len() == 0 {
        Seq::empty()
    } else {
        insert_by_size(sorted_by_size(s.drop_last()), s.last())
    }
}

/// Total size of a list of files.
pub open spec fn total_size(s: Seq<AttachView>) -> nat
    decreases s.len(),
{
    if s.len() == 0 {
        0
    } else {
        total_size(s.drop_last()) + s.last().2
    }
}

/// Greedy admission in list order: a file is taken while fewer than ten are taken and it fits
/// in what is left of the byte budget; a file that does not fit is skipped.
pub open spec fn admitted(s: Seq<AttachView>) -> Seq<AttachView>
    decreases s.len(),
{
    if s.len() == 0 {
        Seq::empty()
    } else {
        let a = admitted(s.drop_last());
        let x = s.last();
        if a.len() >= MAX_ATTACHMENTS || total_size(a) + x.2 > MAX_UPLOAD_BYTES {
            a
        } else {
            a.push(x)
        }
    }
}

/// The files that go out with an announcement.
pub open spec fn selected_attachments(s: Seq<AttachView>) -> Seq<AttachView> {
    admitted(sorted_by_size(s))
}

proof fn lemma_size_insert_split(s: Seq<AttachView>, x: AttachView, j: int)
    requires
        0 <= j <= s.len(),
        forall|k: int| j <= k < s.len() ==> (#[trigger] s[k]).2 > x.2,
        j == 0 || s[j - 1].2 <= x.2,
    ensures
        insert_by_size(s, x) == s.subrange(0, j).push(x) + s.subrange(j, s.len() as int),
    decreases s.len(),
{
    if s.len() == j {
        if j == 0 {
            assert(s.subrange(0, j).push(x) + s.subrange(j, s.len() as int) =~= seq![x]);
        } else {
            assert(s.subrange(0, j) =~= s);
            assert(s.subrange(0, j).push(x) + s.subrange(j, s.len() as int) =~= s.push(x));
        }
    } else {
        let t = s.drop_last();
        assert forall|k: int| j <= k < t.len() implies (#[trigger] t[k]).2 > x.2 by {
            assert(t[k] == s[k]);
        }
        lemma_size_insert_split(t, x, j);
        assert(t.subrange(0, j) =~= s.subrange(0, j));
        assert(s.subrange(0, j).push(x) + s.subrange(j, s.len() as int) =~= (t.subrange(0, j).push(x)
            + t.subrange(j, t.len() as int)).push(s.last()));
    }
}

fn copy_attachment(a: &Attachment) -> (r: Attachment)
    ensures
        r.path@ == a.path@,
        r.name@ == a.name@,
        r.size == a.size,
{
    Attachment { path: a.path.clone(), name: a.name.clone(), size: a.size }
}

fn insert_sized(v: &mut Vec<Attachment>, x: Attachment)
    ensures
        attach_view(final(v)@) == insert_by_size(attach_view(old(v)@), (x.path@, x.name@, x.size as nat)),
{
    let mut j: usize = v.len();
    while j > 0 && v[j - 1].size > x.size
        invariant
            j <= v@.len(),
            v@ == old(v)@,
            forall|k: int| j <= k < v@.len() ==> (#[trigger] v@[k]).size > x.size,
        decreases j,
    {
        j = j - 1;
    }
    let ghost s = attach_view(old(v)@);
    let ghost xv = (x.path@, x.name@, x.size as nat);
    proof {
        assert forall|k: int| j <= k < s.len() implies (#[trigger] s[k]).2 > xv.2 by {
            assert(s[k].2 == v@[k].size);
        }
        lemma_size_insert_split(s, xv, j as int);
    }
    v.insert(j, x);
    assert(attach_view(v@) =~= s.subrange(0, j as int).push(xv) + s.subrange(j as int, s.len() as int));
}

proof fn lemma_admitted_bounds(s: Seq<AttachView>)
    ensures
        admitted(s).len() <= MAX_ATTACHMENTS,
        total_size(admitted(s)) <= MAX_UPLOAD_BYTES,
    decreases s.len(),
{
    if s.len() > 0 {
        lemma_admitted_bounds(s.drop_last());
        let a = admitted(s.drop_last());
        assert(a.push(s.last()).drop_last() =~= a);
    }
}

/// Chooses the files for one announcement: smallest first, up to ten files and 8 MiB in all;
/// a file over what is left of the budget is skipped and smaller ones after it still go.
pub fn select_attachments(files: &Vec<Attachment>) -> (r: Vec<Attachment>)
    ensures
        attach_view(r@) == selected_attachments(attach_view(files@)),
        r@.len() <= MAX_ATTACHMENTS,
        total_size(attach_view(r@)) <= MAX_UPLOAD_BYTES,
{
    let mut sorted: Vec<Attachment> = Vec::new();
    let mut i: usize = 0;
    while i < files.len()
        invariant
            i <= files@.len(),
            attach_view(sorted@) == sorted_by_size(attach_view(files@).subrange(0, i as int)),
        decreases files@.len() - i,
    {
        insert_sized(&mut sorted, copy_attachment(&files[i]));
        assert(attach_view(files@).subrange(0, i + 1).drop_last() =~= attach_view(files@).subrange(
            0,
            i as int,
        ));
        i = i + 1;
    }
    assert(attach_view(files@).subrange(0, i as int) =~= attach_view(files@));
    let ghost sv = attach_view(sorted@);
    let mut out: Vec<Attachment> = Vec::new();
    let mut total: u64 = 0;
    let mut k: usize = 0;
    while k < sorted.len()
        invariant
            sv == attach_view(sorted@),
            k <= sorted@.len(),
            attach_view(out@) == admitted(sv.subrange(0, k as int)),
            total as nat == total_size(attach_view(out@)),
            total <= MAX_UPLOAD_BYTES,
        decreases sorted@.len() - k,
    {
        proof {
            lemma_admitted_bounds(sv.subrange(0, k as int));
        }
        assert(sv.subrange(0, k + 1).drop_last() =~= sv.subrange(0, k as int));
        let size = sorted[k].size;
        if out.len() < MAX_ATTACHMENTS && size <= MAX_UPLOAD_BYTES - total {
            let ghost o0 = attach_view(out@);
            out.push(copy_attachment(&sorted[k]));
            total = total + size;
            assert(attach_view(out@) =~= o0.push(sv[k as int]));
            assert(attach_view(out@).drop_last() =~= o0);
        }
        k = k + 1;
    }
    assert(sv.subrange(0, k as int) =~= sv);
    proof {
        lemma_admitted_bounds(sv);
    }
    out
}

/// The position of the last `.` in `s`.
pub open spec fn last_dot(s: Seq<char>) -> Option<int>
    decreases s.len(),
{
    if s.len() == 0 {
        None
    } else if s.last() == '.' {
        Some(s.len() - 1)
    } else {
        last_dot(s.drop_last())
    }
}

/// The extension of a file name: what follows its last dot, unless that dot starts the name.
pub open spec fn extension_of(name: Seq<char>) -> Option<Seq<char>> {
    match last_dot(name) {
        Some(k) => if 0 < k < name.len() {
            Some(name.subrange(k + 1, name.len() as int))
        } else {
            None
        },
        None => None,
    }
}

/// The MIME type a file is sent with, from its extension.
pub open spec fn mime_for(name: Seq<char>) -> Seq<char> {
    match extension_of(name) {
        Some(e) => if e == "mp3"@ {
            "audio/mpeg"@
        } else if e == "ogg"@ {
            "audio/ogg"@
        } else if e == "opus"@ {
            "audio/opus"@
        } else if e == "m4a"@ {
            "audio/mp4"@
        } else if e == "json"@ {
            "application/json"@
        } else if e == "jpg"@ || e == "jpeg"@ {
            "image/jpeg"@
        } else if e == "png"@ {
            "image/png"@
        } else {
            "application/octet-stream"@
        },
        None => "application/octet-stream"@,
    }
}

fn is_text(v: &Vec<char>, lit: &str) -> (r: bool)
    ensures
        r == (v@ == lit@),
{
    seq_equal(v, &chars_of(lit))
}

/// The MIME type for a file name.
pub fn mime_type_for(name: &str) -> (r: String)
    ensures
        r@ == mime_for(name@),
{
    let v = chars_of(name);
    let mut last: Option<usize> = None;
    let mut i: usize = 0;
    while i < v.len()
        invariant
            v@ == name@,
            i <= v@.len(),
            match last {
                Some(k) => last_dot(v@.subrange(0, i as int)) == Some(k as int),
                None => last_dot(v@.subrange(0, i as int)) is None,
            },
            last matches Some(k) ==> k < i,
        decreases v@.len() - i,
    {
        assert(v@.subrange(0, i + 1).drop_last() =~= v@.subrange(0, i as int));
        if v[i] == '.' {
            last = Some(i);
        }
        i = i + 1;
    }
    assert(v@.subrange(0, i as int) =~= v@);
    match last {
        Some(k) => {
            if k > 0 {
                let e = sub_vec(&v, k + 1, v.len());
                if is_text(&e, "mp3") {
                    owned("audio/mpeg")
                } else if is_text(&e, "ogg") {
                    owned("audio/ogg")
                } else if is_text(&e, "opus") {
                    owned("audio/opus")
                } else if is_text(&e, "m4a") {
                    owned("audio/mp4")
                } else if is_text(&e, "json") {
                    owned("application/json")
                } else if is_text(&e, "jpg") || is_text(&e, "jpeg") {
                    owned("image/jpeg")
                } else if is_text(&e, "png") {
                    owned("image/png")
                } else {
                    owned("application/octet-stream")
                }
            } else {
                owned("application/octet-stream")
            }
        },
        None => owned("application/octet-stream"),
    }
}

} // verus!
