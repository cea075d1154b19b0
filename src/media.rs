use vstd::prelude::*;
use crate::text::{owned, texts};
use crate::formats::{
    pairs_view, sorted_by_rank, sort_by_priority, extract_available_formats, sanitize_filename,
    sanitize_format_string, determine_extension_from_format, sanitized_name, sanitized_tag,
    extension_for, listed_renditions,
};
use crate::upstream::Track;

verus! {

/// How the transcoder is run on one input.
#[derive(Clone, Copy, PartialEq, Eq, Structural, Debug)]
pub enum FetchMode {
    /// Stream copy, no re-encoding.
    Copy,
    /// The transcoder's default codec choice.
    Default,
    /// Re-encode to MP3.
    Reencode,
}

/// Why a rendition was not obtained.
#[derive(Clone, Copy, PartialEq, Eq, Structural, Debug)]
pub enum MediaError {
    /// Resolving the rendition was refused (401 or 403): likely premium-only.
    AuthRequired,
    /// Resolving the rendition answered 404.
    NotFound,
    /// Resolving failed otherwise.
    UpstreamFailed,
    /// The transcoder failed.
    SubprocessFailed,
    /// The file came out under 1024 bytes.
    TooSmall,
}

/// Smallest size of a file worth keeping.
pub const MIN_MEDIA_BYTES: u64 = 1024;

/// The error of a rendition resolve that answered `status`.
pub open spec fn resolve_error_of(status: u16) -> MediaError {
    if status == 401 || status == 403 {
        MediaError::AuthRequired
    } else if status == 404 {
        MediaError::NotFound
    } else {
        MediaError::UpstreamFailed
    }
}

/// Classifies a failed rendition resolve.
pub fn classify_resolve_failure(status: u16) -> (r: MediaError)
    ensures
        r == resolve_error_of(status),
{
    if status == 401 || status == 403 {
        MediaError::AuthRequired
    } else if status == 404 {
        MediaError::NotFound
    } else {
        MediaError::UpstreamFailed
    }
}

/// Whether a transcoder run gave a file worth keeping, and why not.
pub fn check_download(ok: bool, size: u64) -> (r: Result<(), MediaError>)
    ensures
        r is Ok <==> ok && size >= MIN_MEDIA_BYTES,
        r == Err::<(), MediaError>(MediaError::SubprocessFailed) <==> !ok,
        r == Err::<(), MediaError>(MediaError::TooSmall) <==> ok && size < MIN_MEDIA_BYTES,
{
    if !ok {
        Err(MediaError::SubprocessFailed)
    } else if size < MIN_MEDIA_BYTES {
        Err(MediaError::TooSmall)
    } else {
        Ok(())
    }
}

/// The transcoder's arguments for one run.
pub open spec fn args_for(mode: FetchMode, input: Seq<char>, output: Seq<char>) -> Seq<Seq<char>> {
    match mode {
        FetchMode::Copy => seq!["-i"@, input, "-c"@, "copy"@, "-y"@, output],
        FetchMode::Default => seq!["-i"@, input, "-y"@, output],
        FetchMode::Reencode => seq![
            "-i"@,
            input,
            "-c:a"@,
            "libmp3lame"@,
            "-q:a"@,
            "2"@,
            "-y"@,
            output,
        ],
    }
}

/// The transcoder's arguments for one run.
pub fn transcoder_args(mode: FetchMode, input: &str, output: &str) -> (r: Vec<String>)
    ensures
        texts(r@) == args_for(mode, input@, output@),
{
    let mut v: Vec<String> = Vec::new();
    v.push(owned("-i"));
    v.push(owned(input));
    match mode {
        FetchMode::Copy => {
            v.push(owned("-c"));
            v.push(owned("copy"));
        },
        FetchMode::Default => {},
        FetchMode::Reencode => {
            v.push(owned("-c:a"));
            v.push(owned("libmp3lame"));
            v.push(owned("-q:a"));
            v.push(owned("2"));
        },
    }
    v.push(owned("-y"));
    v.push(owned(output));
    assert(texts(v@) =~= args_for(mode, input@, output@));
    v
}

/// Whether `s` has the hyphenated form of a UUID: 32 lowercase hex digits in groups of 8, 4, 4,
/// 4 and 12, separated by `-`.
pub open spec fn is_hyphenated_uuid(s: Seq<char>) -> bool {
    &&& s.len() == 36
    &&& forall|i: int|
        0 <= i < 36 ==> if i == 8 || i == 13 || i == 18 || i == 23 {
            #[trigger] s[i] == '-'
        } else {
            ('0' <= s[i] <= '9') || ('a' <= s[i] <= 'f')
        }
}

/// Relies on `uuid::Uuid::new_v4` and its `Display`, which writes the lowercase hyphenated form.
#[verifier::external_body]
fn new_uuid() -> (r: String)
    ensures
        is_hyphenated_uuid(r@),
{
    uuid::Uuid::new_v4().to_string()
}

/// A fresh name for a track's work directory: `scarchive_` and a random UUID.
pub fn work_dir_name() -> (r: String)
    ensures
        r@.len() == 46,
        r@.subrange(0, 10) == "scarchive_"@,
        is_hyphenated_uuid(r@.subrange(10, 46)),
{
    let id = new_uuid();
    proof {
        reveal_strlit("scarchive_");
    }
    let r = owned("scarchive_").concat(id.as_str());
    assert(r@.subrange(0, 10) =~= "scarchive_"@);
    assert(r@.subrange(10, 46) =~= id@);
    r
}

/// `<title>_<tag>.<ext>` for a rendition.
pub open spec fn rendition_file(title: Seq<char>, tag: Seq<char>) -> Seq<char> {
    sanitized_name(title) + "_"@ + sanitized_tag(tag) + "."@ + extension_for(tag)
}

/// The file name a rendition is saved under.
pub fn rendition_file_name(title: &str, tag: &str) -> (r: String)
    ensures
        r@ == rendition_file(title@, tag@),
{
    let t = sanitize_filename(title);
    let f = sanitize_format_string(tag);
    let e = determine_extension_from_format(tag);
    t.concat("_").concat(f.as_str()).concat(".").concat(e.as_str())
}

/// The file name of a track's cover.
pub fn cover_file_name(title: &str) -> (r: String)
    ensures
        r@ == sanitized_name(title@) + "_cover.jpg"@,
{
    sanitize_filename(title).concat("_cover.jpg")
}

/// The file name of a track's metadata.
pub fn data_file_name(title: &str) -> (r: String)
    ensures
        r@ == sanitized_name(title@) + "_data.json"@,
{
    sanitize_filename(title).concat("_data.json")
}

/// What the pipeline asks of its caller next.
pub enum MediaAction {
    /// Resolve this rendition URL to a direct media URL.
    Resolve(String),
    /// Run the transcoder on `input`, writing the file `output` in the work directory.
    Fetch { input: String, output: String, mode: FetchMode },
    /// The media files obtained, as (tag, file name), best rank first.
    Finished(Vec<(String, String)>),
}

/// What the caller hands back.
pub enum MediaEvent {
    /// The direct URL, or `None` when resolving failed.
    Resolved(Option<String>),
    /// Whether the transcoder succeeded, and the size of its output file.
    Fetched { ok: bool, size: u64 },
}

#[derive(Clone, Copy, PartialEq, Eq, Structural, Debug)]
pub enum Stage {
    Resolving,
    Fetching(FetchMode),
    ResolvingHls,
    ResolvingStream,
    FetchingHls(FetchMode),
    FetchingStream(FetchMode),
    Reencoding,
    Done,
}

/// The acquisition of one track's media: each rendition in rank order, then the fallbacks.
pub struct MediaPipeline {
    renditions: Vec<(String, String)>,
    outputs: Vec<String>,
    index: usize,
    stage: Stage,
    input: String,
    hls_url: Option<String>,
    stream_url: Option<String>,
    hls_direct: Option<String>,
    stream_direct: Option<String>,
    hls_file: String,
    stream_file: String,
    mp3_file: String,
    downloaded: Vec<(String, String)>,
}

pub open spec fn opt_text(o: Option<String>) -> Option<Seq<char>> {
    match o {
        Some(s) => Some(s@),
        None => None,
    }
}

/// `r` asks to resolve `u`.
pub open spec fn resolves(r: MediaAction, u: Seq<char>) -> bool {
    match r {
        MediaAction::Resolve(x) => x@ == u,
        _ => false,
    }
}

/// `r` asks to run the transcoder on `input` into `output` in `mode`.
pub open spec fn fetches(r: MediaAction, input: Seq<char>, output: Seq<char>, mode: FetchMode) -> bool {
    match r {
        MediaAction::Fetch { input: i, output: o, mode: m } => i@ == input && o@ == output && m == mode,
        _ => false,
    }
}

/// `r` ends the pipeline with `files`.
pub open spec fn finishes(r: MediaAction, files: Seq<(Seq<char>, Seq<char>)>) -> bool {
    match r {
        MediaAction::Finished(f) => pairs_view(f@) == files,
        _ => false,
    }
}

/// After the renditions: the result when some file was obtained; otherwise the fallbacks,
/// starting by resolving the HLS URL, else the stream URL, else an empty result.
pub open spec fn fallback_or_finish(p: MediaPipeline, r: MediaAction) -> bool {
    if p.obtained().len() > 0 {
        p.stage() == Stage::Done && finishes(r, sorted_by_rank(p.obtained()))
    } else {
        match p.hls_source() {
            Some(u) => p.stage() == Stage::ResolvingHls && resolves(r, u),
            None => match p.stream_source() {
                Some(u) => p.stage() == Stage::ResolvingStream && resolves(r, u),
                None => p.stage() == Stage::Done && finishes(r, sorted_by_rank(p.obtained())),
            },
        }
    }
}

/// What follows rendition `old.index()`: the next rendition, or what comes after the renditions.
pub open spec fn next_rendition(old: MediaPipeline, p: MediaPipeline, r: MediaAction) -> bool {
    if old.index() + 1 < old.planned().len() {
        p.stage() == Stage::Resolving && p.index() == old.index() + 1 && resolves(
            r,
            old.planned()[old.index() + 1].1,
        )
    } else {
        fallback_or_finish(p, r)
    }
}

/// The re-encode to MP3 of the HLS stream (else the progressive stream), or the result when
/// neither resolved.
pub open spec fn reencode_or_finish(p: MediaPipeline, r: MediaAction) -> bool {
    let src = match p.hls_direct() {
        Some(d) => Some(d),
        None => p.stream_direct(),
    };
    match src {
        Some(d) => p.stage() == Stage::Reencoding && p.input() == d && fetches(
            r,
            d,
            p.mp3_file(),
            FetchMode::Reencode,
        ),
        None => p.stage() == Stage::Done && finishes(r, sorted_by_rank(p.obtained())),
    }
}

/// A stream copy of the progressive stream when it resolved, else the re-encode.
pub open spec fn stream_or_reencode(p: MediaPipeline, r: MediaAction) -> bool {
    match p.stream_direct() {
        Some(d) => p.stage() == Stage::FetchingStream(FetchMode::Copy) && p.input() == d && fetches(
            r,
            d,
            p.stream_file(),
            FetchMode::Copy,
        ),
        None => reencode_or_finish(p, r),
    }
}

/// A stream copy of the HLS stream when it resolved, else of the progressive stream.
pub open spec fn fetch_fallback(p: MediaPipeline, r: MediaAction) -> bool {
    match p.hls_direct() {
        Some(d) => p.stage() == Stage::FetchingHls(FetchMode::Copy) && p.input() == d && fetches(
            r,
            d,
            p.hls_file(),
            FetchMode::Copy,
        ),
        None => stream_or_reencode(p, r),
    }
}

/// `x` followed by `e` when `keep`.
pub open spec fn kept_if(x: Seq<(Seq<char>, Seq<char>)>, keep: bool, e: (Seq<char>, Seq<char>)) -> Seq<
    (Seq<char>, Seq<char>),
> {
    if keep {
        x.push(e)
    } else {
        x
    }
}

/// What one step does, given the state before (`old`) and after (`p`) and the action `r`.
pub open spec fn step_spec(old: MediaPipeline, ev: MediaEvent, p: MediaPipeline, r: MediaAction) -> bool {
    let i = old.index();
    match (old.stage(), ev) {
        (Stage::Resolving, MediaEvent::Resolved(Some(d))) => p.stage() == Stage::Fetching(
            FetchMode::Copy,
        ) && p.index() == i && p.input() == d@ && p.obtained() == old.obtained() && fetches(
            r,
            d@,
            old.outputs()[i],
            FetchMode::Copy,
        ),
        (Stage::Resolving, MediaEvent::Resolved(None)) => p.obtained() == old.obtained()
            && next_rendition(old, p, r),
        (Stage::Fetching(m), MediaEvent::Fetched { ok, size }) => if !ok && m == FetchMode::Copy {
            p.stage() == Stage::Fetching(FetchMode::Default) && p.index() == i && p.input()
                == old.input() && p.obtained() == old.obtained() && fetches(
                r,
                old.input(),
                old.outputs()[i],
                FetchMode::Default,
            )
        } else {
            p.obtained() == kept_if(
                old.obtained(),
                ok && size >= MIN_MEDIA_BYTES,
                (old.planned()[i].0, old.outputs()[i]),
            ) && next_rendition(old, p, r)
        },
        (Stage::ResolvingHls, MediaEvent::Resolved(res)) => p.hls_direct() == opt_text(res)
            && p.stream_direct() == old.stream_direct() && p.obtained() == old.obtained() && match old.stream_source() {
            Some(u) => p.stage() == Stage::ResolvingStream && resolves(r, u),
            None => fetch_fallback(p, r),
        },
        (Stage::ResolvingStream, MediaEvent::Resolved(res)) => p.stream_direct() == opt_text(res)
            && p.hls_direct() == old.hls_direct() && p.obtained() == old.obtained() && fetch_fallback(p, r),
        (Stage::FetchingHls(m), MediaEvent::Fetched { ok, size }) => p.hls_direct() == old.hls_direct()
            && p.stream_direct() == old.stream_direct() && if !ok && m == FetchMode::Copy {
            p.stage() == Stage::FetchingHls(FetchMode::Default) && p.input() == old.input()
                && p.obtained() == old.obtained() && fetches(
                r,
                old.input(),
                old.hls_file(),
                FetchMode::Default,
            )
        } else if ok && size >= MIN_MEDIA_BYTES {
            p.obtained() == old.obtained().push(("hls/aac"@, old.hls_file())) && p.stage()
                == Stage::Done && finishes(r, sorted_by_rank(p.obtained()))
        } else {
            p.obtained() == old.obtained() && stream_or_reencode(p, r)
        },
        (Stage::FetchingStream(m), MediaEvent::Fetched { ok, size }) => p.hls_direct()
            == old.hls_direct() && p.stream_direct() == old.stream_direct() && if !ok && m
            == FetchMode::Copy {
            p.stage() == Stage::FetchingStream(FetchMode::Default) && p.input() == old.input()
                && p.obtained() == old.obtained() && fetches(
                r,
                old.input(),
                old.stream_file(),
                FetchMode::Default,
            )
        } else if ok && size >= MIN_MEDIA_BYTES {
            p.obtained() == old.obtained().push(("progressive/mp3"@, old.stream_file())) && p.stage()
                == Stage::Done && finishes(r, sorted_by_rank(p.obtained()))
        } else {
            p.obtained() == old.obtained() && reencode_or_finish(p, r)
        },
        (Stage::Reencoding, MediaEvent::Fetched { ok, size }) => p.obtained() == kept_if(
            old.obtained(),
            ok && size >= MIN_MEDIA_BYTES,
            ("transcoded/mp3"@, old.mp3_file()),
        ) && p.stage() == Stage::Done && finishes(r, sorted_by_rank(p.obtained())),
        _ => p.obtained() == old.obtained() && p.stage() == Stage::Done && finishes(
            r,
            sorted_by_rank(p.obtained()),
        ),
    }
}

impl MediaPipeline {
    /// The files obtained so far, as (tag, file name).
    pub closed spec fn obtained(&self) -> Seq<(Seq<char>, Seq<char>)> {
        pairs_view(self.downloaded@)
    }

    /// The renditions tried, as (tag, URL), in order.
    pub closed spec fn planned(&self) -> Seq<(Seq<char>, Seq<char>)> {
        pairs_view(self.renditions@)
    }

    /// The file name of each planned rendition.
    pub closed spec fn outputs(&self) -> Seq<Seq<char>> {
        self.outputs@.map_values(|o: String| o@)
    }

    pub closed spec fn stage(&self) -> Stage {
        self.stage
    }

    /// The rendition being handled.
    pub closed spec fn index(&self) -> int {
        self.index as int
    }

    /// The direct URL the running transcoder job reads.
    pub closed spec fn input(&self) -> Seq<char> {
        self.input@
    }

    /// The track's HLS URL and progressive stream URL, to resolve when no rendition was obtained.
    pub closed spec fn hls_source(&self) -> Option<Seq<char>> {
        opt_text(self.hls_url)
    }

    pub closed spec fn stream_source(&self) -> Option<Seq<char>> {
        opt_text(self.stream_url)
    }

    /// What those two resolved to, once resolved.
    pub closed spec fn hls_direct(&self) -> Option<Seq<char>> {
        opt_text(self.hls_direct)
    }

    pub closed spec fn stream_direct(&self) -> Option<Seq<char>> {
        opt_text(self.stream_direct)
    }

    /// The file names of the HLS copy, the stream copy and the MP3 re-encode.
    pub closed spec fn hls_file(&self) -> Seq<char> {
        self.hls_file@
    }

    pub closed spec fn stream_file(&self) -> Seq<char> {
        self.stream_file@
    }

    pub closed spec fn mp3_file(&self) -> Seq<char> {
        self.mp3_file@
    }

    /// The plan stays as `start` made it.
    pub closed spec fn same_plan(&self, o: MediaPipeline) -> bool {
        &&& self.renditions@ == o.renditions@
        &&& self.outputs@ == o.outputs@
        &&& self.hls_url == o.hls_url
        &&& self.stream_url == o.stream_url
        &&& self.hls_file == o.hls_file
        &&& self.stream_file == o.stream_file
        &&& self.mp3_file == o.mp3_file
    }

    pub closed spec fn wf(&self) -> bool {
        &&& self.renditions@.len() == self.outputs@.len()
        &&& self.index <= self.renditions@.len()
        &&& (self.stage is Resolving || self.stage is Fetching) ==> self.index < self.renditions@.len()
    }

    /// Plan, obtained files and resolved fallbacks unchanged.
    closed spec fn frame(&self, o: MediaPipeline) -> bool {
        &&& self.same_plan(o)
        &&& self.downloaded@ == o.downloaded@
        &&& self.hls_direct == o.hls_direct
        &&& self.stream_direct == o.stream_direct
    }

    fn finish(&mut self) -> (r: MediaAction)
        requires
            old(self).wf(),
        ensures
            final(self).wf(),
            final(self).frame(*old(self)),
            final(self).stage == Stage::Done,
            finishes(r, sorted_by_rank(final(self).obtained())),
    {
        self.stage = Stage::Done;
        MediaAction::Finished(sort_by_priority(&self.downloaded))
    }

    fn reencode_or_finish(&mut self) -> (r: MediaAction)
        requires
            old(self).wf(),
        ensures
            final(self).wf(),
            final(self).frame(*old(self)),
            reencode_or_finish(*final(self), r),
    {
        let input = match (&self.hls_direct, &self.stream_direct) {
            (Some(d), _) => Some(d.clone()),
            (None, Some(d)) => Some(d.clone()),
            (None, None) => None,
        };
        match input {
            Some(d) => {
                self.stage = Stage::Reencoding;
                self.input = d.clone();
                MediaAction::Fetch { input: d, output: self.mp3_file.clone(), mode: FetchMode::Reencode }
            },
            None => self.finish(),
        }
    }

    fn stream_or_reencode(&mut self) -> (r: MediaAction)
        requires
            old(self).wf(),
        ensures
            final(self).wf(),
            final(self).frame(*old(self)),
            stream_or_reencode(*final(self), r),
    {
        match &self.stream_direct {
            Some(d) => {
                let d = d.clone();
                self.stage = Stage::FetchingStream(FetchMode::Copy);
                self.input = d.clone();
                MediaAction::Fetch { input: d, output: self.stream_file.clone(), mode: FetchMode::Copy }
            },
            None => self.reencode_or_finish(),
        }
    }

    fn fetch_fallback(&mut self) -> (r: MediaAction)
        requires
            old(self).wf(),
        ensures
            final(self).wf(),
            final(self).frame(*old(self)),
            fetch_fallback(*final(self), r),
    {
        match &self.hls_direct {
            Some(d) => {
                let d = d.clone();
                self.stage = Stage::FetchingHls(FetchMode::Copy);
                self.input = d.clone();
                MediaAction::Fetch { input: d, output: self.hls_file.clone(), mode: FetchMode::Copy }
            },
            None => self.stream_or_reencode(),
        }
    }

    fn after_renditions(&mut self) -> (r: MediaAction)
        requires
            old(self).wf(),
        ensures
            final(self).wf(),
            final(self).frame(*old(self)),
            fallback_or_finish(*final(self), r),
    {
        if self.downloaded.len() > 0 {
            return self.finish();
        }
        match &self.hls_url {
            Some(u) => {
                let u = u.clone();
                self.stage = Stage::ResolvingHls;
                MediaAction::Resolve(u)
            },
            None => match &self.stream_url {
                Some(u) => {
                    let u = u.clone();
                    self.stage = Stage::ResolvingStream;
                    MediaAction::Resolve(u)
                },
                None => self.finish(),
            },
        }
    }

    fn advance(&mut self) -> (r: MediaAction)
        requires
            old(self).wf(),
            old(self).index < old(self).renditions@.len(),
        ensures
            final(self).wf(),
            final(self).frame(*old(self)),
            next_rendition(*old(self), *final(self), r),
    {
        let n = self.renditions.len();
        self.index = self.index + 1;
        if self.index < n {
            self.stage = Stage::Resolving;
            MediaAction::Resolve(self.renditions[self.index].1.clone())
        } else {
            self.stage = Stage::Done;
            self.after_renditions()
        }
    }

    /// Starts on a track: its renditions in rank order (blacklisted and URL-less ones left out),
    /// each saved under its own file name; then, when none was obtained, its HLS URL and its
    /// stream URL, and last a re-encode to MP3.
    pub fn start(track: &Track) -> (r: (MediaPipeline, MediaAction))
        ensures
            r.0.wf(),
            r.0.obtained().len() == 0,
            r.0.index() == 0,
            r.0.planned() == sorted_by_rank(listed_renditions(track.transcodings@)),
            r.0.outputs().len() == r.0.planned().len(),
            forall|i: int|
                0 <= i < r.0.planned().len() ==> #[trigger] r.0.outputs()[i] == rendition_file(
                    track.title@,
                    r.0.planned()[i].0,
                ),
            r.0.hls_source() == opt_text(track.hls_url),
            r.0.stream_source() == opt_text(track.stream_url),
            r.0.hls_direct() is None,
            r.0.stream_direct() is None,
            r.0.hls_file() == sanitized_name(track.title@) + "_hls.m4a"@,
            r.0.stream_file() == sanitized_name(track.title@) + "_stream.mp3"@,
            r.0.mp3_file() == sanitized_name(track.title@) + ".mp3"@,
            if r.0.planned().len() > 0 {
                r.0.stage() == Stage::Resolving && resolves(r.1, r.0.planned()[0].1)
            } else {
                fallback_or_finish(r.0, r.1)
            },
    {
        let renditions = extract_available_formats(&track.transcodings);
        let mut outputs: Vec<String> = Vec::new();
        let mut i: usize = 0;
        while i < renditions.len()
            invariant
                i <= renditions@.len(),
                outputs@.len() == i,
                forall|k: int|
                    0 <= k < i ==> (#[trigger] outputs@[k])@ == rendition_file(
                        track.title@,
                        renditions@[k].0@,
                    ),
            decreases renditions@.len() - i,
        {
            outputs.push(rendition_file_name(track.title.as_str(), renditions[i].0.as_str()));
            i = i + 1;
        }
        let title = sanitize_filename(track.title.as_str());
        let mut p = MediaPipeline {
            renditions,
            outputs,
            index: 0,
            stage: Stage::Resolving,
            input: owned(""),
            hls_url: match &track.hls_url {
                Some(u) => Some(u.clone()),
                None => None,
            },
            stream_url: match &track.stream_url {
                Some(u) => Some(u.clone()),
                None => None,
            },
            hls_direct: None,
            stream_direct: None,
            hls_file: title.clone().concat("_hls.m4a"),
            stream_file: title.clone().concat("_stream.mp3"),
            mp3_file: title.concat(".mp3"),
            downloaded: Vec::new(),
        };
        assert(pairs_view(p.downloaded@) =~= Seq::<(Seq<char>, Seq<char>)>::empty());
        assert forall|i: int| 0 <= i < p.planned().len() implies #[trigger] p.outputs()[i]
            == rendition_file(track.title@, p.planned()[i].0) by {
            assert(p.outputs()[i] == p.outputs@[i]@);
            assert(p.planned()[i].0 == p.renditions@[i].0@);
        }
        if p.renditions.len() > 0 {
            let u = p.renditions[0].1.clone();
            (p, MediaAction::Resolve(u))
        } else {
            p.stage = Stage::Done;
            let a = p.after_renditions();
            (p, a)
        }
    }

    fn keep(&mut self, tag: String, file: String)
        ensures
            final(self).obtained() == old(self).obtained().push((tag@, file@)),
            final(self).same_plan(*old(self)),
            final(self).index == old(self).index,
            final(self).stage == old(self).stage,
            final(self).input == old(self).input,
            final(self).hls_direct == old(self).hls_direct,
            final(self).stream_direct == old(self).stream_direct,
    {
        let ghost d0 = pairs_view(self.downloaded@);
        self.downloaded.push((tag, file));
        assert(pairs_view(self.downloaded@) =~= d0.push((tag@, file@)));
    }

    /// Moves on after the caller handled the last action, as `step_spec` states: a rendition or
    /// fallback file is kept only when the transcoder succeeded and its output has at least 1024
    /// bytes; a failed stream copy is retried once with the default codec choice, and a failed
    /// retry moves on; the fallbacks run only when no rendition was obtained; `Finished` lists
    /// what was obtained, best rank first.
    pub fn step(&mut self, ev: MediaEvent) -> (r: MediaAction)
        requires
            old(self).wf(),
        ensures
            final(self).wf(),
            final(self).same_plan(*old(self)),
            step_spec(*old(self), ev, *final(self), r),
    {
        let ghost o = *self;
        match (self.stage, ev) {
            (Stage::Resolving, MediaEvent::Resolved(res)) => {
                match res {
                    Some(direct) => {
                        self.stage = Stage::Fetching(FetchMode::Copy);
                        self.input = direct.clone();
                        assert(o.outputs()[o.index()] == o.outputs@[o.index()]@);
                        MediaAction::Fetch {
                            input: direct,
                            output: self.outputs[self.index].clone(),
                            mode: FetchMode::Copy,
                        }
                    },
                    None => self.advance(),
                }
            },
            (Stage::Fetching(mode), MediaEvent::Fetched { ok, size }) => {
                assert(o.outputs()[o.index()] == o.outputs@[o.index()]@);
                if !ok && mode == FetchMode::Copy {
                    self.stage = Stage::Fetching(FetchMode::Default);
                    MediaAction::Fetch {
                        input: self.input.clone(),
                        output: self.outputs[self.index].clone(),
                        mode: FetchMode::Default,
                    }
                } else {
                    if ok && size >= MIN_MEDIA_BYTES {
                        let tag = self.renditions[self.index].0.clone();
                        let file = self.outputs[self.index].clone();
                        self.keep(tag, file);
                    }
                    let ghost mid = *self;
                    assert(mid.planned() == o.planned());
                    self.advance()
                }
            },
            (Stage::ResolvingHls, MediaEvent::Resolved(res)) => {
                self.hls_direct = res;
                match &self.stream_url {
                    Some(u) => {
                        let u = u.clone();
                        self.stage = Stage::ResolvingStream;
                        MediaAction::Resolve(u)
                    },
                    None => self.fetch_fallback(),
                }
            },
            (Stage::ResolvingStream, MediaEvent::Resolved(res)) => {
                self.stream_direct = res;
                self.fetch_fallback()
            },
            (Stage::FetchingHls(mode), MediaEvent::Fetched { ok, size }) => {
                if !ok && mode == FetchMode::Copy {
                    self.stage = Stage::FetchingHls(FetchMode::Default);
                    MediaAction::Fetch {
                        input: self.input.clone(),
                        output: self.hls_file.clone(),
                        mode: FetchMode::Default,
                    }
                } else if ok && size >= MIN_MEDIA_BYTES {
                    let file = self.hls_file.clone();
                    self.keep(owned("hls/aac"), file);
                    self.finish()
                } else {
                    self.stream_or_reencode()
                }
            },
            (Stage::FetchingStream(mode), MediaEvent::Fetched { ok, size }) => {
                if !ok && mode == FetchMode::Copy {
                    self.stage = Stage::FetchingStream(FetchMode::Default);
                    MediaAction::Fetch {
                        input: self.input.clone(),
                        output: self.stream_file.clone(),
                        mode: FetchMode::Default,
                    }
                } else if ok && size >= MIN_MEDIA_BYTES {
                    let file = self.stream_file.clone();
                    self.keep(owned("progressive/mp3"), file);
                    self.finish()
                } else {
                    self.reencode_or_finish()
                }
            },
            (Stage::Reencoding, MediaEvent::Fetched { ok, size }) => {
                if ok && size >= MIN_MEDIA_BYTES {
                    let file = self.mp3_file.clone();
                    self.keep(owned("transcoded/mp3"), file);
                }
                self.finish()
            },
            _ => self.finish(),
        }
    }
}

} // verus!
