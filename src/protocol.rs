use vstd::prelude::*;
use crate::text::{texts, owned, string_of, str_contains, has_sub};
use crate::numtext::{decimal, decimal_chars};
use crate::upstream::{extract_offset_from_url, offset_of};

verus! {

/// How one upstream request ended.
#[derive(Clone, Copy, PartialEq, Eq, Structural, Debug)]
pub enum Outcome {
    /// A 2xx answer whose body parsed.
    Success,
    /// A 401 or 403 answer: the credential was refused.
    AuthRejected,
    /// Any other answer, a body that did not parse, or a network error.
    Failed,
}

/// Why an upstream operation gave up.
#[derive(Clone, Copy, PartialEq, Eq, Structural, Debug)]
pub enum UpstreamError {
    /// No credential could be scraped.
    ScrapeFailed,
    /// Every attempt failed.
    UpstreamFailed,
}

/// What the caller of an upstream operation does next.
#[derive(Clone, Copy, PartialEq, Eq, Structural, Debug)]
pub enum RetryAction {
    /// Wait `delay_secs`, then send the request.
    Send { delay_secs: u64 },
    /// Refresh the credential, wait `delay_secs`, then send the request with the new one.
    RefreshThenSend { delay_secs: u64 },
    /// The operation is over.
    Succeeded,
    /// The operation gave up.
    GaveUp(UpstreamError),
}

/// Attempts per upstream operation.
pub const MAX_ATTEMPTS: u64 = 3;

/// Where one upstream operation stands: how many requests it has sent.
#[derive(Clone, Copy, PartialEq, Eq, Structural, Debug)]
pub struct RetryState {
    pub attempts: u64,
}

/// The outcome of a request from its HTTP status and whether its JSON body parsed.
pub open spec fn outcome_of(status: u16, parsed: bool) -> Outcome {
    if 200 <= status <= 299 {
        if parsed {
            Outcome::Success
        } else {
            Outcome::Failed
        }
    } else if status == 401 || status == 403 {
        Outcome::AuthRejected
    } else {
        Outcome::Failed
    }
}

/// The next state and action after a request ended with `o`.
pub open spec fn retry_step(s: RetryState, o: Outcome) -> (RetryState, RetryAction) {
    match o {
        Outcome::Success => (s, RetryAction::Succeeded),
        _ => if s.attempts >= MAX_ATTEMPTS {
            (s, RetryAction::GaveUp(UpstreamError::UpstreamFailed))
        } else {
            let n = RetryState { attempts: (s.attempts + 1) as u64 };
            let delay = (2 * s.attempts) as u64;
            if o == Outcome::AuthRejected {
                (n, RetryAction::RefreshThenSend { delay_secs: delay })
            } else {
                (n, RetryAction::Send { delay_secs: delay })
            }
        },
    }
}

/// Classifies an answer.
pub fn classify_response(status: u16, parsed: bool) -> (r: Outcome)
    ensures
        r == outcome_of(status, parsed),
{
    if 200 <= status && status <= 299 {
        if parsed {
            Outcome::Success
        } else {
            Outcome::Failed
        }
    } else if status == 401 || status == 403 {
        Outcome::AuthRejected
    } else {
        Outcome::Failed
    }
}

impl RetryState {
    /// Starts an operation: the first request goes out at once.
    pub fn begin() -> (r: (RetryState, RetryAction))
        ensures
            r.0.attempts == 1,
            r.1 == (RetryAction::Send { delay_secs: 0 }),
    {
        (RetryState { attempts: 1 }, RetryAction::Send { delay_secs: 0 })
    }

    /// Moves on after a request ended with `o`: a refused credential is refreshed before the
    /// next attempt, and after the third failed attempt the operation gives up.
    pub fn on_outcome(self, o: Outcome) -> (r: (RetryState, RetryAction))
        requires
            self.attempts <= MAX_ATTEMPTS,
        ensures
            r == retry_step(self, o),
    {
        match o {
            Outcome::Success => (self, RetryAction::Succeeded),
            _ => {
                if self.attempts >= MAX_ATTEMPTS {
                    (self, RetryAction::GaveUp(UpstreamError::UpstreamFailed))
                } else {
                    let n = RetryState { attempts: self.attempts + 1 };
                    let delay = 2 * self.attempts;
                    if o == Outcome::AuthRejected {
                        (n, RetryAction::RefreshThenSend { delay_secs: delay })
                    } else {
                        (n, RetryAction::Send { delay_secs: delay })
                    }
                }
            },
        }
    }

    /// Gives up when the credential refresh itself failed.
    pub fn on_refresh_failed(self) -> (r: (RetryState, RetryAction))
        ensures
            r == (self, RetryAction::GaveUp(UpstreamError::ScrapeFailed)),
    {
        (self, RetryAction::GaveUp(UpstreamError::ScrapeFailed))
    }
}

/// Whether an action sends a request.
pub open spec fn sends(a: RetryAction) -> bool {
    a is Send || a is RefreshThenSend
}

/// An operation never sends more than three requests, refreshes included: each request it sends
/// is counted in `attempts`, which starts at one and never passes three.
pub proof fn lemma_retry_bound(s: RetryState, o: Outcome)
    requires
        1 <= s.attempts <= MAX_ATTEMPTS,
    ensures
        1 <= retry_step(s, o).0.attempts <= MAX_ATTEMPTS,
        sends(retry_step(s, o).1) ==> retry_step(s, o).0.attempts == s.attempts + 1,
        !sends(retry_step(s, o).1) ==> retry_step(s, o).0.attempts == s.attempts,
        s.attempts == MAX_ATTEMPTS ==> !sends(retry_step(s, o).1),
{
}

/// The one rotating credential shared by all upstream calls.
pub struct CredentialCache {
    current: Option<String>,
}

impl View for CredentialCache {
    type V = Option<Seq<char>>;

    closed spec fn view(&self) -> Option<Seq<char>> {
        crate::upstream::opt_view(self.current)
    }
}

impl CredentialCache {
    /// A cache holding no credential yet.
    pub fn new() -> (r: Self)
        ensures
            r@ is None,
    {
        CredentialCache { current: None }
    }

    /// The credential now held, if any.
    pub fn get_client_id(&self) -> (r: Option<String>)
        ensures
            crate::upstream::opt_view(r) == self@,
    {
        match &self.current {
            Some(c) => Some(c.clone()),
            None => None,
        }
    }

    /// Installs a freshly scraped credential; the latest install wins.
    pub fn install(&mut self, id: String)
        ensures
            final(self)@ == installed(old(self)@, id@),
    {
        self.current = Some(id);
    }
}

/// The cache after installing `id`.
pub open spec fn installed(c: Option<Seq<char>>, id: Seq<char>) -> Option<Seq<char>> {
    Some(id)
}

/// Of two refreshes that both install, in either order of finishing, the cache ends with the
/// value of the one that installed last.
pub proof fn lemma_last_refresh_wins(c: Option<Seq<char>>, earlier: Seq<char>, later: Seq<char>)
    ensures
        installed(installed(c, earlier), later) == Some(later),
{
}

/// The text of each match of a regular expression: its first group, absent when that group did
/// not take part in the match.
pub uninterp spec fn regex_groups(pattern: Seq<char>, text: Seq<char>) -> Seq<Option<Seq<char>>>;

pub open spec fn opt_texts(v: Seq<Option<String>>) -> Seq<Option<Seq<char>>> {
    v.map_values(|o: Option<String>| crate::upstream::opt_view(o))
}

/// Relies on `regex::Regex::new` and `Regex::captures_iter`: the first group of every match in
/// order; a pattern that does not compile has no match.
#[verifier::external_body]
fn groups_of_matches(pattern: &str, text: &str) -> (r: Vec<Option<String>>)
    ensures
        opt_texts(r@) == regex_groups(pattern@, text@),
{
    match regex::Regex::new(pattern) {
        Ok(re) => re.captures_iter(text).map(|c| c.get(1).map(|m| m.as_str().to_string())).collect(),
        Err(_) => Vec::new(),
    }
}

/// The pattern of a script tag on the home page whose source may hold the credential.
pub open spec fn script_pattern() -> Seq<char> {
    "<script crossorigin src=\"(https://a-v2\\.sndcdn\\.com/assets/[^\"]+)\"></script>"@
}

/// The pattern of the credential inside a script.
pub open spec fn client_id_pattern() -> Seq<char> {
    "client_id:\"([^\"]+)"@
}

/// The present texts of a list of optional texts, in order.
pub open spec fn present(v: Seq<Option<Seq<char>>>) -> Seq<Seq<char>>
    decreases v.len(),
{
    if v.len() == 0 {
        Seq::empty()
    } else {
        match v.last() {
            Some(t) => present(v.drop_last()).push(t),
            None => present(v.drop_last()),
        }
    }
}

/// The credential a script body holds: the first group of the first match of the credential
/// pattern, when there is one and it is not empty.
pub open spec fn script_capture(body: Option<&str>) -> Option<Seq<char>> {
    match body {
        Some(b) => {
            let g = regex_groups(client_id_pattern(), b@);
            if g.len() > 0 && g[0] is Some && g[0]->0.len() > 0 {
                g[0]
            } else {
                None
            }
        },
        None => None,
    }
}

/// What a credential scrape does next.
pub enum ScrapeAction {
    /// Download this script and hand its body back.
    Fetch(String),
    /// The credential was found.
    Found(String),
    /// No script holds a credential.
    Failed,
}

/// A credential scrape: the scripts of the home page, tried in order.
pub struct Scrape {
    pub scripts: Vec<String>,
    pub next: usize,
}

/// The action that goes with trying script `i` of `scripts` next.
pub open spec fn try_from(scripts: Seq<Seq<char>>, i: int, a: ScrapeAction) -> bool {
    if 0 <= i < scripts.len() {
        a matches ScrapeAction::Fetch(u) && u@ == scripts[i]
    } else {
        a is Failed
    }
}

impl Scrape {
    /// Starts from the home page: the scripts to try are the sources of its matching script
    /// tags, in page order.
    pub fn start(html: &str) -> (r: (Scrape, ScrapeAction))
        ensures
            texts(r.0.scripts@) == present(regex_groups(script_pattern(), html@)),
            r.0.next == 1,
            try_from(texts(r.0.scripts@), 0, r.1),
    {
        let found = groups_of_matches(
            "<script crossorigin src=\"(https://a-v2\\.sndcdn\\.com/assets/[^\"]+)\"></script>",
            html,
        );
        proof {
            reveal_strlit("<script crossorigin src=\"(https://a-v2\\.sndcdn\\.com/assets/[^\"]+)\"></script>");
        }
        let mut scripts: Vec<String> = Vec::new();
        let mut i: usize = 0;
        while i < found.len()
            invariant
                i <= found@.len(),
                texts(scripts@) == present(opt_texts(found@).subrange(0, i as int)),
            decreases found@.len() - i,
        {
            assert(opt_texts(found@).subrange(0, i + 1).drop_last() =~= opt_texts(found@).subrange(
                0,
                i as int,
            ));
            match &found[i] {
                Some(u) => {
                    let ghost s0 = texts(scripts@);
                    scripts.push(u.clone());
                    assert(texts(scripts@) =~= s0.push(u@));
                },
                None => {},
            }
            i = i + 1;
        }
        assert(opt_texts(found@).subrange(0, i as int) =~= opt_texts(found@));
        let action = if scripts.len() > 0 {
            ScrapeAction::Fetch(scripts[0].clone())
        } else {
            ScrapeAction::Failed
        };
        (Scrape { scripts, next: 1 }, action)
    }

    /// Moves on given what the credential pattern captured in the last script (absent when the
    /// script could not be fetched or held no match): a non-empty capture is the credential,
    /// otherwise the next script is tried.
    pub fn on_capture(self, capture: Option<String>) -> (r: (Scrape, ScrapeAction))
        ensures
            r.0.scripts@ == self.scripts@,
            match capture {
                Some(c) => if c@.len() > 0 {
                    r.1 matches ScrapeAction::Found(f) && f@ == c@
                } else {
                    try_from(texts(self.scripts@), self.next as int, r.1) && r.0.next == (if self.next
                        < usize::MAX {
                        self.next + 1
                    } else {
                        self.next as int
                    })
                },
                None => try_from(texts(self.scripts@), self.next as int, r.1) && r.0.next == (
                if self.next < usize::MAX {
                    self.next + 1
                } else {
                    self.next as int
                }),
            },
    {
        match capture {
            Some(c) => {
                if c.as_str().unicode_len() > 0 {
                    return (self, ScrapeAction::Found(c));
                }
            },
            None => {},
        }
        let i = self.next;
        let action = if i < self.scripts.len() {
            ScrapeAction::Fetch(self.scripts[i].clone())
        } else {
            ScrapeAction::Failed
        };
        let next = if i < usize::MAX {
            i + 1
        } else {
            i
        };
        (Scrape { scripts: self.scripts, next }, action)
    }

    /// Moves on given the body of the last script, or `None` when it could not be fetched: the
    /// credential is the first group of the first match of the credential pattern.
    pub fn on_script(self, body: Option<&str>) -> (r: (Scrape, ScrapeAction))
        ensures
            r.0.scripts@ == self.scripts@,
            r.1 matches ScrapeAction::Found(f) ==> f@.len() > 0,
            match script_capture(body) {
                Some(c) => r.1 matches ScrapeAction::Found(f) && f@ == c,
                None => try_from(texts(self.scripts@), self.next as int, r.1) && r.0.next == (
                if self.next < usize::MAX {
                    self.next + 1
                } else {
                    self.next as int
                }),
            },
    {
        let capture = match body {
            Some(b) => {
                let groups = groups_of_matches("client_id:\"([^\"]+)", b);
                proof {
                    reveal_strlit("client_id:\"([^\"]+)");
                }
                if groups.len() > 0 {
                    assert(opt_texts(groups@)[0] == crate::upstream::opt_view(groups@[0]));
                    match &groups[0] {
                        Some(c) => Some(c.clone()),
                        None => None,
                    }
                } else {
                    None
                }
            },
            None => None,
        };
        self.on_capture(capture)
    }
}

/// `url` with the credential appended as a query parameter.
pub open spec fn with_client_id(url: Seq<char>, client_id: Seq<char>) -> Seq<char> {
    if has_sub(url, "?"@) {
        url + "&client_id="@ + client_id
    } else {
        url + "?client_id="@ + client_id
    }
}

/// Appends the credential to a rendition URL.
pub fn add_client_id(url: &str, client_id: &str) -> (r: String)
    ensures
        r@ == with_client_id(url@, client_id@),
{
    let sep = if str_contains(url, "?") {
        "&client_id="
    } else {
        "?client_id="
    };
    owned(url).concat(sep).concat(client_id)
}

/// The API host all operations go to.
pub open spec fn api_base() -> Seq<char> {
    "https://api-v2.soundcloud.com"@
}

/// `/users/<id>/tracks` with the upload cap.
pub open spec fn tracks_url_spec(user_id: Seq<char>, client_id: Seq<char>, limit: nat) -> Seq<char> {
    api_base() + "/users/"@ + user_id + "/tracks?client_id="@ + client_id + "&limit="@ + decimal(limit)
        + "&linked_partitioning=1"@
}

/// `/users/<id>/likes` with the like cap.
pub open spec fn likes_url_spec(user_id: Seq<char>, client_id: Seq<char>, limit: nat) -> Seq<char> {
    api_base() + "/users/"@ + user_id + "/likes?client_id="@ + client_id + "&limit="@ + decimal(limit)
        + "&linked_partitioning=1"@
}

/// `/users/<id>/followings` at an offset.
pub open spec fn followings_url_spec(
    user_id: Seq<char>,
    client_id: Seq<char>,
    limit: nat,
    offset: nat,
) -> Seq<char> {
    api_base() + "/users/"@ + user_id + "/followings?client_id="@ + client_id + "&limit="@ + decimal(
        limit,
    ) + "&offset="@ + decimal(offset) + "&linked_partitioning=1"@
}

/// `/users/<id>`.
pub open spec fn user_url_spec(user_id: Seq<char>, client_id: Seq<char>) -> Seq<char> {
    api_base() + "/users/"@ + user_id + "?client_id="@ + client_id
}

/// `/tracks/<id>`.
pub open spec fn track_url_spec(track_id: Seq<char>, client_id: Seq<char>) -> Seq<char> {
    api_base() + "/tracks/"@ + track_id + "?client_id="@ + client_id
}

/// `/resolve` for a platform URL.
pub open spec fn resolve_url_spec(url: Seq<char>, client_id: Seq<char>) -> Seq<char> {
    api_base() + "/resolve?url="@ + url + "&client_id="@ + client_id
}

fn base() -> (r: String)
    ensures
        r@ == api_base(),
{
    owned("https://api-v2.soundcloud.com")
}

fn num(n: u64) -> (r: String)
    ensures
        r@ == decimal(n as nat),
{
    string_of(&decimal_chars(n))
}

/// The request for an account's uploads.
pub fn tracks_url(user_id: &str, client_id: &str, limit: u64) -> (r: String)
    ensures
        r@ == tracks_url_spec(user_id@, client_id@, limit as nat),
{
    base().concat("/users/").concat(user_id).concat("/tracks?client_id=").concat(client_id).concat(
        "&limit=",
    ).concat(num(limit).as_str()).concat("&linked_partitioning=1")
}

/// The request for an account's likes.
pub fn likes_url(user_id: &str, client_id: &str, limit: u64) -> (r: String)
    ensures
        r@ == likes_url_spec(user_id@, client_id@, limit as nat),
{
    base().concat("/users/").concat(user_id).concat("/likes?client_id=").concat(client_id).concat(
        "&limit=",
    ).concat(num(limit).as_str()).concat("&linked_partitioning=1")
}

/// The request for one page of an account's followings.
pub fn followings_url(user_id: &str, client_id: &str, limit: u64, offset: u64) -> (r: String)
    ensures
        r@ == followings_url_spec(user_id@, client_id@, limit as nat, offset as nat),
{
    base().concat("/users/").concat(user_id).concat("/followings?client_id=").concat(client_id).concat(
        "&limit=",
    ).concat(num(limit).as_str()).concat("&offset=").concat(num(offset).as_str()).concat(
        "&linked_partitioning=1",
    )
}

/// The request for an account record.
pub fn user_url(user_id: &str, client_id: &str) -> (r: String)
    ensures
        r@ == user_url_spec(user_id@, client_id@),
{
    base().concat("/users/").concat(user_id).concat("?client_id=").concat(client_id)
}

/// The request for a track record.
pub fn track_url(track_id: &str, client_id: &str) -> (r: String)
    ensures
        r@ == track_url_spec(track_id@, client_id@),
{
    base().concat("/tracks/").concat(track_id).concat("?client_id=").concat(client_id)
}

/// The request that resolves a platform URL.
pub fn resolve_request_url(url: &str, client_id: &str) -> (r: String)
    ensures
        r@ == resolve_url_spec(url@, client_id@),
{
    base().concat("/resolve?url=").concat(url).concat("&client_id=").concat(client_id)
}

/// Most followings asked for in one page.
pub const FOLLOWINGS_PAGE: u64 = 200;

/// Paging through an account's followings.
#[derive(Clone, Copy, PartialEq, Eq, Structural, Debug)]
pub struct FollowingsPager {
    pub offset: u64,
    pub fetched: u64,
    /// The cap on followings, when one was given.
    pub max: Option<u64>,
    pub done: bool,
}

pub open spec fn cap_of(p: FollowingsPager) -> u64 {
    match p.max {
        Some(m) => m,
        None => u64::MAX,
    }
}

/// The page to ask for next: its size and offset; none once done or at the cap.
pub open spec fn next_page_spec(p: FollowingsPager) -> Option<(u64, u64)> {
    if p.done || p.fetched >= cap_of(p) {
        None
    } else {
        let left = (cap_of(p) - p.fetched) as u64;
        Some((if left < FOLLOWINGS_PAGE {
            left
        } else {
            FOLLOWINGS_PAGE
        }, p.offset))
    }
}

impl FollowingsPager {
    /// Paging from the start, up to `max` followings when given.
    pub fn new(max: Option<u64>) -> (r: Self)
        ensures
            r.offset == 0,
            r.fetched == 0,
            r.max == max,
            !r.done,
    {
        FollowingsPager { offset: 0, fetched: 0, max, done: false }
    }

    /// The size and offset of the page to ask for next.
    pub fn next_page(&self) -> (r: Option<(u64, u64)>)
        ensures
            r == next_page_spec(*self),
    {
        let cap = match self.max {
            Some(m) => m,
            None => u64::MAX,
        };
        if self.done || self.fetched >= cap {
            None
        } else {
            let left = cap - self.fetched;
            Some((if left < FOLLOWINGS_PAGE {
                left
            } else {
                FOLLOWINGS_PAGE
            }, self.offset))
        }
    }

    /// Takes in a page of `count` followings and its `next_href`: an empty page or one without
    /// a `next_href` ends the paging; the next offset is the one `next_href` names, else the
    /// current offset moved past this page.
    pub fn on_page(&mut self, count: u64, next_href: Option<&str>)
        ensures
            final(self).max == old(self).max,
            final(self).fetched == (if count == 0 {
                old(self).fetched
            } else {
                crate::scheduler::sat_add(old(self).fetched, count)
            }),
            final(self).done == (old(self).done || count == 0 || next_href is None),
            (count > 0 && next_href is Some) ==> final(self).offset == match offset_of(next_href->0@) {
                Some(o) => if o <= u64::MAX {
                    o as u64
                } else {
                    old(self).offset
                },
                None => crate::scheduler::sat_add(old(self).offset, count),
            },
    {
        if count == 0 {
            self.done = true;
            return;
        }
        self.fetched = self.fetched.saturating_add(count);
        match next_href {
            Some(h) => {
                match extract_offset_from_url(h) {
                    Some(o) => {
                        if o as u64 as usize == o {
                            self.offset = o as u64;
                        }
                    },
                    None => {
                        self.offset = self.offset.saturating_add(count);
                    },
                }
            },
            None => {
                self.done = true;
            },
        }
    }
}

/// Headroom added to an account's published track count when capping its uploads.
pub const UPLOAD_CAP_BUFFER: u64 = 5;

/// The uploads to ask for: the configured cap, lowered to the published track count plus
/// `buffer` when the account record gives one.
pub open spec fn upload_cap_spec(configured: u64, track_count: Option<u64>, buffer: u64) -> u64 {
    match track_count {
        Some(n) => {
            let c = crate::scheduler::sat_add(n, buffer);
            if c < configured {
                c
            } else {
                configured
            }
        },
        None => configured,
    }
}

/// How many uploads to ask an account for.
pub fn upload_cap(configured: u64, track_count: Option<u64>, buffer: u64) -> (r: u64)
    ensures
        r == upload_cap_spec(configured, track_count, buffer),
        r <= configured,
{
    match track_count {
        Some(n) => {
            let c = n.saturating_add(buffer);
            if c < configured {
                c
            } else {
                configured
            }
        },
        None => configured,
    }
}

} // verus!
