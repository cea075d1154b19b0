use vstd::prelude::*;
use crate::text::{owned, str_contains, texts, string_of};
use crate::numtext::{decimal, decimal_chars};
use crate::store::contains_text;
use crate::upstream::opt_view;

verus! {

/// Seconds between polls.
pub fn default_poll_interval() -> (r: u64)
    ensures
        r == 60,
{
    60
}

/// Where the watched accounts are kept.
pub fn default_users_file() -> (r: String)
    ensures
        r@ == "users.json"@,
{
    owned("users.json")
}

/// Where the known tracks are kept.
pub fn default_tracks_file() -> (r: String)
    ensures
        r@ == "tracks.json"@,
{
    owned("tracks.json")
}

/// Most uploads fetched per account and poll.
pub fn default_max_tracks_per_user() -> (r: usize)
    ensures
        r == 500,
{
    500
}

/// Page size hint for upstream listings.
pub fn default_pagination_size() -> (r: usize)
    ensures
        r == 50,
{
    50
}

/// Log level.
pub fn default_log_level() -> (r: String)
    ensures
        r@ == "info"@,
{
    owned("info")
}

/// Upstream calls in flight at once.
pub fn default_max_soundcloud_parallelism() -> (r: usize)
    ensures
        r == 2,
{
    2
}

/// Webhook posts in flight at once.
pub fn default_max_discord_parallelism() -> (r: usize)
    ensures
        r == 4,
{
    4
}

/// Media pipelines running at once.
pub fn default_max_processing_parallelism() -> (r: usize)
    ensures
        r == 4,
{
    4
}

/// Whether likes are watched too.
pub fn default_scrape_user_likes() -> (r: bool)
    ensures
        r == false,
{
    false
}

/// Most likes fetched per account and poll.
pub fn default_max_likes_per_user() -> (r: usize)
    ensures
        r == 500,
{
    500
}

/// Polls between two auto-enrollment runs.
pub fn default_auto_follow_interval() -> (r: usize)
    ensures
        r == 24,
{
    24
}

/// Polls after which the store is saved regardless of new tracks.
pub fn default_db_save_interval() -> (r: usize)
    ensures
        r == 1,
{
    1
}

/// New tracks after which the store is saved.
pub fn default_db_save_tracks() -> (r: usize)
    ensures
        r == 50,
{
    50
}

/// Whether the transcoder's output is shown.
pub fn default_show_ffmpeg_output() -> (r: bool)
    ensures
        r == false,
{
    false
}

/// Log file.
pub fn default_log_file() -> (r: String)
    ensures
        r@ == "latest.log"@,
{
    owned("latest.log")
}

/// The archiver's settings.
pub struct Config {
    pub discord_webhook_url: String,
    pub log_level: String,
    pub poll_interval_sec: u64,
    pub users_file: String,
    pub tracks_file: String,
    pub max_tracks_per_user: usize,
    pub pagination_size: usize,
    pub temp_dir: Option<String>,
    pub max_soundcloud_parallelism: usize,
    pub max_discord_parallelism: usize,
    pub max_processing_parallelism: usize,
    pub scrape_user_likes: bool,
    pub max_likes_per_user: usize,
    pub auto_follow_source: Option<String>,
    pub auto_follow_interval: usize,
    pub db_save_interval: usize,
    pub db_save_tracks: usize,
    pub show_ffmpeg_output: bool,
    pub log_file: String,
}

/// The settings when nothing is configured.
pub open spec fn is_default_config(c: Config) -> bool {
    &&& c.discord_webhook_url@ == Seq::<char>::empty()
    &&& c.log_level@ == "info"@
    &&& c.poll_interval_sec == 60
    &&& c.users_file@ == "users.json"@
    &&& c.tracks_file@ == "tracks.json"@
    &&& c.max_tracks_per_user == 500
    &&& c.pagination_size == 50
    &&& c.temp_dir is None
    &&& c.max_soundcloud_parallelism == 2
    &&& c.max_discord_parallelism == 4
    &&& c.max_processing_parallelism == 4
    &&& c.scrape_user_likes == false
    &&& c.max_likes_per_user == 500
    &&& c.auto_follow_source is None
    &&& c.auto_follow_interval == 24
    &&& c.db_save_interval == 1
    &&& c.db_save_tracks == 50
    &&& c.show_ffmpeg_output == false
    &&& c.log_file@ == "latest.log"@
}

impl Default for Config {
    fn default() -> (c: Self)
        ensures
            is_default_config(c),
    {
        Config {
            discord_webhook_url: String::new(),
            log_level: default_log_level(),
            poll_interval_sec: default_poll_interval(),
            users_file: default_users_file(),
            tracks_file: default_tracks_file(),
            max_tracks_per_user: default_max_tracks_per_user(),
            pagination_size: default_pagination_size(),
            temp_dir: None,
            max_soundcloud_parallelism: default_max_soundcloud_parallelism(),
            max_discord_parallelism: default_max_discord_parallelism(),
            max_processing_parallelism: default_max_processing_parallelism(),
            scrape_user_likes: default_scrape_user_likes(),
            max_likes_per_user: default_max_likes_per_user(),
            auto_follow_source: None,
            auto_follow_interval: default_auto_follow_interval(),
            db_save_interval: default_db_save_interval(),
            db_save_tracks: default_db_save_tracks(),
            show_ffmpeg_output: default_show_ffmpeg_output(),
            log_file: default_log_file(),
        }
    }
}

/// The options a configuration document sets, each absent when the document does not set it
/// (or sets it with the wrong type). For the two nullable options, `Some(None)` is an explicit
/// null.
pub struct ConfigOverrides {
    pub discord_webhook_url: Option<String>,
    pub log_level: Option<String>,
    pub poll_interval_sec: Option<u64>,
    pub users_file: Option<String>,
    pub tracks_file: Option<String>,
    pub max_tracks_per_user: Option<usize>,
    pub pagination_size: Option<usize>,
    pub temp_dir: Option<Option<String>>,
    pub max_soundcloud_parallelism: Option<usize>,
    pub max_discord_parallelism: Option<usize>,
    pub max_processing_parallelism: Option<usize>,
    pub scrape_user_likes: Option<bool>,
    pub max_likes_per_user: Option<usize>,
    pub auto_follow_source: Option<Option<String>>,
    pub auto_follow_interval: Option<usize>,
    pub db_save_interval: Option<usize>,
    pub db_save_tracks: Option<usize>,
    pub show_ffmpeg_output: Option<bool>,
    pub log_file: Option<String>,
}

/// Why a configuration was refused.
#[derive(Clone, Copy, PartialEq, Eq, Structural, Debug)]
pub enum ConfigError {
    /// The webhook endpoint is missing or empty.
    MissingWebhookUrl,
}

pub open spec fn text_or(o: Option<String>, d: Seq<char>) -> Seq<char> {
    match o {
        Some(s) => s@,
        None => d,
    }
}

pub open spec fn value_or<T>(o: Option<T>, d: T) -> T {
    match o {
        Some(v) => v,
        None => d,
    }
}

pub open spec fn nullable_or(o: Option<Option<String>>) -> Option<Seq<char>> {
    match o {
        Some(v) => opt_view(v),
        None => None,
    }
}

/// The settings a document gives: each option it sets, the default for the others.
pub open spec fn configured(c: Config, o: ConfigOverrides) -> bool {
    &&& c.discord_webhook_url@ == text_or(o.discord_webhook_url, Seq::empty())
    &&& c.log_level@ == text_or(o.log_level, "info"@)
    &&& c.poll_interval_sec == value_or(o.poll_interval_sec, 60)
    &&& c.users_file@ == text_or(o.users_file, "users.json"@)
    &&& c.tracks_file@ == text_or(o.tracks_file, "tracks.json"@)
    &&& c.max_tracks_per_user == value_or(o.max_tracks_per_user, 500)
    &&& c.pagination_size == value_or(o.pagination_size, 50)
    &&& opt_view(c.temp_dir) == nullable_or(o.temp_dir)
    &&& c.max_soundcloud_parallelism == value_or(o.max_soundcloud_parallelism, 2)
    &&& c.max_discord_parallelism == value_or(o.max_discord_parallelism, 4)
    &&& c.max_processing_parallelism == value_or(o.max_processing_parallelism, 4)
    &&& c.scrape_user_likes == value_or(o.scrape_user_likes, false)
    &&& c.max_likes_per_user == value_or(o.max_likes_per_user, 500)
    &&& opt_view(c.auto_follow_source) == nullable_or(o.auto_follow_source)
    &&& c.auto_follow_interval == value_or(o.auto_follow_interval, 24)
    &&& c.db_save_interval == value_or(o.db_save_interval, 1)
    &&& c.db_save_tracks == value_or(o.db_save_tracks, 50)
    &&& c.show_ffmpeg_output == value_or(o.show_ffmpeg_output, false)
    &&& c.log_file@ == text_or(o.log_file, "latest.log"@)
}

fn pick_text(o: Option<String>, d: String) -> (r: String)
    ensures
        r@ == text_or(o, d@),
{
    match o {
        Some(s) => s,
        None => d,
    }
}

fn pick_nullable(o: Option<Option<String>>) -> (r: Option<String>)
    ensures
        opt_view(r) == nullable_or(o),
{
    match o {
        Some(v) => v,
        None => None,
    }
}

impl Config {
    /// Whether the transcoder's output is shown.
    pub fn show_ffmpeg_output(&self) -> (r: bool)
        ensures
            r == self.show_ffmpeg_output,
    {
        self.show_ffmpeg_output
    }

    /// Sets whether the transcoder's output is shown.
    pub fn set_show_ffmpeg_output(&mut self, value: bool)
        ensures
            *final(self) == (Config { show_ffmpeg_output: value, ..*old(self) }),
    {
        self.show_ffmpeg_output = value;
    }

    /// The settings a configuration document gives, over the defaults. A document without a
    /// webhook endpoint is refused.
    pub fn from_overrides(o: ConfigOverrides) -> (r: Result<Config, ConfigError>)
        ensures
            r is Err <==> text_or(o.discord_webhook_url, Seq::empty()).len() == 0,
            r matches Err(e) ==> e == ConfigError::MissingWebhookUrl,
            r matches Ok(c) ==> configured(c, o),
    {
        let d = Config::default();
        let ghost og = o;
        let c = Config {
            discord_webhook_url: pick_text(o.discord_webhook_url, d.discord_webhook_url),
            log_level: pick_text(o.log_level, d.log_level),
            poll_interval_sec: match o.poll_interval_sec {
                Some(v) => v,
                None => d.poll_interval_sec,
            },
            users_file: pick_text(o.users_file, d.users_file),
            tracks_file: pick_text(o.tracks_file, d.tracks_file),
            max_tracks_per_user: match o.max_tracks_per_user {
                Some(v) => v,
                None => d.max_tracks_per_user,
            },
            pagination_size: match o.pagination_size {
                Some(v) => v,
                None => d.pagination_size,
            },
            temp_dir: pick_nullable(o.temp_dir),
            max_soundcloud_parallelism: match o.max_soundcloud_parallelism {
                Some(v) => v,
                None => d.max_soundcloud_parallelism,
            },
            max_discord_parallelism: match o.max_discord_parallelism {
                Some(v) => v,
                None => d.max_discord_parallelism,
            },
            max_processing_parallelism: match o.max_processing_parallelism {
                Some(v) => v,
                None => d.max_processing_parallelism,
            },
            scrape_user_likes: match o.scrape_user_likes {
                Some(v) => v,
                None => d.scrape_user_likes,
            },
            max_likes_per_user: match o.max_likes_per_user {
                Some(v) => v,
                None => d.max_likes_per_user,
            },
            auto_follow_source: pick_nullable(o.auto_follow_source),
            auto_follow_interval: match o.auto_follow_interval {
                Some(v) => v,
                None => d.auto_follow_interval,
            },
            db_save_interval: match o.db_save_interval {
                Some(v) => v,
                None => d.db_save_interval,
            },
            db_save_tracks: match o.db_save_tracks {
                Some(v) => v,
                None => d.db_save_tracks,
            },
            show_ffmpeg_output: match o.show_ffmpeg_output {
                Some(v) => v,
                None => d.show_ffmpeg_output,
            },
            log_file: pick_text(o.log_file, d.log_file),
        };
        if c.discord_webhook_url.as_str().unicode_len() == 0 {
            Err(ConfigError::MissingWebhookUrl)
        } else {
            Ok(c)
        }
    }
}

/// The watched accounts.
pub struct Users {
    pub users: Vec<String>,
}

/// The ids of `ids` not in `have`, each once, in order of first appearance.
pub open spec fn new_texts(have: Seq<Seq<char>>, ids: Seq<Seq<char>>) -> Seq<Seq<char>>
    decreases ids.len(),
{
    if ids.len() == 0 {
        Seq::empty()
    } else {
        let a = new_texts(have, ids.drop_last());
        let x = ids.last();
        if have.contains(x) || a.contains(x) {
            a
        } else {
            a.push(x)
        }
    }
}

/// Whether an auto-enrollment source is a URL to resolve rather than an account id.
pub open spec fn is_url_source(s: Seq<char>) -> bool {
    crate::text::has_sub(s, "soundcloud.com"@) || crate::text::has_sub(s, "http"@)
}

/// Why the auto-enrollment source could not be turned into an account id.
#[derive(Clone, Copy, PartialEq, Eq, Structural, Debug)]
pub enum EnrollError {
    /// The resolved record has no kind.
    MissingKind,
    /// The resolved record is not a user.
    NotAUser,
    /// The resolved user record has no numeric id.
    MissingUserId,
}

/// The account id a resolved record names, from its `kind` and `id` fields.
pub open spec fn resolved_user_id(kind: Option<Seq<char>>, id: Option<u64>) -> Result<Seq<char>, EnrollError> {
    match kind {
        None => Err(EnrollError::MissingKind),
        Some(k) => if k != "user"@ {
            Err(EnrollError::NotAUser)
        } else {
            match id {
                Some(x) => Ok(decimal(x as nat)),
                None => Err(EnrollError::MissingUserId),
            }
        },
    }
}

/// Whether an auto-enrollment source is a URL to resolve first.
pub fn source_is_url(source: &str) -> (r: bool)
    ensures
        r == is_url_source(source@),
{
    str_contains(source, "soundcloud.com") || str_contains(source, "http")
}

/// The account id of a record that a source URL resolved to.
pub fn user_id_from_resolved(kind: Option<String>, id: Option<u64>) -> (r: Result<String, EnrollError>)
    ensures
        match (r, resolved_user_id(opt_view(kind), id)) {
            (Ok(a), Ok(b)) => a@ == b,
            (Err(a), Err(b)) => a == b,
            _ => false,
        },
{
    match kind {
        None => Err(EnrollError::MissingKind),
        Some(k) => {
            if !crate::text::same_text(k.as_str(), "user") {
                Err(EnrollError::NotAUser)
            } else {
                match id {
                    Some(x) => Ok(string_of(&decimal_chars(x))),
                    None => Err(EnrollError::MissingUserId),
                }
            }
        },
    }
}

/// The account ids of a followings listing: the numeric id of each record that has one.
pub open spec fn following_ids_of(ids: Seq<Option<u64>>) -> Seq<Seq<char>>
    decreases ids.len(),
{
    if ids.len() == 0 {
        Seq::empty()
    } else {
        let a = following_ids_of(ids.drop_last());
        match ids.last() {
            Some(x) => a.push(decimal(x as nat)),
            None => a,
        }
    }
}

/// The account ids of a followings listing, given each record's numeric id when it has one.
pub fn following_ids(ids: &Vec<Option<u64>>) -> (r: Vec<String>)
    ensures
        texts(r@) == following_ids_of(ids@),
{
    let mut out: Vec<String> = Vec::new();
    let mut i: usize = 0;
    while i < ids.len()
        invariant
            i <= ids@.len(),
            texts(out@) == following_ids_of(ids@.subrange(0, i as int)),
        decreases ids@.len() - i,
    {
        assert(ids@.subrange(0, i + 1).drop_last() =~= ids@.subrange(0, i as int));
        match ids[i] {
            Some(x) => {
                let ghost o0 = out@;
                out.push(string_of(&decimal_chars(x)));
                assert(texts(out@) =~= texts(o0).push(decimal(x as nat)));
            },
            None => {},
        }
        i = i + 1;
    }
    assert(ids@.subrange(0, i as int) =~= ids@);
    out
}

impl Users {
    /// Appends the followed accounts not yet watched, each once, and returns them; accounts
    /// already watched stay, none is removed. The caller saves the list when some were added.
    pub fn add_new_followings(&mut self, following: &Vec<String>) -> (r: Vec<String>)
        ensures
            texts(r@) == new_texts(texts(old(self).users@), texts(following@)),
            texts(final(self).users@) == texts(old(self).users@) + texts(r@),
    {
        let ghost have = texts(self.users@);
        let ghost ids = texts(following@);
        let mut added: Vec<String> = Vec::new();
        let mut i: usize = 0;
        while i < following.len()
            invariant
                have == texts(old(self).users@),
                ids == texts(following@),
                i <= following@.len(),
                texts(added@) == new_texts(have, ids.subrange(0, i as int)),
                texts(self.users@) == have + texts(added@),
            decreases following@.len() - i,
        {
            assert(ids.subrange(0, i + 1).drop_last() =~= ids.subrange(0, i as int));
            assert(ids.subrange(0, i + 1).last() == following@[i as int]@);
            let id = &following[i];
            let in_list = contains_text(&self.users, id.as_str());
            let in_added = contains_text(&added, id.as_str());
            proof {
                if !in_list {
                    assert forall|k: int| 0 <= k < have.len() implies have[k] != id@ by {
                        assert(texts(self.users@)[k] == have[k]);
                    }
                    assert forall|k: int| 0 <= k < texts(added@).len() implies texts(added@)[k]
                        != id@ by {
                        assert(texts(self.users@)[have.len() + k] == texts(added@)[k]);
                    }
                }
                if in_list && !in_added {
                    let k = choose|k: int| 0 <= k < texts(self.users@).len() && texts(self.users@)[k] == id@;
                    if k >= have.len() {
                        assert(texts(added@)[k - have.len()] == id@);
                    } else {
                        assert(have[k] == id@);
                    }
                }
            }
            if !in_list {
                let ghost a0 = texts(added@);
                let ghost u0 = texts(self.users@);
                added.push(id.clone());
                self.users.push(id.clone());
                assert(texts(added@) =~= a0.push(id@));
                assert(texts(self.users@) =~= u0.push(id@));
            }
            i = i + 1;
        }
        assert(ids.subrange(0, i as int) =~= ids);
        added
    }
}

} // verus!
