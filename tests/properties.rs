use archiver_webhook::config::{source_is_url, user_id_from_resolved, Config, ConfigError, ConfigOverrides, EnrollError, Users, following_ids};
use archiver_webhook::formats::{
    determine_extension_from_format, extract_available_formats, get_format_priority,
    sanitize_filename, sanitize_format_string, sort_by_priority, Transcoding,
};
use archiver_webhook::media::{check_download, transcoder_args, work_dir_name, FetchMode, MediaError, classify_resolve_failure, rendition_file_name, cover_file_name, data_file_name};
use archiver_webhook::persist::{PersistError, SaveAction, SaveOutcome, SaveProtocol};
use archiver_webhook::protocol::{
    add_client_id, classify_response, tracks_url, upload_cap, followings_url, CredentialCache, FollowingsPager,
    Outcome, RetryAction, RetryState, Scrape, ScrapeAction, UpstreamError,
};
use archiver_webhook::scheduler::{account_batches, console_title, increment_error_count, increment_new_tracks, increment_total_tracks, RunStats, Scheduler};
use archiver_webhook::store::TrackDatabase;
use archiver_webhook::upstream::{
    extract_offset_from_url, get_original_artwork_url, liked_raw_tracks, parse_track_user,
    track_from_details, tracks_from_listing, RawLike, RawTrack, RawUser,
};
use archiver_webhook::webhook::{
    build_track_embed, cap_description, format_duration, mime_type_for, parse_tags,
    select_attachments, Attachment,
};

fn s(x: &str) -> String {
    x.to_string()
}

fn raw(id: Option<u64>, title: Option<&str>) -> RawTrack {
    RawTrack {
        id,
        title: title.map(s),
        permalink_url: None,
        artwork_url: Some(s("https://i1.sndcdn.com/artworks-q-t500x500.jpg")),
        description: Some(s("d")),
        user: None,
        created_at: None,
        duration: Some(185_000),
        stream_url: None,
        download_url: None,
        playback_count: Some(3),
        likes_count: None,
        reposts_count: None,
        comment_count: None,
        genre: Some(s("House")),
        tag_list: Some(s("deep \"late night\" x")),
        downloadable: None,
        transcodings: vec![Transcoding {
            protocol: Some(s("hls")),
            mime_type: Some(s("audio/mp4")),
            quality: None,
            url: Some(s("https://r/h")),
        }],
    }
}

/// Drives a save against two in-memory files, with the outcome of each operation given.
fn run_save(target: Option<&str>, backup: Option<&str>, new: &str, outcomes: &[bool]) -> (SaveOutcome, Option<String>, Option<String>) {
    let mut t = target.map(s);
    let mut b = backup.map(s);
    let (mut p, mut a) = SaveProtocol::begin(t.is_some(), b.is_some());
    let mut k = 0;
    loop {
        let ok = if let SaveAction::Finish(r) = a {
            return (r, t, b);
        } else {
            let ok = outcomes.get(k).copied().unwrap_or(true);
            k += 1;
            ok
        };
        match a {
            SaveAction::CopyToBackup => {
                if ok {
                    b = t.clone()
                } else {
                    b = Some(s("garbage"))
                }
            }
            SaveAction::WriteTarget => {
                if ok {
                    t = Some(s(new))
                } else {
                    t = Some(s("partial"))
                }
            }
            SaveAction::RestoreFromBackup => {
                if ok {
                    t = b.clone()
                }
            }
            SaveAction::RemoveBackup => {
                if ok {
                    b = None
                }
            }
            SaveAction::Finish(_) => {}
        }
        let next = p.step(ok);
        p = next.0;
        a = next.1;
    }
}

#[test]
fn no_duplicate_announcements_across_ticks() {
    let mut db = TrackDatabase::new(s("t.json"));
    let ids = vec![s("1"), s("2"), s("2"), s("3")];
    let first = db.add_tracks(&ids);
    assert_eq!(first, vec![s("1"), s("2"), s("3")]);
    let second = db.add_tracks(&ids);
    assert!(second.is_empty());
}

#[test]
fn store_membership_only_grows() {
    let mut db = TrackDatabase::new(s("t.json"));
    db.add_tracks(&vec![s("a"), s("b")]);
    let before = db.get_all_tracks();
    db.add_track_with_discord_info("c", s("m"), None, None);
    db.initialize_with_tracks(&vec![s("a"), s("d")]);
    let after = db.get_all_tracks();
    assert!(before.iter().all(|x| after.contains(x)));
    assert_eq!(after.len(), 4);
}

#[test]
fn save_leaves_no_backup_and_keeps_previous_on_failure() {
    let (r, t, b) = run_save(Some("old"), None, "new", &[]);
    assert_eq!(r, SaveOutcome::Saved);
    assert_eq!(t, Some(s("new")));
    assert_eq!(b, None);

    let (r, t, b) = run_save(Some("old"), None, "new", &[true, false, true]);
    assert_eq!(r, SaveOutcome::Failed(PersistError::WriteFailed));
    assert_eq!(t, Some(s("old")));
    assert_eq!(b, Some(s("old")));

    let (r, t, b) = run_save(Some("old"), None, "new", &[true, false, false]);
    assert_eq!(r, SaveOutcome::Failed(PersistError::WriteFailed));
    assert_eq!(t, Some(s("partial")));
    assert_eq!(b, Some(s("old")));

    let (r, t, _) = run_save(Some("old"), None, "new", &[false]);
    assert_eq!(r, SaveOutcome::Failed(PersistError::BackupFailed));
    assert_eq!(t, Some(s("old")));

    let (r, t, b) = run_save(None, Some("stale"), "new", &[]);
    assert_eq!(r, SaveOutcome::Saved);
    assert_eq!(t, Some(s("new")));
    assert_eq!(b, None);

    let (r, _, b) = run_save(Some("old"), None, "new", &[true, true, false]);
    assert_eq!(r, SaveOutcome::Failed(PersistError::BackupNotRemoved));
    assert_eq!(b, Some(s("old")));
}

#[test]
fn priority_sort_is_deterministic() {
    let items = vec![
        (s("progressive/audio/mpeg/sq"), s("u1")),
        (s("hls/audio/ogg; codecs=\"opus\"/hq"), s("u2")),
        (s("hls/audio/mp4/sq"), s("u3")),
        (s("hls/audio/mpeg/sq"), s("u4")),
        (s("hls/audio/mp4/hq"), s("u5")),
    ];
    let a = sort_by_priority(&items);
    let b = sort_by_priority(&items);
    assert_eq!(a, b);
    let urls: Vec<&str> = a.iter().map(|p| p.1.as_str()).collect();
    assert_eq!(urls, vec!["u2", "u5", "u3", "u4", "u1"]);
}

#[test]
fn attachment_count_and_bytes_capped() {
    let many: Vec<Attachment> = (0..15).map(|i| Attachment { path: format!("p{}", i), name: format!("n{}", i), size: 1 }).collect();
    assert_eq!(select_attachments(&many).len(), 10);
    let big = vec![
        Attachment { path: s("a"), name: s("a"), size: 6 * 1024 * 1024 },
        Attachment { path: s("b"), name: s("b"), size: 3 * 1024 * 1024 },
        Attachment { path: s("c"), name: s("c"), size: 1024 * 1024 },
        Attachment { path: s("d"), name: s("d"), size: u64::MAX },
    ];
    let chosen = select_attachments(&big);
    let names: Vec<&str> = chosen.iter().map(|a| a.name.as_str()).collect();
    assert_eq!(names, vec!["c", "b"]);
    assert!(chosen.iter().map(|a| a.size).sum::<u64>() <= 8 * 1024 * 1024);
    assert!(select_attachments(&vec![]).is_empty());
}

#[test]
fn description_capped_with_ellipsis() {
    let long = "é".repeat(2500);
    let capped = cap_description(&long);
    assert_eq!(capped.chars().count(), 2003);
    assert!(capped.ends_with("..."));
    let exact = "x".repeat(2000);
    assert_eq!(cap_description(&exact), exact);
}

#[test]
fn latest_credential_wins() {
    let mut c = CredentialCache::new();
    assert_eq!(c.get_client_id(), None);
    c.install(s("first"));
    c.install(s("second"));
    assert_eq!(c.get_client_id(), Some(s("second")));
    let sc = Scrape { scripts: vec![s("https://a-v2.sndcdn.com/assets/1.js")], next: 1 };
    let (_, a) = sc.on_capture(Some(s("")));
    assert!(matches!(a, ScrapeAction::Failed));
}

#[test]
fn retry_gives_up_after_three_attempts() {
    let (mut st, a) = RetryState::begin();
    let mut sends = 1;
    assert_eq!(a, RetryAction::Send { delay_secs: 0 });
    let mut delays = vec![];
    loop {
        let (n, a) = st.on_outcome(Outcome::AuthRejected);
        st = n;
        match a {
            RetryAction::RefreshThenSend { delay_secs } | RetryAction::Send { delay_secs } => {
                sends += 1;
                delays.push(delay_secs);
            }
            RetryAction::GaveUp(e) => {
                assert_eq!(e, UpstreamError::UpstreamFailed);
                break;
            }
            RetryAction::Succeeded => panic!("no success expected"),
        }
    }
    assert_eq!(sends, 3);
    assert_eq!(delays, vec![2, 4]);
    let (_, a) = RetryState::begin().0.on_refresh_failed();
    assert_eq!(a, RetryAction::GaveUp(UpstreamError::ScrapeFailed));
}

#[test]
fn responses_classified() {
    assert_eq!(classify_response(200, true), Outcome::Success);
    assert_eq!(classify_response(204, false), Outcome::Failed);
    assert_eq!(classify_response(401, true), Outcome::AuthRejected);
    assert_eq!(classify_response(403, false), Outcome::AuthRejected);
    assert_eq!(classify_response(500, true), Outcome::Failed);
}

#[test]
fn format_ranks() {
    assert_eq!(get_format_priority("hls/audio/flac/hq"), 1);
    assert_eq!(get_format_priority("hls/audio/ogg; codecs=\"opus\"/hq"), 2);
    assert_eq!(get_format_priority("progressive/audio/mp3/hq"), 3);
    assert_eq!(get_format_priority("hls/audio/mp4/hq"), 4);
    assert_eq!(get_format_priority("hls/audio/x/hq"), 5);
    assert_eq!(get_format_priority("progressive/mp3"), 10);
    assert_eq!(get_format_priority("hls/opus/sq"), 11);
    assert_eq!(get_format_priority("hls/mp3/sq"), 12);
    assert_eq!(get_format_priority("hls/aac"), 13);
    assert_eq!(get_format_priority("hls/audio/mpegurl/sq"), 15);
    assert_eq!(get_format_priority("progressive/audio/mpeg/sq"), 20);
    assert_eq!(get_format_priority("transcoded/mp3"), 50);
    assert_eq!(get_format_priority("transcoded/x"), 50);
}

#[test]
fn extensions_and_names() {
    assert_eq!(determine_extension_from_format("progressive/audio/mpeg/sq"), "mp3");
    assert_eq!(determine_extension_from_format("hls/audio/ogg; codecs=\"opus\"/hq"), "opus");
    assert_eq!(determine_extension_from_format("hls/audio/ogg/sq"), "ogg");
    assert_eq!(determine_extension_from_format("hls/audio/mp4/sq"), "m4a");
    assert_eq!(determine_extension_from_format("x/audio/x-wav"), "wav");
    assert_eq!(determine_extension_from_format("progressive/mp3"), "mp3");
    assert_eq!(determine_extension_from_format("transcoded/mp3"), "mp3");
    assert_eq!(determine_extension_from_format("hls/audio/wav/hq"), "wav");
    assert_eq!(determine_extension_from_format("x/flac"), "flac");
    assert_eq!(determine_extension_from_format("hls/x"), "m4a");
    assert_eq!(determine_extension_from_format("x"), "audio");
    assert_eq!(sanitize_format_string("hls/audio/mp4; codecs=\"mp4a.40.2\"/hq"), "hls_audio_mp4__codecs_aac_hq");
    assert_eq!(sanitize_format_string("a:b*c"), "a-bc");
    assert_eq!(sanitize_format_string(&"x".repeat(60)).len(), 50);
    assert_eq!(sanitize_filename("a/b:c?d|e"), "a_b_c_d_e");
    assert_eq!(sanitize_filename(&"y".repeat(120)).len(), 100);
    assert_eq!(rendition_file_name("My/Song", "progressive/audio/mpeg/sq"), "My_Song_progressive_audio_mpeg_sq.mp3");
    assert_eq!(cover_file_name("T"), "T_cover.jpg");
    assert_eq!(data_file_name("T"), "T_data.json");
}

#[test]
fn renditions_extracted_in_rank_order() {
    let ts = vec![
        Transcoding { protocol: Some(s("hls")), mime_type: Some(s("audio/mpegurl")), quality: Some(s("sq")), url: Some(s("u0")) },
        Transcoding { protocol: Some(s("progressive")), mime_type: Some(s("audio/mpeg")), quality: None, url: Some(s("u1")) },
        Transcoding { protocol: None, mime_type: None, quality: Some(s("hq")), url: Some(s("u2")) },
        Transcoding { protocol: Some(s("hls")), mime_type: Some(s("audio/mp4")), quality: Some(s("sq")), url: None },
    ];
    let got = extract_available_formats(&ts);
    assert_eq!(got, vec![(s("unknown/unknown/hq"), s("u2")), (s("progressive/audio/mpeg/sq"), s("u1"))]);
}

#[test]
fn tags_parsed() {
    assert_eq!(parse_tags("rock \"hip hop\"  jazz"), vec![s("rock"), s("hip hop"), s("jazz")]);
    assert_eq!(parse_tags("a\\\"b c\\d"), vec![s("a\"b"), s("c\\d")]);
    assert!(parse_tags("   ").is_empty());
    assert!(parse_tags("\"\"").is_empty());
}

#[test]
fn durations_and_mime_types() {
    assert_eq!(format_duration(185_000), "3:05");
    assert_eq!(format_duration(0), "0:00");
    assert_eq!(format_duration(3_600_999), "60:00");
    assert_eq!(mime_type_for("a.mp3"), "audio/mpeg");
    assert_eq!(mime_type_for("a.b.opus"), "audio/opus");
    assert_eq!(mime_type_for("x.jpeg"), "image/jpeg");
    assert_eq!(mime_type_for("x.json"), "application/json");
    assert_eq!(mime_type_for(".mp3"), "application/octet-stream");
    assert_eq!(mime_type_for("noext"), "application/octet-stream");
}

#[test]
fn embed_built_from_track() {
    let t = track_from_details("42", raw(Some(42), Some("Title")));
    let e = build_track_embed(&t);
    assert_eq!(e.title, "Title");
    assert_eq!(e.description, "d");
    assert_eq!(e.thumbnail_url, "https://i1.sndcdn.com/artworks-q-original.jpg");
    assert_eq!(e.author_name, "Unknown Artist");
    let fields: Vec<(String, String, bool)> = e.fields.iter().map(|f| (f.name.clone(), f.value.clone(), f.inline)).collect();
    assert_eq!(
        fields,
        vec![
            (s("Duration"), s("3:05"), true),
            (s("Genre"), s("House"), true),
            (s("Tags"), s("deep, late night, x"), false),
        ]
    );
    assert_eq!(t.hls_url, Some(s("https://r/h")));
}

#[test]
fn artwork_and_offsets() {
    assert_eq!(get_original_artwork_url("https://i1/a-large.jpg"), "https://i1/a-original.jpg");
    assert_eq!(get_original_artwork_url("https://i1/a-t500x500.jpg"), "https://i1/a-original.jpg");
    assert_eq!(get_original_artwork_url("https://i1/a.png"), "https://i1/a.png");
    assert_eq!(extract_offset_from_url("https://x/f?limit=200&offset=400&linked=1"), Some(400));
    assert_eq!(extract_offset_from_url("https://x/f?offset=+7"), Some(7));
    assert_eq!(extract_offset_from_url("https://x/f?offset=abc&offset=3"), None);
    assert_eq!(extract_offset_from_url("https://x/f?limit=2"), None);
    assert_eq!(extract_offset_from_url("https://x/f"), None);
    assert_eq!(extract_offset_from_url("https://x/f?a=1?offset=5"), None);
}

#[test]
fn listings_deduplicated() {
    let got = tracks_from_listing(vec![raw(Some(5), Some("a")), raw(None, Some("b")), raw(Some(5), Some("c")), raw(Some(6), None)]);
    let ids: Vec<&str> = got.iter().map(|t| t.id.as_str()).collect();
    assert_eq!(ids, vec!["5", "6"]);
    assert_eq!(got[0].title, "a");
    assert_eq!(got[1].title, "Untitled");
    assert_eq!(got[0].artwork_url, Some(s("https://i1.sndcdn.com/artworks-q-t500x500.jpg")));
    let likes = liked_raw_tracks(vec![
        RawLike { kind: Some(s("like")), created_at: None, track: Some(raw(Some(1), None)) },
        RawLike { kind: Some(s("repost")), created_at: None, track: Some(raw(Some(2), None)) },
        RawLike { kind: Some(s("like")), created_at: None, track: None },
    ]);
    assert_eq!(likes.len(), 1);
    assert_eq!(likes[0].id, Some(1));
    let u = parse_track_user(Some(RawUser { id: Some(9), username: None, permalink_url: Some(s("p")), avatar_url: Some(s("a-large.jpg")) }));
    assert_eq!((u.id.as_str(), u.username.as_str(), u.avatar_url), ("9", "Unknown Artist", Some(s("a-original.jpg"))));
}

fn overrides() -> ConfigOverrides {
    ConfigOverrides {
        discord_webhook_url: None,
        log_level: None,
        poll_interval_sec: None,
        users_file: None,
        tracks_file: None,
        max_tracks_per_user: None,
        pagination_size: None,
        temp_dir: None,
        max_soundcloud_parallelism: None,
        max_discord_parallelism: None,
        max_processing_parallelism: None,
        scrape_user_likes: None,
        max_likes_per_user: None,
        auto_follow_source: None,
        auto_follow_interval: None,
        db_save_interval: None,
        db_save_tracks: None,
        show_ffmpeg_output: None,
        log_file: None,
    }
}

#[test]
fn configuration_defaults_and_validation() {
    let d = Config::default();
    assert_eq!((d.poll_interval_sec, d.max_tracks_per_user, d.db_save_tracks, d.auto_follow_interval), (60, 500, 50, 24));
    assert_eq!(d.users_file, "users.json");
    assert!(matches!(Config::from_overrides(overrides()), Err(ConfigError::MissingWebhookUrl)));
    let mut o = overrides();
    o.discord_webhook_url = Some(s(""));
    assert!(Config::from_overrides(o).is_err());
    let mut o = overrides();
    o.discord_webhook_url = Some(s("https://hook"));
    o.poll_interval_sec = Some(5);
    o.temp_dir = Some(Some(s("/tmp/x")));
    let c = Config::from_overrides(o).ok().unwrap();
    assert_eq!(c.discord_webhook_url, "https://hook");
    assert_eq!(c.poll_interval_sec, 5);
    assert_eq!(c.temp_dir, Some(s("/tmp/x")));
    assert_eq!(c.max_soundcloud_parallelism, 2);
    let mut c = c;
    assert!(!c.show_ffmpeg_output());
    c.set_show_ffmpeg_output(true);
    assert!(c.show_ffmpeg_output());
}

#[test]
fn auto_enrollment_appends_new_accounts_once() {
    let mut u = Users { users: vec![s("1"), s("2")] };
    let ids = following_ids(&vec![Some(2), None, Some(3), Some(3), Some(4)]);
    assert_eq!(ids, vec![s("2"), s("3"), s("3"), s("4")]);
    let added = u.add_new_followings(&ids);
    assert_eq!(added, vec![s("3"), s("4")]);
    assert_eq!(u.users, vec![s("1"), s("2"), s("3"), s("4")]);
    assert!(u.add_new_followings(&ids).is_empty());
    assert!(source_is_url("https://soundcloud.com/x"));
    assert!(!source_is_url("12345"));
    assert_eq!(user_id_from_resolved(Some(s("user")), Some(77)).ok(), Some(s("77")));
    assert_eq!(user_id_from_resolved(None, Some(1)).err(), Some(EnrollError::MissingKind));
    assert_eq!(user_id_from_resolved(Some(s("track")), Some(1)).err(), Some(EnrollError::NotAUser));
    assert_eq!(user_id_from_resolved(Some(s("user")), None).err(), Some(EnrollError::MissingUserId));
}

#[test]
fn scheduler_counters() {
    let mut sch = Scheduler::new();
    assert!(!sch.begin_tick(true, 2));
    assert!(sch.begin_tick(true, 2));
    assert_eq!(sch.follow_check_counter, 0);
    sch.account_done(3);
    assert!(!sch.end_tick(5, 10));
    sch.account_done(2);
    assert!(sch.end_tick(5, 10));
    assert_eq!((sch.db_save_counter, sch.tracks_since_last_save, sch.db_needs_saving), (0, 0, false));
    assert!(sch.end_tick(5, 1));
    assert_eq!(account_batches(5, 2), vec![(0, 2), (2, 4), (4, 5)]);
    assert_eq!(account_batches(3, 0), vec![(0, 1), (1, 2), (2, 3)]);
    assert!(account_batches(0, 2).is_empty());
    let mut st = RunStats::new();
    increment_total_tracks(&mut st, 3);
    increment_new_tracks(&mut st, 2);
    increment_error_count(&mut st);
    increment_total_tracks(&mut st, u64::MAX);
    assert_eq!((st.total_tracks, st.new_tracks, st.error_count), (2, 2, 1));
    assert_eq!(console_title(&st), "SCArchive Webhook | Tracks: 2 | New: 2 | Errors: 1");
}

#[test]
fn media_helpers() {
    assert_eq!(check_download(false, 5000), Err(MediaError::SubprocessFailed));
    assert_eq!(check_download(true, 1023), Err(MediaError::TooSmall));
    assert_eq!(check_download(true, 1024), Ok(()));
    assert_eq!(classify_resolve_failure(401), MediaError::AuthRequired);
    assert_eq!(classify_resolve_failure(404), MediaError::NotFound);
    assert_eq!(classify_resolve_failure(500), MediaError::UpstreamFailed);
    assert_eq!(transcoder_args(FetchMode::Copy, "in", "out"), vec![s("-i"), s("in"), s("-c"), s("copy"), s("-y"), s("out")]);
    assert_eq!(transcoder_args(FetchMode::Default, "in", "out"), vec![s("-i"), s("in"), s("-y"), s("out")]);
    assert_eq!(transcoder_args(FetchMode::Reencode, "in", "out").len(), 8);
    let w = work_dir_name();
    assert_eq!(w.len(), 46);
    assert!(w.starts_with("scarchive_"));
    assert_ne!(w, work_dir_name());
}

#[test]
fn scrape_reads_scripts_and_credential() {
    let html = "<script crossorigin src=\"https://a-v2.sndcdn.com/assets/0-a.js\"></script>\n<script crossorigin src=\"https://a-v2.sndcdn.com/assets/1-b.js\"></script>";
    let (sc, a) = Scrape::start(html);
    assert_eq!(sc.scripts, vec![s("https://a-v2.sndcdn.com/assets/0-a.js"), s("https://a-v2.sndcdn.com/assets/1-b.js")]);
    assert!(matches!(a, ScrapeAction::Fetch(ref u) if u == "https://a-v2.sndcdn.com/assets/0-a.js"));
    let (sc, a) = sc.on_script(Some("var x = 1;"));
    assert!(matches!(a, ScrapeAction::Fetch(ref u) if u == "https://a-v2.sndcdn.com/assets/1-b.js"));
    let (_, a) = sc.on_script(Some("e={client_id:\"AbC123\",env:1}"));
    assert!(matches!(a, ScrapeAction::Found(ref c) if c == "AbC123"));
    let (_, a) = Scrape::start("<html></html>");
    assert!(matches!(a, ScrapeAction::Failed));
}

#[test]
fn request_urls() {
    assert_eq!(add_client_id("https://x/a", "C"), "https://x/a?client_id=C");
    assert_eq!(add_client_id("https://x/a?b=1", "C"), "https://x/a?b=1&client_id=C");
    assert_eq!(tracks_url("7", "C", 50), "https://api-v2.soundcloud.com/users/7/tracks?client_id=C&limit=50&linked_partitioning=1");
    assert_eq!(followings_url("7", "C", 200, 400), "https://api-v2.soundcloud.com/users/7/followings?client_id=C&limit=200&offset=400&linked_partitioning=1");
    let mut p = FollowingsPager::new(Some(250));
    assert_eq!(p.next_page(), Some((200, 0)));
    p.on_page(200, Some("https://x/f?offset=200"));
    assert_eq!(p.next_page(), Some((50, 200)));
    p.on_page(50, Some("https://x/f?cursor=z"));
    assert_eq!(p.offset, 250);
    assert_eq!(p.next_page(), None);
    assert_eq!(upload_cap(500, Some(12), 5), 17);
    assert_eq!(upload_cap(10, Some(12), 5), 10);
    assert_eq!(upload_cap(500, None, 5), 500);
    assert_eq!(upload_cap(500, Some(u64::MAX), 5), 500);
    let mut q = FollowingsPager::new(None);
    q.on_page(0, None);
    assert_eq!(q.next_page(), None);
}

#[test]
fn store_lookups() {
    let mut db = TrackDatabase::new(s("t.json"));
    assert!(!db.has_track("1"));
    db.add_track_with_discord_info("1", s("m1"), Some(s("c")), Some(s("u")));
    db.add_tracks(&vec![s("2")]);
    assert!(db.has_track("1") && db.has_track("2"));
    assert_eq!(db.find_track_by_discord_id("m1"), Some(s("1")));
    assert_eq!(db.find_track_by_discord_id("m9"), None);
    assert!(db.get_discord_info("2").is_none());
    let (added, save) = db.add_tracks_and_save(&vec![s("2"), s("3")]);
    assert_eq!(added, vec![s("3")]);
    assert!(save);
    let (added, save) = db.add_tracks_and_save(&vec![s("3")]);
    assert!(added.is_empty() && !save);
    assert_eq!(db.initialize_with_tracks(&vec![s("1"), s("9")]), 1);
    assert_eq!(db.get_discord_info("1").unwrap().id, "m1");
    assert!(db.has_track("9"));
}
