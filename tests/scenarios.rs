use archiver_webhook::formats::Transcoding;
use archiver_webhook::media::{
    classify_resolve_failure, FetchMode, MediaAction, MediaError, MediaEvent, MediaPipeline,
};
use archiver_webhook::protocol::{CredentialCache, Outcome, RetryAction, RetryState};
use archiver_webhook::store::TrackDatabase;
use archiver_webhook::upstream::{Track, TrackUser};
use archiver_webhook::webhook::{select_attachments, Attachment};

const MIB: u64 = 1024 * 1024;

fn rendition(protocol: &str, mime: &str, quality: &str, url: &str) -> Transcoding {
    Transcoding {
        protocol: Some(protocol.to_string()),
        mime_type: Some(mime.to_string()),
        quality: Some(quality.to_string()),
        url: Some(url.to_string()),
    }
}

fn track(id: &str, title: &str, transcodings: Vec<Transcoding>) -> Track {
    Track {
        id: id.to_string(),
        title: title.to_string(),
        permalink_url: format!("https://soundcloud.com/a/{}", id),
        artwork_url: Some("https://i1.sndcdn.com/artworks-x-large.jpg".to_string()),
        description: None,
        user: TrackUser {
            id: "1".to_string(),
            username: "A".to_string(),
            permalink_url: "https://soundcloud.com/a".to_string(),
            avatar_url: None,
        },
        created_at: "2024-01-01T00:00:00Z".to_string(),
        duration: 61000,
        stream_url: None,
        hls_url: None,
        download_url: None,
        playback_count: None,
        likes_count: None,
        reposts_count: None,
        comment_count: None,
        genre: None,
        tag_list: None,
        downloadable: None,
        transcodings,
    }
}

fn finished(a: MediaAction) -> Vec<(String, String)> {
    match a {
        MediaAction::Finished(files) => files,
        _ => panic!("pipeline not finished"),
    }
}

/// Runs one tick of the per-account routine against fixtures: new ids, then for each a
/// successful announcement linked with `message_id`.
fn tick(db: &mut TrackDatabase, listing: &Vec<Track>, message_id: &str) -> usize {
    let new_ids = db.new_track_ids(listing);
    for id in &new_ids {
        db.add_track_with_discord_info(id, message_id.to_string(), Some("c1".to_string()), Some("A".to_string()));
    }
    new_ids.len()
}

#[test]
fn empty_state_one_upload() {
    let t1 = track("T1", "Song", vec![rendition("progressive", "audio/mpeg", "sq", "https://r/1")]);
    let mut db = TrackDatabase::new("tracks.json".to_string());
    let new_ids = db.new_track_ids(&vec![track("T1", "Song", vec![])]);
    assert_eq!(new_ids, vec!["T1".to_string()]);

    let (mut p, a) = MediaPipeline::start(&t1);
    match a {
        MediaAction::Resolve(u) => assert_eq!(u, "https://r/1"),
        _ => panic!("expected a resolve"),
    }
    let a = p.step(MediaEvent::Resolved(Some("https://cdn/1.mp3".to_string())));
    match &a {
        MediaAction::Fetch { input, output, .. } => {
            assert_eq!(input, "https://cdn/1.mp3");
            assert_eq!(output, "Song_progressive_audio_mpeg_sq.mp3");
        }
        _ => panic!("expected a fetch"),
    }
    let files = finished(p.step(MediaEvent::Fetched { ok: true, size: 2 * MIB }));
    assert_eq!(files, vec![("progressive/audio/mpeg/sq".to_string(), "Song_progressive_audio_mpeg_sq.mp3".to_string())]);

    let offered = vec![
        Attachment { path: "w/Song_progressive_audio_mpeg_sq.mp3".to_string(), name: files[0].1.clone(), size: 2 * MIB },
        Attachment { path: "w/Song_cover.jpg".to_string(), name: "Song_cover.jpg".to_string(), size: 50_000 },
        Attachment { path: "w/Song_data.json".to_string(), name: "Song_data.json".to_string(), size: 4_000 },
    ];
    assert_eq!(select_attachments(&offered).len(), 3);

    db.add_track_with_discord_info("T1", "m1".to_string(), Some("c1".to_string()), Some("A".to_string()));
    let link = db.get_discord_info("T1").unwrap();
    assert_eq!(link.id, "m1");
    assert_eq!(db.get_all_tracks(), vec!["T1".to_string()]);
}

#[test]
fn second_tick_no_changes() {
    let listing = vec![track("T1", "Song", vec![])];
    let mut db = TrackDatabase::new("tracks.json".to_string());
    assert_eq!(tick(&mut db, &listing, "m1"), 1);
    assert_eq!(tick(&mut db, &listing, "m2"), 0);
    assert_eq!(db.get_discord_info("T1").unwrap().id, "m1");
}

#[test]
fn blacklisted_premium_and_valid_renditions() {
    let t = track(
        "T3",
        "Mix",
        vec![
            rendition("hls", "audio/mpegurl", "sq", "https://r/blocked"),
            rendition("hls", "audio/mp4", "hq", "https://r/premium"),
            rendition("progressive", "audio/mpeg", "sq", "https://r/ok"),
        ],
    );
    let (mut p, a) = MediaPipeline::start(&t);
    match a {
        MediaAction::Resolve(u) => assert_eq!(u, "https://r/premium"),
        _ => panic!("expected a resolve"),
    }
    assert_eq!(classify_resolve_failure(403), MediaError::AuthRequired);
    match p.step(MediaEvent::Resolved(None)) {
        MediaAction::Resolve(u) => assert_eq!(u, "https://r/ok"),
        _ => panic!("expected the next rendition"),
    }
    match p.step(MediaEvent::Resolved(Some("https://cdn/ok.mp3".to_string()))) {
        MediaAction::Fetch { .. } => {}
        _ => panic!("expected a fetch"),
    }
    let files = finished(p.step(MediaEvent::Fetched { ok: true, size: 3 * MIB }));
    assert_eq!(files.len(), 1);
    assert_eq!(files[0].0, "progressive/audio/mpeg/sq");
}

#[test]
fn attachment_caps() {
    let sizes: Vec<u64> = vec![
        9 * MIB,
        7 * MIB,
        5 * MIB,
        4 * MIB,
        3 * MIB,
        2 * MIB,
        MIB + MIB / 2,
        MIB,
        838_861,
        MIB / 2,
        314_573,
        104_858,
    ];
    let files: Vec<Attachment> = sizes
        .iter()
        .enumerate()
        .map(|(i, s)| Attachment { path: format!("f{}", i), name: format!("f{}.mp3", i), size: *s })
        .collect();
    let chosen = select_attachments(&files);
    assert!(chosen.len() <= 10);
    assert_eq!(chosen.len(), 7);
    let total: u64 = chosen.iter().map(|a| a.size).sum();
    assert!(total <= 8 * MIB);
    assert!(chosen.iter().all(|a| a.size != 9 * MIB));
    let got: Vec<u64> = chosen.iter().map(|a| a.size).collect();
    assert_eq!(got, vec![104_858, 314_573, MIB / 2, 838_861, MIB, MIB + MIB / 2, 2 * MIB]);
}

#[test]
fn auth_rotation_mid_tick() {
    let mut cache = CredentialCache::new();
    cache.install("old".to_string());
    let mut refreshes = 0;
    let (s, a) = RetryState::begin();
    assert_eq!(a, RetryAction::Send { delay_secs: 0 });
    let (s, a) = s.on_outcome(Outcome::AuthRejected);
    if let RetryAction::RefreshThenSend { .. } = a {
        refreshes += 1;
        cache.install("fresh".to_string());
    } else {
        panic!("expected a refresh");
    }
    let (_, a) = s.on_outcome(Outcome::Success);
    assert_eq!(a, RetryAction::Succeeded);
    assert_eq!(refreshes, 1);
    assert_eq!(cache.get_client_id(), Some("fresh".to_string()));
}

#[test]
fn crash_between_save_points() {
    let mut db = TrackDatabase::new("tracks.json".to_string());
    let first: Vec<String> = vec!["1".to_string(), "2".to_string(), "3".to_string()];
    db.add_tracks(&first);
    let saved: Vec<(String, Option<archiver_webhook::store::DiscordMessage>)> =
        db.get_all_tracks().into_iter().map(|id| (id, None)).collect();
    db.add_tracks(&vec!["4".to_string(), "5".to_string()]);
    let restarted = TrackDatabase::from_entries("tracks.json".to_string(), saved);
    let mut ids = restarted.get_all_tracks();
    ids.sort();
    assert_eq!(ids, first);
    let listing = vec![track("4", "a", vec![]), track("5", "b", vec![]), track("1", "c", vec![])];
    assert_eq!(restarted.new_track_ids(&listing), vec!["4".to_string(), "5".to_string()]);
}

#[test]
fn fallback_path_ends_in_reencode() {
    let mut t = track("T9", "Late", vec![]);
    t.hls_url = Some("https://r/hls".to_string());
    t.stream_url = Some("https://r/stream".to_string());
    let (mut p, a) = MediaPipeline::start(&t);
    assert!(matches!(a, MediaAction::Resolve(ref u) if u == "https://r/hls"));
    let a = p.step(MediaEvent::Resolved(Some("https://cdn/h.m3u8".to_string())));
    assert!(matches!(a, MediaAction::Resolve(ref u) if u == "https://r/stream"));
    let a = p.step(MediaEvent::Resolved(Some("https://cdn/s.mp3".to_string())));
    match &a {
        MediaAction::Fetch { input, output, mode } => {
            assert_eq!((input.as_str(), output.as_str(), *mode), ("https://cdn/h.m3u8", "Late_hls.m4a", FetchMode::Copy));
        }
        _ => panic!("expected the HLS copy"),
    }
    let a = p.step(MediaEvent::Fetched { ok: false, size: 0 });
    assert!(matches!(a, MediaAction::Fetch { mode: FetchMode::Default, .. }));
    let a = p.step(MediaEvent::Fetched { ok: false, size: 0 });
    match &a {
        MediaAction::Fetch { output, mode, .. } => assert_eq!((output.as_str(), *mode), ("Late_stream.mp3", FetchMode::Copy)),
        _ => panic!("expected the stream copy"),
    }
    let a = p.step(MediaEvent::Fetched { ok: true, size: 500 });
    match &a {
        MediaAction::Fetch { input, output, mode } => {
            assert_eq!((input.as_str(), output.as_str(), *mode), ("https://cdn/h.m3u8", "Late.mp3", FetchMode::Reencode));
        }
        _ => panic!("expected the re-encode"),
    }
    let files = finished(p.step(MediaEvent::Fetched { ok: true, size: 4096 }));
    assert_eq!(files, vec![("transcoded/mp3".to_string(), "Late.mp3".to_string())]);
}

#[test]
fn failed_copy_retried_with_default_codecs() {
    let t = track("T8", "Q", vec![rendition("hls", "audio/ogg; codecs=\"opus\"", "sq", "https://r/o")]);
    let (mut p, _) = MediaPipeline::start(&t);
    let a = p.step(MediaEvent::Resolved(Some("https://cdn/o".to_string())));
    assert!(matches!(a, MediaAction::Fetch { mode: FetchMode::Copy, .. }));
    let a = p.step(MediaEvent::Fetched { ok: false, size: 0 });
    match &a {
        MediaAction::Fetch { input, output, mode } => {
            assert_eq!((input.as_str(), output.as_str(), *mode), ("https://cdn/o", "Q_hls_audio_ogg__codecs_opus_sq.opus", FetchMode::Default));
        }
        _ => panic!("expected a retry"),
    }
    let files = finished(p.step(MediaEvent::Fetched { ok: true, size: 1024 }));
    assert_eq!(files.len(), 1);
}

#[test]
fn every_obtained_rendition_listed_best_first() {
    let t = track(
        "T7",
        "Two",
        vec![
            rendition("progressive", "audio/mpeg", "sq", "https://r/p"),
            rendition("hls", "audio/ogg; codecs=\"opus\"", "hq", "https://r/o"),
            rendition("hls", "audio/mp4", "sq", "https://r/m"),
        ],
    );
    let (mut p, a) = MediaPipeline::start(&t);
    assert!(matches!(a, MediaAction::Resolve(ref u) if u == "https://r/o"));
    p.step(MediaEvent::Resolved(Some("https://cdn/o".to_string())));
    let a = p.step(MediaEvent::Fetched { ok: true, size: 5000 });
    assert!(matches!(a, MediaAction::Resolve(ref u) if u == "https://r/m"));
    p.step(MediaEvent::Resolved(Some("https://cdn/m".to_string())));
    let a = p.step(MediaEvent::Fetched { ok: true, size: 100 });
    assert!(matches!(a, MediaAction::Resolve(ref u) if u == "https://r/p"));
    p.step(MediaEvent::Resolved(Some("https://cdn/p".to_string())));
    let files = finished(p.step(MediaEvent::Fetched { ok: true, size: 9000 }));
    let tags: Vec<&str> = files.iter().map(|f| f.0.as_str()).collect();
    assert_eq!(tags, vec!["hls/audio/ogg; codecs=\"opus\"/hq", "progressive/audio/mpeg/sq"]);
}
