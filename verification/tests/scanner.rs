use subsonic::scanner::{
    audio_extension, content_type_for_extension, cover_art_extension, cover_art_file,
    cover_art_id_of_digest, cover_art_step, is_audio_extension, picture_mime_type,
    should_skip_track, track_artist_name, track_title, CoverArtStep, PictureFormat, ScanMode,
    ScanResult, ScanState,
};
use subsonic::scanner::{deleted_paths, find_album, find_artist, AlbumKey, TrackStep};

#[test]
fn audio_extensions_are_recognised_case_insensitively() {
    assert!(is_audio_extension("flac"));
    assert!(!is_audio_extension("FLAC"));
    assert!(!is_audio_extension("txt"));
    assert_eq!(audio_extension("FLAC"), Some("flac".to_string()));
    assert_eq!(audio_extension("Mp3"), Some("mp3".to_string()));
    assert_eq!(audio_extension("jpg"), None);
}

#[test]
fn content_types_of_audio_extensions() {
    assert_eq!(content_type_for_extension("mp3"), "audio/mpeg");
    assert_eq!(content_type_for_extension("m4a"), "audio/mp4");
    assert_eq!(content_type_for_extension("aac"), "audio/mp4");
    assert_eq!(content_type_for_extension("wv"), "audio/wavpack");
    assert_eq!(content_type_for_extension("xyz"), "audio/unknown");
}

#[test]
fn track_titles_and_artists() {
    assert_eq!(track_title(Some("Tagged".into()), Some("file")), "Tagged");
    assert_eq!(track_title(None, Some("file")), "file");
    assert_eq!(track_title(None, None), "Unknown");
    assert_eq!(
        track_artist_name(&Some("Album Artist".into()), &Some("Artist".into())),
        Some("Album Artist".to_string())
    );
    assert_eq!(track_artist_name(&None, &Some("Artist".into())), Some("Artist".to_string()));
    assert_eq!(track_artist_name(&None, &None), None);
}

#[test]
fn incremental_scans_skip_unchanged_files() {
    assert!(should_skip_track(ScanMode::Incremental, Some(Some(5)), Some(5)));
    assert!(!should_skip_track(ScanMode::Incremental, Some(Some(5)), Some(6)));
    assert!(!should_skip_track(ScanMode::Incremental, Some(None), Some(5)));
    assert!(!should_skip_track(ScanMode::Incremental, None, Some(5)));
    assert!(!should_skip_track(ScanMode::Full, Some(Some(5)), Some(5)));
    assert_eq!(ScanMode::default(), ScanMode::Incremental);
}

#[test]
fn cover_art_naming() {
    assert_eq!(picture_mime_type(Some(PictureFormat::Png)), "image/png");
    assert_eq!(picture_mime_type(Some(PictureFormat::Other)), "image/jpeg");
    assert_eq!(picture_mime_type(None), "image/jpeg");
    assert_eq!(cover_art_extension("image/png"), "png");
    assert_eq!(cover_art_extension("image/webp"), "jpg");
    assert_eq!(cover_art_id_of_digest(&[0x00, 0x0f, 0xab, 0xff]), "000fabff");
    // MD5 of the empty input.
    let f = cover_art_file(b"", "image/gif");
    assert_eq!(f.id, "d41d8cd98f00b204e9800998ecf8427e");
    assert_eq!(f.file_name, "d41d8cd98f00b204e9800998ecf8427e.gif");
    let g = cover_art_file(b"abc", "image/jpeg");
    assert_eq!(g.id, "900150983cd24fb0d6963f7d28e17f72");
    assert_eq!(g.file_name, "900150983cd24fb0d6963f7d28e17f72.jpg");
}

#[test]
fn cover_art_steps() {
    assert!(matches!(cover_art_step(true, true, None), CoverArtStep::Save));
    match cover_art_step(true, true, Some("abc".into())) {
        CoverArtStep::Keep(id) => assert_eq!(id, "abc"),
        _ => panic!("existing art is kept"),
    }
    match cover_art_step(true, false, Some("abc".into())) {
        CoverArtStep::Keep(id) => assert_eq!(id, "abc"),
        _ => panic!("existing art is kept"),
    }
    assert!(matches!(cover_art_step(true, false, None), CoverArtStep::NoArt));
    assert!(matches!(cover_art_step(false, true, Some("abc".into())), CoverArtStep::NoArt));
}

#[test]
fn scan_state_allows_one_scan_at_a_time() {
    let mut s = ScanState::new();
    assert!(!s.is_scanning());
    assert!(s.try_start());
    assert!(s.is_scanning());
    assert!(!s.try_start());
    s.finish();
    assert!(!s.is_scanning());
    assert!(s.try_start());
}

#[test]
fn scan_state_counts() {
    let mut s = ScanState::new();
    assert_eq!(s.get_count(), 0);
    assert_eq!(s.increment_count(), 1);
    assert_eq!(s.increment_count(), 2);
    s.set_count(40);
    assert_eq!(s.get_count(), 40);
    s.reset_count();
    assert_eq!(s.get_count(), 0);
}

#[test]
fn scan_results_add_up() {
    let mut total = ScanResult::default();
    let one = ScanResult {
        tracks_found: 3,
        tracks_added: 2,
        tracks_updated: 1,
        tracks_skipped: 0,
        tracks_removed: 4,
        tracks_failed: 0,
        artists_added: 1,
        albums_added: 1,
        cover_art_saved: 1,
    };
    total.accumulate(&one);
    total.accumulate(&one);
    assert_eq!(total.tracks_found, 6);
    assert_eq!(total.tracks_removed, 8);
    assert_eq!(total.cover_art_saved, 2);
}

#[test]
fn paths_not_found_again_are_removed_in_known_order() {
    let known = vec![
        "/m/a.mp3".to_string(),
        "/m/b.flac".to_string(),
        "/m/c.ogg".to_string(),
        "/m/d.mp3".to_string(),
    ];
    let discovered = vec!["/m/c.ogg".to_string(), "/m/a.mp3".to_string(), "/m/new.mp3".to_string()];
    assert_eq!(
        deleted_paths(&known, &discovered),
        vec!["/m/b.flac".to_string(), "/m/d.mp3".to_string()]
    );
}

#[test]
fn nothing_is_removed_when_every_file_is_still_there() {
    let known = vec!["/m/a.mp3".to_string()];
    assert!(deleted_paths(&known, &known).is_empty());
    assert!(deleted_paths(&Vec::new(), &known).is_empty());
    assert_eq!(deleted_paths(&known, &Vec::new()), known);
}

#[test]
fn counting_files_one_by_one_returns_each_next_count() {
    let mut state = ScanState::new();
    state.set_count(5);
    let got: Vec<u64> = (0..3).map(|_| state.increment_count()).collect();
    assert_eq!(got, vec![6, 7, 8]);
    assert_eq!(state.get_count(), 8);
    assert!(!state.is_scanning());
}

#[test]
fn each_track_step_is_counted() {
    let mut r = ScanResult::default();
    let step = |skipped, new_artist, new_album, art_saved, existed, written| TrackStep {
        skipped,
        new_artist,
        new_album,
        art_saved,
        existed,
        written,
    };
    r.count_track(step(true, true, true, true, true, true));
    r.count_track(step(false, true, true, true, false, true));
    r.count_track(step(false, false, false, false, true, true));
    r.count_track(step(false, false, true, false, false, false));
    assert_eq!(r.tracks_skipped, 1);
    assert_eq!(r.artists_added, 1);
    assert_eq!(r.albums_added, 2);
    assert_eq!(r.cover_art_saved, 1);
    assert_eq!(r.tracks_added, 1);
    assert_eq!(r.tracks_updated, 1);
    assert_eq!(r.tracks_failed, 1);
    assert_eq!(r.tracks_found, 0);
}

#[test]
fn albums_are_found_by_name_and_artist() {
    let albums = vec![
        AlbumKey { name: "Hits".to_string(), artist_id: Some(1) },
        AlbumKey { name: "Hits".to_string(), artist_id: Some(2) },
        AlbumKey { name: "Live".to_string(), artist_id: None },
    ];
    assert_eq!(find_album(&albums, "Hits", Some(2)), Some(1));
    assert_eq!(find_album(&albums, "Hits", None), Some(0));
    assert_eq!(find_album(&albums, "Hits", Some(3)), None);
    assert_eq!(find_album(&albums, "Live", Some(1)), None);
    assert_eq!(find_album(&albums, "Live", None), Some(2));
}

#[test]
fn artists_are_found_by_name() {
    let names = vec!["A".to_string(), "B".to_string(), "A".to_string()];
    assert_eq!(find_artist(&names, "A"), Some(0));
    assert_eq!(find_artist(&names, "B"), Some(1));
    assert_eq!(find_artist(&names, "C"), None);
}
