use subsonic::catalog::{track_step, ScanCatalog, TrackAction};
use subsonic::scanner::{CoverArtStep, ScanMode, ScanResult, TrackStep};

fn s(v: &str) -> Option<String> {
    Some(v.to_string())
}

#[test]
fn unchanged_known_files_are_skipped_by_an_incremental_scan() {
    let mut c = ScanCatalog::new();
    let a = c.plan_track(ScanMode::Incremental, Some((7, Some(100))), Some(100), &None, &s("X"), &s("A"), false);
    assert!(matches!(a, TrackAction::Skip));
    assert_eq!(c.artist_count(), 0);
    let b = c.plan_track(ScanMode::Full, Some((7, Some(100))), Some(100), &None, &s("X"), &s("A"), false);
    assert!(matches!(b, TrackAction::Write { update: Some(7), .. }));
    let d = c.plan_track(ScanMode::Incremental, Some((7, Some(100))), Some(101), &None, &s("X"), &s("A"), false);
    assert!(matches!(d, TrackAction::Write { update: Some(7), .. }));
    let e = c.plan_track(ScanMode::Incremental, Some((7, None)), Some(100), &None, &s("X"), &s("A"), false);
    assert!(matches!(e, TrackAction::Write { .. }));
}

#[test]
fn artists_and_albums_are_created_once_and_found_again() {
    let mut c = ScanCatalog::new();
    let first = c.plan_track(ScanMode::Full, None, None, &s("Band"), &s("Singer"), &s("Hits"), true);
    match first {
        TrackAction::Write { artist_id, new_artist, album, new_album, art, update } => {
            assert_eq!(artist_id, Some(0));
            assert!(new_artist);
            assert_eq!(album, Some(0));
            assert!(new_album);
            assert!(matches!(art, CoverArtStep::Save));
            assert_eq!(update, None);
        }
        TrackAction::Skip => panic!("written expected"),
    }
    assert_eq!(c.artist_name(0), s("Band"));
    c.record_album_art(0, "abc".to_string());
    let second = c.plan_track(ScanMode::Full, None, None, &s("Band"), &None, &s("Hits"), true);
    match second {
        TrackAction::Write { artist_id, new_artist, album, new_album, art, .. } => {
            assert_eq!(artist_id, Some(0));
            assert!(!new_artist);
            assert_eq!(album, Some(0));
            assert!(!new_album);
            assert!(matches!(art, CoverArtStep::Keep(id) if id == "abc"));
        }
        TrackAction::Skip => panic!("written expected"),
    }
    let other = c.plan_track(ScanMode::Full, None, None, &None, &s("Other"), &s("Hits"), false);
    assert!(matches!(
        other,
        TrackAction::Write { artist_id: Some(1), album: Some(1), new_album: true, art: CoverArtStep::NoArt, .. }
    ));
    let loose = c.plan_track(ScanMode::Full, None, None, &None, &None, &s("Hits"), false);
    assert!(matches!(
        loose,
        TrackAction::Write { artist_id: None, album: Some(0), new_album: false, .. }
    ));
    let no_album = c.plan_track(ScanMode::Full, None, None, &None, &None, &None, true);
    assert!(matches!(no_album, TrackAction::Write { album: None, art: CoverArtStep::NoArt, .. }));
}

#[test]
fn track_steps_feed_the_counts() {
    let mut c = ScanCatalog::new();
    let mut r = ScanResult::default();
    let a = c.plan_track(ScanMode::Full, Some((3, None)), None, &None, &s("X"), &s("A"), true);
    r.count_track(track_step(&a, true, true));
    let b = c.plan_track(ScanMode::Full, None, None, &None, &s("X"), &s("A"), false);
    r.count_track(track_step(&b, false, false));
    let skip = c.plan_track(ScanMode::Incremental, Some((3, Some(1))), Some(1), &None, &s("X"), &s("A"), false);
    let st = track_step(&skip, true, true);
    assert_eq!(
        (st.skipped, st.art_saved, st.written),
        (true, false, false)
    );
    r.count_track(st);
    assert_eq!(r.tracks_updated, 1);
    assert_eq!(r.tracks_failed, 1);
    assert_eq!(r.tracks_skipped, 1);
    assert_eq!(r.artists_added, 1);
    assert_eq!(r.albums_added, 1);
    assert_eq!(r.cover_art_saved, 1);
    let _unused: Option<TrackStep> = None;
}
