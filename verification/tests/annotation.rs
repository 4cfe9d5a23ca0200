use subsonic::annotation::{scrobble_actions, PlayAction};
use subsonic::annotation::{
    begin_scan, is_submission, parse_ids, parse_repeated_param, player_id, scrobble_request,
    star_targets,
};
use subsonic::scanner::ScanState;

#[test]
fn repeated_params_are_collected_in_order() {
    assert_eq!(
        parse_repeated_param("id=1&albumId=2&id=3&x&id=a%20b", "id"),
        vec!["1".to_string(), "3".to_string(), "a b".to_string()]
    );
    // `+` stays, a bad escape stays as written, invalid UTF-8 keeps the raw text.
    assert_eq!(
        parse_repeated_param("q=a+b&q=100%&q=%ff", "q"),
        vec!["a+b".to_string(), "100%".to_string(), "%ff".to_string()]
    );
    assert!(parse_repeated_param("", "id").is_empty());
    assert_eq!(parse_repeated_param("id=x=y", "id"), vec!["x=y".to_string()]);
}

#[test]
fn ids_skip_malformed_values() {
    assert_eq!(parse_ids(&vec!["5".into(), "x".into(), "-2".into()]), vec![5, -2]);
}

#[test]
fn star_targets_by_kind() {
    let t = star_targets("id=1&artistId=7&albumId=3&id=2&albumId=zz");
    assert_eq!(t.song_ids, vec![1, 2]);
    assert_eq!(t.album_ids, vec![3]);
    assert_eq!(t.artist_ids, vec![7]);
}

#[test]
fn scrobbles_pair_ids_with_times() {
    let r = scrobble_request("id=1&id=bad&id=3&time=100&time=200&submission=false");
    assert_eq!(r.plays, vec![(1, Some(100)), (3, None)]);
    assert!(!r.submission);
    assert!(scrobble_request("id=1").submission);
    assert!(is_submission(&vec!["true".into()]));
    assert!(!is_submission(&vec!["0".into(), "true".into()]));
}

#[test]
fn players_and_scans() {
    assert_eq!(player_id(""), None);
    assert_eq!(player_id("DSub"), Some("DSub".to_string()));
    let mut s = ScanState::new();
    s.set_count(9);
    assert!(begin_scan(&mut s));
    assert_eq!((s.is_scanning(), s.get_count()), (true, 0));
    s.set_count(4);
    assert!(!begin_scan(&mut s));
    assert_eq!((s.is_scanning(), s.get_count()), (true, 4));
}

#[test]
fn scrobbles_record_each_play_and_now_playing_unless_submitted() {
    let r = scrobble_request("id=1&id=x&id=2&time=10&time=20&time=30&submission=false");
    assert_eq!(
        scrobble_actions(&r),
        vec![
            PlayAction::Scrobble { song_id: 1, time: Some(10), submission: false },
            PlayAction::NowPlaying { song_id: 1 },
            PlayAction::Scrobble { song_id: 2, time: Some(30), submission: false },
            PlayAction::NowPlaying { song_id: 2 },
        ]
    );
    let r = scrobble_request("id=5");
    assert_eq!(
        scrobble_actions(&r),
        vec![PlayAction::Scrobble { song_id: 5, time: None, submission: true }]
    );
}
