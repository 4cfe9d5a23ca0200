use subsonic::download::{
    album_zip_entries, album_zip_entry_name, playlist_zip_entries, playlist_zip_entry_name,
};
use subsonic::models::{Song, Timestamp};
use subsonic::download::{download_request, download_target, stream_access, stream_song_id, DownloadTarget};
use subsonic::error::ApiError;
use subsonic::download::archive_entries;

fn jan_first_2024() -> Timestamp {
    Timestamp::from_unix(1_704_067_200, 0).expect("valid date")
}

fn test_song() -> Song {
    Song {
        id: 1,
        title: "Track: One?".to_string(),
        sort_name: None,
        album_id: Some(1),
        artist_id: Some(1),
        artist_name: Some("The/Artist".to_string()),
        album_name: Some("My <Album>".to_string()),
        music_folder_id: 1,
        path: "/music/Album/01 - Track One.flac".to_string(),
        parent_path: "/music/Album".to_string(),
        file_size: 100,
        content_type: "audio/flac".to_string(),
        suffix: "flac".to_string(),
        duration: 60,
        bit_rate: None,
        bit_depth: None,
        sampling_rate: None,
        channel_count: None,
        track_number: Some(1),
        disc_number: Some(1),
        year: None,
        genre: None,
        cover_art: None,
        musicbrainz_id: None,
        play_count: 0,
        created_at: jan_first_2024(),
        updated_at: jan_first_2024(),
    }
}

#[test]
fn album_zip_entry_uses_album_dir_and_original_filename() {
    let song = test_song();
    assert_eq!(
        album_zip_entry_name(&song, false),
        "My _Album_/01 - Track One.flac"
    );
    assert_eq!(
        album_zip_entry_name(&song, true),
        "My _Album_/Disc 01/01 - Track One.flac"
    );
}

#[test]
fn playlist_zip_entry_uses_position_artist_title() {
    let song = test_song();
    assert_eq!(
        playlist_zip_entry_name(&song, 0),
        "01 - The_Artist - Track_ One_.flac"
    );
}

#[test]
fn album_entries_use_disc_folders_only_for_multi_disc_albums() {
    let one = test_song();
    let mut two = test_song();
    two.path = "/music/Album/02 - Track Two.flac".to_string();
    let entries = album_zip_entries(vec![one, two]);
    let names: Vec<&str> = entries.iter().map(|(n, _)| n.as_str()).collect();
    assert_eq!(
        names,
        vec!["My _Album_/01 - Track One.flac", "My _Album_/02 - Track Two.flac"]
    );

    let one = test_song();
    let mut two = test_song();
    two.path = "/music/Album/01 - Other.flac".to_string();
    two.disc_number = Some(2);
    let entries = album_zip_entries(vec![one, two]);
    assert_eq!(entries[0].0, "My _Album_/Disc 01/01 - Track One.flac");
    assert_eq!(entries[1].0, "My _Album_/Disc 02/01 - Other.flac");
}

#[test]
fn playlist_entries_and_m3u_index() {
    let one = test_song();
    let mut two = test_song();
    two.title = "Second".to_string();
    two.artist_name = None;
    two.duration = 125;
    let (entries, (m3u_name, m3u)) = playlist_zip_entries(vec![one, two], "Road/Trip");
    assert_eq!(entries[0].0, "01 - The_Artist - Track_ One_.flac");
    assert_eq!(entries[1].0, "02 - Unknown Artist - Second.flac");
    assert_eq!(m3u_name, "Road_Trip.m3u");
    assert_eq!(
        m3u,
        "#EXTM3U\n#PLAYLIST:Road/Trip\n#EXTINF:60,The/Artist - Track: One?\n01 - The_Artist - Track_ One_.flac\n#EXTINF:125,Unknown Artist - Second\n02 - Unknown Artist - Second.flac\n"
    );
}

#[test]
fn timestamps_format_as_iso_with_milliseconds() {
    assert_eq!(jan_first_2024().iso_string(), "2024-01-01T00:00:00.000Z");
    let t = Timestamp::from_unix(1_704_067_200, 250_000_000).expect("valid date");
    assert_eq!(t.iso_string(), "2024-01-01T00:00:00.250Z");
    assert_eq!(t.unix_seconds(), 1_704_067_200);
}

#[test]
fn artist_entries_sort_by_album_disc_and_track() {
    let mk = |album: Option<&str>, disc: Option<i32>, track: Option<i32>, file: &str| {
        let mut s = test_song();
        s.album_name = album.map(|a| a.to_string());
        s.disc_number = disc;
        s.track_number = track;
        s.path = format!("/music/{}", file);
        s
    };
    let songs = vec![
        mk(Some("B"), Some(1), Some(2), "b2.flac"),
        mk(Some("A"), Some(2), Some(1), "a21.flac"),
        mk(Some("A"), Some(1), Some(3), "a13.flac"),
        mk(Some("B"), None, Some(1), "b1.flac"),
        mk(None, None, None, "loose.flac"),
    ];
    let entries = subsonic::download::artist_zip_entries(songs);
    let names: Vec<&str> = entries.iter().map(|(n, _)| n.as_str()).collect();
    assert_eq!(
        names,
        vec![
            "Unknown Album/loose.flac",
            "A/Disc 01/a13.flac",
            "A/Disc 02/a21.flac",
            "B/b1.flac",
            "B/b2.flac",
        ]
    );
}

#[test]
fn album_entry_takes_the_file_name_from_the_path() {
    let mut song = test_song();
    song.path = "/srv/music/Some Album/03 - \"Quoted\".mp3".to_string();
    assert_eq!(album_zip_entry_name(&song, false), "My _Album_/03 - Quoted.mp3");
}

#[test]
fn download_ids_name_songs_albums_artists_and_playlists() {
    assert_eq!(download_target("12"), Some(DownloadTarget::Song(12)));
    assert_eq!(download_target("mf-7"), Some(DownloadTarget::Song(7)));
    assert_eq!(download_target("al-3"), Some(DownloadTarget::Album(3)));
    assert_eq!(download_target("ar-4"), Some(DownloadTarget::Artist(4)));
    assert_eq!(download_target("pl-5"), Some(DownloadTarget::Playlist(5)));
    assert_eq!(download_target("xx-5"), None);
    assert_eq!(download_target("al-"), None);
    assert_eq!(download_target(""), None);
}

#[test]
fn download_requests_check_the_id_then_the_role() {
    assert!(matches!(download_request(None, true), Err(ApiError::MissingParameter(m)) if m == "id"));
    assert!(matches!(download_request(Some("nope"), true), Err(ApiError::Generic(m)) if m == "Invalid id: nope"));
    assert!(matches!(download_request(Some("al-1"), false), Err(ApiError::NotAuthorized)));
    assert_eq!(download_request(Some("al-1"), true).ok(), Some(DownloadTarget::Album(1)));
}

#[test]
fn streams_take_song_ids_and_need_the_stream_role() {
    assert_eq!(stream_song_id(Some("42")).ok(), Some(42));
    assert_eq!(stream_song_id(Some("mf-42")).ok(), Some(42));
    assert!(matches!(stream_song_id(Some("al-42")), Err(ApiError::MissingParameter(_))));
    assert!(matches!(stream_song_id(None), Err(ApiError::MissingParameter(_))));
    assert!(stream_access(true, true).is_ok());
    assert!(matches!(stream_access(true, false), Err(ApiError::NotAuthorized)));
    assert!(matches!(stream_access(false, false), Err(ApiError::NotFound(m)) if m == "Song not found"));
}

#[test]
fn archives_keep_only_entries_whose_path_validated() {
    let entries = vec![
        ("A/01.flac".to_string(), Some("/m/a/01.flac".to_string())),
        ("A/02.flac".to_string(), None),
        ("A/03.flac".to_string(), Some("/m/a/03.flac".to_string())),
    ];
    assert_eq!(
        archive_entries(entries).ok(),
        Some(vec![
            ("A/01.flac".to_string(), "/m/a/01.flac".to_string()),
            ("A/03.flac".to_string(), "/m/a/03.flac".to_string()),
        ])
    );
    let none = vec![("A/02.flac".to_string(), None)];
    assert!(matches!(archive_entries(none), Err(ApiError::NotFound(m)) if m == "Audio files not found"));
    assert!(matches!(archive_entries(Vec::new()), Err(ApiError::NotFound(_))));
}
