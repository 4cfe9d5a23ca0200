use subsonic::browsing::{similar_source, SimilarSource};
use subsonic::browsing::{artists_index, highest_rated_order};
use subsonic::models::ArtistID3Response;
use subsonic::browsing::{
    album_list_request, bounded_count, index_groups, index_key, legacy_search_request,
    list_offset, random_songs_size, required_id, search2_request, search3_request, search_text,
    similar_songs_request, songs_by_genre_request, top_songs_request, AlbumList2Params,
    AlbumListKind, RandomSongsParams, Search2Params, Search3Params, SearchParams,
    SimilarSongs2Params, SongsByGenreParams, TopSongsParams,
};
use subsonic::error::ApiError;

fn list_params(t: Option<&str>) -> AlbumList2Params {
    AlbumList2Params {
        list_type: t.map(|s| s.to_string()),
        size: None,
        offset: None,
        from_year: None,
        to_year: None,
        genre: None,
        music_folder_id: None,
    }
}

#[test]
fn ids_are_required_and_numeric() {
    assert_eq!(required_id(&Some("42".into())).unwrap(), 42);
    assert_eq!(required_id(&Some("-7".into())).unwrap(), -7);
    match required_id(&Some("abc".into())) {
        Err(ApiError::MissingParameter(m)) => assert_eq!(m, "id"),
        _ => panic!("malformed id is a missing parameter"),
    }
    assert!(matches!(required_id(&None), Err(ApiError::MissingParameter(_))));
    assert!(required_id(&Some("99999999999".into())).is_err());
}

#[test]
fn counts_and_offsets_are_bounded() {
    assert_eq!(bounded_count(None, 10, 1, 500), 10);
    assert_eq!(bounded_count(Some(0), 10, 1, 500), 1);
    assert_eq!(bounded_count(Some(9000), 10, 1, 500), 500);
    assert_eq!(bounded_count(Some(-3), 20, 0, 500), 0);
    assert_eq!(list_offset(None), 0);
    assert_eq!(list_offset(Some(-5)), 0);
    assert_eq!(list_offset(Some(30)), 30);
}

#[test]
fn album_list_requests() {
    match album_list_request(&list_params(None)) {
        Err(ApiError::MissingParameter(m)) => assert_eq!(m, "type"),
        _ => panic!("type is required"),
    }
    match album_list_request(&list_params(Some("sideways"))) {
        Err(ApiError::Generic(m)) => assert_eq!(m, "Unknown list type: sideways"),
        _ => panic!("unknown types are refused"),
    }
    match album_list_request(&list_params(Some("byGenre"))) {
        Err(ApiError::MissingParameter(m)) => assert_eq!(m, "genre"),
        _ => panic!("byGenre needs a genre"),
    }
    let mut p = list_params(Some("byGenre"));
    p.genre = Some("Jazz".into());
    p.size = Some(1000);
    p.offset = Some(-1);
    let q = album_list_request(&p).unwrap();
    assert_eq!((q.size, q.offset), (500, 0));
    match q.kind {
        AlbumListKind::ByGenre(g) => assert_eq!(g, "Jazz"),
        _ => panic!("genre list expected"),
    }
    let mut y = list_params(Some("byYear"));
    y.from_year = Some(1990);
    match album_list_request(&y).unwrap().kind {
        AlbumListKind::ByYear { from_year, to_year } => assert_eq!((from_year, to_year), (1990, 9999)),
        _ => panic!("year list expected"),
    }
    let n = album_list_request(&list_params(Some("newest"))).unwrap();
    assert!(matches!(n.kind, AlbumListKind::Newest));
    assert_eq!((n.size, n.offset), (10, 0));
}

#[test]
fn search_text_strips_quotes_and_whitespace() {
    assert_eq!(search_text(Some("\"\"")), "");
    assert_eq!(search_text(Some("  \"beatles\" ")), "\"beatles\"");
    assert_eq!(search_text(Some("\" abbey road \"")), "abbey road");
    assert_eq!(search_text(None), "");
}

#[test]
fn search_requests() {
    let p = Search3Params {
        query: Some("\"abba\"".into()),
        artist_count: Some(600),
        artist_offset: Some(-2),
        album_count: None,
        album_offset: Some(5),
        song_count: Some(-1),
        song_offset: None,
        music_folder_id: None,
    };
    let r = search3_request(&p);
    assert_eq!(r.query, "abba");
    assert_eq!((r.artist_count, r.artist_offset), (500, 0));
    assert_eq!((r.album_count, r.album_offset), (20, 5));
    assert_eq!((r.song_count, r.song_offset), (0, 0));
    let q = Search2Params {
        query: None,
        artist_count: None,
        artist_offset: None,
        album_count: None,
        album_offset: None,
        song_count: None,
        song_offset: None,
        music_folder_id: None,
    };
    let r2 = search2_request(&q);
    assert_eq!(r2.query, "");
    assert_eq!(r2.song_count, 20);
}

#[test]
fn legacy_search_prefers_any_then_title_album_artist() {
    let mut p = SearchParams {
        artist: Some("artist".into()),
        album: Some("album".into()),
        title: Some(" title ".into()),
        any: None,
        count: None,
        offset: None,
        newer_than: None,
    };
    let r = legacy_search_request(&p);
    assert_eq!(r.query, "title");
    assert_eq!((r.count, r.offset), (20, 0));
    p.any = Some("any".into());
    assert_eq!(legacy_search_request(&p).query, "any");
    p.any = None;
    p.title = None;
    assert_eq!(legacy_search_request(&p).query, "album");
}

#[test]
fn song_list_requests() {
    let r = RandomSongsParams { size: None, genre: None, from_year: None, to_year: None, music_folder_id: None };
    assert_eq!(random_songs_size(&r), 10);
    let g = SongsByGenreParams { genre: None, count: None, offset: None, music_folder_id: None };
    assert!(matches!(songs_by_genre_request(&g), Err(ApiError::MissingParameter(_))));
    let g2 = SongsByGenreParams { genre: Some("Rock".into()), count: Some(0), offset: Some(3), music_folder_id: None };
    let q = songs_by_genre_request(&g2).unwrap();
    assert_eq!((q.genre.as_str(), q.count, q.offset), ("Rock", 1, 3));
    let s = SimilarSongs2Params { id: Some("5".into()), count: None };
    let sq = similar_songs_request(&s).unwrap();
    assert_eq!((sq.id, sq.count), (5, 50));
    let t = TopSongsParams { artist: Some(String::new()), count: None };
    match top_songs_request(&t) {
        Err(ApiError::MissingParameter(m)) => assert_eq!(m, "artist"),
        _ => panic!("artist is required"),
    }
    let t2 = TopSongsParams { artist: Some("ABBA".into()), count: Some(7) };
    let tq = top_songs_request(&t2).unwrap();
    assert_eq!((tq.artist.as_str(), tq.count), ("ABBA", 7));
}

#[test]
fn artists_are_grouped_by_index_letter() {
    assert_eq!(index_key(&None, "beatles"), 'B');
    assert_eq!(index_key(&Some("zappa".into()), "Frank Zappa"), 'Z');
    assert_eq!(index_key(&None, "2Pac"), '#');
    assert_eq!(index_key(&None, ""), '#');
    assert_eq!(index_key(&None, "élan"), 'É');
    let groups = index_groups(&vec!['B', 'A', '#', 'B', 'A']);
    let got: Vec<(char, Vec<usize>)> = groups.into_iter().map(|g| (g.key, g.members)).collect();
    assert_eq!(got, vec![('#', vec![2]), ('A', vec![1, 4]), ('B', vec![0, 3])]);
}

fn artist(id: i32, name: &str) -> subsonic::models::Artist {
    let t = || subsonic::models::Timestamp::from_unix(0, 0).expect("epoch");
    subsonic::models::Artist {
        id,
        name: name.to_string(),
        sort_name: None,
        musicbrainz_id: None,
        cover_art: None,
        artist_image_url: None,
        created_at: t(),
        updated_at: t(),
    }
}

#[test]
fn artists_index_groups_responses_by_letter() {
    let artists = vec![artist(1, "beatles"), artist(2, "abba"), artist(3, "2pac"), artist(4, "blur")];
    let keys: Vec<char> = artists.iter().map(|a| index_key(&a.sort_name, &a.name)).collect();
    let responses: Vec<ArtistID3Response> =
        artists.iter().map(|a| ArtistID3Response::from_artist(a, Some(1))).collect();
    let index = artists_index(responses, &keys);
    assert_eq!(index.ignored_articles, "The El La Los Las Le Les");
    let got: Vec<(String, Vec<String>)> = index
        .indexes
        .iter()
        .map(|i| (i.name.clone(), i.artists.iter().map(|a| a.name.clone()).collect()))
        .collect();
    assert_eq!(
        got,
        vec![
            ("#".to_string(), vec!["2pac".to_string()]),
            ("A".to_string(), vec!["abba".to_string()]),
            ("B".to_string(), vec!["beatles".to_string(), "blur".to_string()]),
        ]
    );
}

#[test]
fn highest_rated_albums_follow_the_rating_order() {
    // fetched albums by id; rated ids in rating order, one unknown, one repeated
    assert_eq!(highest_rated_order(&vec![10, 20, 30], &vec![30, 99, 10, 30]), vec![2, 0]);
    assert_eq!(highest_rated_order(&vec![5, 5], &vec![5]), vec![1]);
    assert!(highest_rated_order(&vec![], &vec![1, 2]).is_empty());
}

fn epoch() -> subsonic::models::Timestamp {
    subsonic::models::Timestamp::from_unix(0, 0).expect("epoch")
}

fn song(id: i32, artist_id: Option<i32>, genre: Option<&str>) -> subsonic::models::Song {
    subsonic::models::Song {
        id,
        title: "t".to_string(),
        sort_name: None,
        album_id: None,
        artist_id,
        artist_name: None,
        album_name: None,
        music_folder_id: 1,
        path: "/m/t.mp3".to_string(),
        parent_path: "/m".to_string(),
        file_size: 1,
        content_type: "audio/mpeg".to_string(),
        suffix: "mp3".to_string(),
        duration: 1,
        bit_rate: None,
        bit_depth: None,
        sampling_rate: None,
        channel_count: None,
        track_number: None,
        disc_number: None,
        year: None,
        genre: genre.map(|g| g.to_string()),
        cover_art: None,
        musicbrainz_id: None,
        play_count: 0,
        created_at: epoch(),
        updated_at: epoch(),
    }
}

fn album(id: i32, artist_id: Option<i32>) -> subsonic::models::Album {
    subsonic::models::Album {
        id,
        name: "a".to_string(),
        sort_name: None,
        artist_id,
        artist_name: None,
        year: None,
        genre: None,
        cover_art: None,
        musicbrainz_id: None,
        duration: 0,
        song_count: 0,
        play_count: 0,
        created_at: epoch(),
        updated_at: epoch(),
    }
}

#[test]
fn similar_songs_look_up_song_then_album_then_artist() {
    let s = song(9, Some(2), Some("Rock"));
    let al = album(9, Some(3));
    assert!(matches!(
        similar_source(9, Some(&s), Some(&al), true),
        Ok(SimilarSource::Artist { artist_id: 2, exclude_song: 9 })
    ));
    let g = song(9, None, Some("Rock"));
    assert!(matches!(similar_source(9, Some(&g), None, false), Ok(SimilarSource::Genre(x)) if x == "Rock"));
    let bare = song(9, None, None);
    assert!(matches!(similar_source(9, Some(&bare), None, false), Ok(SimilarSource::Nothing)));
    assert!(matches!(
        similar_source(9, None, Some(&al), true),
        Ok(SimilarSource::Artist { artist_id: 3, exclude_song: -1 })
    ));
    assert!(matches!(similar_source(9, None, Some(&album(9, None)), true), Ok(SimilarSource::Nothing)));
    assert!(matches!(
        similar_source(9, None, None, true),
        Ok(SimilarSource::Artist { artist_id: 9, exclude_song: -1 })
    ));
    match similar_source(9, None, None, false) {
        Err(e) => {
            assert!(matches!(&e, ApiError::NotFound(m) if m == "Item"));
            assert_eq!(e.code(), 70);
        }
        Ok(_) => panic!("not found expected"),
    }
}
