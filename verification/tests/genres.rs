use subsonic::genres::genre_counts;

#[test]
fn genre_counts_merge_song_and_album_counts_by_name() {
    let songs = vec![
        (Some("Rock".to_string()), 12),
        (None, 4),
        (Some("Jazz".to_string()), 3),
        (Some("Ambient".to_string()), 1),
    ];
    let albums = vec![
        (Some("Jazz".to_string()), 1),
        (Some("Blues".to_string()), 2),
        (None, 9),
    ];
    let merged = genre_counts(&songs, &albums);
    assert_eq!(
        merged,
        vec![
            ("Ambient".to_string(), 1, 0),
            ("Blues".to_string(), 0, 2),
            ("Jazz".to_string(), 3, 1),
            ("Rock".to_string(), 12, 0),
        ]
    );
}

#[test]
fn genre_counts_later_rows_win_and_order_by_code_point() {
    let songs = vec![(Some("b".to_string()), 1), (Some("B".to_string()), 2), (Some("b".to_string()), 5)];
    let merged = genre_counts(&songs, &vec![]);
    assert_eq!(merged, vec![("B".to_string(), 2, 0), ("b".to_string(), 5, 0)]);
    assert!(genre_counts(&vec![], &vec![]).is_empty());
}
