use subsonic::playlist::{new_playlist_songs, updated_entries, PlaylistEntry};

fn entry(position: i32, song_id: i32) -> PlaylistEntry {
    PlaylistEntry { position, song_id }
}

#[test]
fn removing_positions_renumbers_the_rest_from_zero() {
    let entries = vec![entry(0, 10), entry(1, 11), entry(2, 12), entry(3, 13)];
    let r = updated_entries(&entries, &[], &[1, 3]);
    assert_eq!(r, vec![entry(0, 10), entry(1, 12)]);
}

#[test]
fn added_songs_follow_the_last_position() {
    let entries = vec![entry(0, 10), entry(4, 11)];
    let r = updated_entries(&entries, &[20, 21], &[]);
    assert_eq!(r, vec![entry(0, 10), entry(4, 11), entry(5, 20), entry(6, 21)]);
}

#[test]
fn removal_comes_before_addition() {
    let entries = vec![entry(0, 10), entry(1, 11), entry(2, 12)];
    let r = updated_entries(&entries, &[30], &[0]);
    assert_eq!(r, vec![entry(0, 11), entry(1, 12), entry(2, 30)]);
}

#[test]
fn updating_an_empty_playlist_starts_at_zero() {
    let r = updated_entries(&Vec::new(), &[7, 8], &[5]);
    assert_eq!(r, vec![entry(0, 7), entry(1, 8)]);
    assert!(updated_entries(&Vec::new(), &[], &[]).is_empty());
}

#[test]
fn removing_unknown_positions_still_renumbers() {
    let entries = vec![entry(2, 10), entry(5, 11)];
    let r = updated_entries(&entries, &[], &[9]);
    assert_eq!(r, vec![entry(0, 10), entry(1, 11)]);
}

#[test]
fn new_playlist_keeps_found_songs_at_their_index() {
    let r = new_playlist_songs(&[1, 2, 3], &[Some(180), None, Some(200)]);
    assert_eq!(r.entries, vec![entry(0, 1), entry(2, 3)]);
    assert_eq!(r.song_count, 3);
    assert_eq!(r.duration, 380);
}

#[test]
fn new_empty_playlist_has_no_songs() {
    let r = new_playlist_songs(&[], &[]);
    assert!(r.entries.is_empty());
    assert_eq!(r.song_count, 0);
    assert_eq!(r.duration, 0);
}
