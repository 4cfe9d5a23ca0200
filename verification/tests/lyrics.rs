use subsonic::lyrics::lyrics_from_tags;
use subsonic::lyrics::{looks_like_lrc, parse_lrc, parse_lrc_timestamp, parse_unsynced};

#[test]
fn test_parse_lrc_timestamp() {
    assert_eq!(parse_lrc_timestamp("00:00"), Some(0));
    assert_eq!(parse_lrc_timestamp("00:01"), Some(1000));
    assert_eq!(parse_lrc_timestamp("01:00"), Some(60_000));
    assert_eq!(parse_lrc_timestamp("01:30"), Some(90_000));
    assert_eq!(parse_lrc_timestamp("00:00.00"), Some(0));
    assert_eq!(parse_lrc_timestamp("00:01.50"), Some(1500));
    assert_eq!(parse_lrc_timestamp("02:30.75"), Some(150_750));
}

#[test]
fn test_parse_lrc() {
    let lrc = "[00:00.00]First line\n[00:05.00]Second line\n[00:10.50]Third line";
    let lines = parse_lrc(lrc);
    assert_eq!(lines.len(), 3);
    assert_eq!(lines[0].start_ms, 0);
    assert_eq!(lines[0].text, "First line");
    assert_eq!(lines[1].start_ms, 5000);
    assert_eq!(lines[2].start_ms, 10500);
}

#[test]
fn test_looks_like_lrc() {
    assert!(looks_like_lrc("[00:00.00]Hello"));
    assert!(looks_like_lrc("[01:30]Test"));
    assert!(!looks_like_lrc("Just plain text"));
    assert!(!looks_like_lrc("[ar:Artist Name]")); // metadata tag
}

#[test]
fn parse_lrc_orders_lines_by_time_keeping_ties_in_order() {
    let lrc = "[00:10.00]late\n[00:02.00][00:20]twice\n[ar:Someone]\nno stamp\n[00:02.00]tie";
    let lines = parse_lrc(lrc);
    let got: Vec<(i64, &str)> = lines.iter().map(|l| (l.start_ms, l.text.as_str())).collect();
    assert_eq!(
        got,
        vec![(2000, "twice"), (2000, "tie"), (10000, "late"), (20000, "twice")]
    );
}

#[test]
fn parse_lrc_timestamp_rejects_malformed_text() {
    assert_eq!(parse_lrc_timestamp("1"), None);
    assert_eq!(parse_lrc_timestamp("aa:bb"), None);
    assert_eq!(parse_lrc_timestamp("00:01.5"), Some(1005));
    assert_eq!(parse_lrc_timestamp("00:01.123"), Some(1123));
}

#[test]
fn parse_unsynced_keeps_nonempty_trimmed_lines() {
    assert_eq!(
        parse_unsynced("  one \n\n two\n   \nthree"),
        vec!["one".to_string(), "two".to_string(), "three".to_string()]
    );
}

#[test]
fn lyrics_from_tags_picks_nonblank_distinct_entries() {
    let both = lyrics_from_tags(Some("plain words"), Some("[00:01]timed"));
    assert_eq!(both.len(), 2);
    assert_eq!(both[0].text, "plain words");
    assert!(!both[0].synced);
    assert_eq!(both[0].description, None);
    assert_eq!(both[1].text, "[00:01]timed");
    assert!(both[1].synced);
    assert_eq!(both[1].description.as_deref(), Some("synced"));

    let lrc = lyrics_from_tags(Some("[00:01.00]hi"), Some("[00:01.00]hi"));
    assert_eq!(lrc.len(), 1);
    assert!(lrc[0].synced);

    let blank = lyrics_from_tags(Some("   \n "), None);
    assert!(blank.is_empty());
    let only_synced = lyrics_from_tags(None, Some("[00:02]x"));
    assert_eq!(only_synced.len(), 1);
    assert_eq!(only_synced[0].description.as_deref(), Some("synced"));
}
