//! Starring, scrobbling and scanning requests: the repeated query parameters
//! they carry and what they ask the library to do.
use vstd::prelude::*;
use vstd::utf8::{valid_utf8, decode_utf8, encode_utf8};
use crate::encoding::{percent_decoded, url_decode};
use crate::lyrics::string_views;
use crate::media::str_eq;
use crate::number::{parse_i32, parse_i64, parsed_i32, parsed_i64};
use crate::scanner::ScanState;
use crate::text::{char_rows, find_char, is_first_index, split_at_any, split_chars, string_of, sub_chars, to_chars};

verus! {

/// A query value, percent-decoded where that gives UTF-8, else as written.
pub open spec fn decoded_value(v: Seq<char>) -> Seq<char> {
    let b = percent_decoded(encode_utf8(v));
    if valid_utf8(b) {
        decode_utf8(b)
    } else {
        v
    }
}

/// The value that one `key=value` part of a query gives for parameter
/// `name`: the text after its first `=`, decoded, where the text before it
/// is `name`.
pub open spec fn part_value(part: Seq<char>, name: Seq<char>) -> Option<Seq<char>> {
    if part.contains('=') {
        let i = choose|i: int| is_first_index(part, '=', i);
        if part.take(i) == name {
            Some(decoded_value(part.skip(i + 1)))
        } else {
            None
        }
    } else {
        None
    }
}

/// The values of parameter `name` among query parts, in order.
pub open spec fn part_values(parts: Seq<Seq<char>>, name: Seq<char>) -> Seq<Seq<char>>
    decreases parts.len(),
{
    if parts.len() == 0 {
        Seq::empty()
    } else {
        let prev = part_values(parts.drop_last(), name);
        match part_value(parts.last(), name) {
            Some(v) => prev.push(v),
            None => prev,
        }
    }
}

/// All values of a parameter that a query string repeats (`id=1&id=2`), in
/// order: the parts between `&`s whose text before the first `=` is the
/// name give the text after it, percent-decoded where that gives UTF-8.
pub fn parse_repeated_param(query: &str, param_name: &str) -> (r: Vec<String>)
    ensures
        string_views(r@) == part_values(split_at_any(query@, '&', '&'), param_name@),
{
    let q = to_chars(query);
    let parts = split_chars(q.as_slice(), q.len(), '&', '&');
    assert(q@.take(q@.len() as int) =~= q@);
    let ghost all = char_rows(parts@);
    let mut values: Vec<String> = Vec::new();
    let mut i: usize = 0;
    while i < parts.len()
        invariant
            i <= parts@.len(),
            all == char_rows(parts@),
            all == split_at_any(query@, '&', '&'),
            string_views(values@) == part_values(all.take(i as int), param_name@),
        decreases parts@.len() - i,
    {
        let part = &parts[i];
        assert(part@ == all[i as int]);
        assert(all.take(i + 1).drop_last() =~= all.take(i as int));
        assert(all.take(i + 1).last() == part@);
        assert(part@.skip(0) =~= part@);
        match find_char(part.as_slice(), 0, '=') {
            Some(eq) => {
                assert(eq < part@.len());
                let key = string_of(sub_chars(part.as_slice(), 0, eq).as_slice());
                assert(part@.contains('='));
                let ghost j = choose|j: int| is_first_index(part@, '=', j);
                assert(j == eq as int) by {
                    if j < eq as int {
                        assert(part@[j] == '=');
                    }
                    if (eq as int) < j {
                        assert(part@[eq as int] == '=');
                    }
                }
                assert(key@ =~= part@.take(eq as int));
                if str_eq(key.as_str(), param_name) {
                    let raw = string_of(sub_chars(part.as_slice(), eq + 1, part.len()).as_slice());
                    assert(raw@ =~= part@.skip(eq + 1));
                    let v = match url_decode(raw.as_str()) {
                        Some(d) => d,
                        None => raw,
                    };
                    let ghost before = values@;
                    values.push(v);
                    assert(string_views(values@) =~= string_views(before).push(v@));
                }
            },
            None => {
                assert(!part@.contains('='));
            },
        }
        i = i + 1;
    }
    assert(all.take(parts@.len() as int) =~= all);
    values
}

/// The identifiers among query values: those that parse as `i32`, in order.
pub open spec fn parsed_ids(values: Seq<Seq<char>>) -> Seq<i32>
    decreases values.len(),
{
    if values.len() == 0 {
        Seq::empty()
    } else {
        let prev = parsed_ids(values.drop_last());
        match parsed_i32(values.last()) {
            Some(n) => prev.push(n as i32),
            None => prev,
        }
    }
}

/// The identifiers among query values; values that are no `i32` are
/// skipped.
pub fn parse_ids(values: &Vec<String>) -> (r: Vec<i32>)
    ensures
        r@ == parsed_ids(string_views(values@)),
{
    let ghost all = string_views(values@);
    let mut r: Vec<i32> = Vec::new();
    let mut i: usize = 0;
    while i < values.len()
        invariant
            i <= values@.len(),
            all == string_views(values@),
            r@ == parsed_ids(all.take(i as int)),
        decreases values@.len() - i,
    {
        assert(all.take(i + 1).drop_last() =~= all.take(i as int));
        assert(all.take(i + 1).last() == values@[i as int]@);
        let v = to_chars(values[i].as_str());
        match parse_i32(v.as_slice()) {
            Some(n) => {
                r.push(n);
            },
            None => {},
        }
        i = i + 1;
    }
    assert(all.take(values@.len() as int) =~= all);
    r
}

/// What the items of a star or unstar request are: artists, albums and
/// songs, by identifier.
pub struct StarTargets {
    pub artist_ids: Vec<i32>,
    pub album_ids: Vec<i32>,
    pub song_ids: Vec<i32>,
}

/// The items that a `star` or `unstar` query names: `artistId`, `albumId`
/// and `id` (songs), each repeatable; values that are no `i32` are skipped.
pub fn star_targets(query: &str) -> (r: StarTargets)
    ensures
        r.artist_ids@ == parsed_ids(part_values(split_at_any(query@, '&', '&'), "artistId"@)),
        r.album_ids@ == parsed_ids(part_values(split_at_any(query@, '&', '&'), "albumId"@)),
        r.song_ids@ == parsed_ids(part_values(split_at_any(query@, '&', '&'), "id"@)),
{
    let songs = parse_repeated_param(query, "id");
    let albums = parse_repeated_param(query, "albumId");
    let artists = parse_repeated_param(query, "artistId");
    StarTargets {
        artist_ids: parse_ids(&artists),
        album_ids: parse_ids(&albums),
        song_ids: parse_ids(&songs),
    }
}

/// Whether a scrobble is a submission: the first `submission` value, unless
/// it is `false` or `0`; a submission when none is given.
pub open spec fn spec_submission(values: Seq<Seq<char>>) -> bool {
    values.len() == 0 || (values[0] != "false"@ && values[0] != "0"@)
}

/// Whether a scrobble is a submission (true) or a now-playing notice.
pub fn is_submission(values: &Vec<String>) -> (r: bool)
    ensures
        r == spec_submission(string_views(values@)),
{
    if values.len() == 0 {
        true
    } else {
        let s = values[0].as_str();
        !str_eq(s, "false") && !str_eq(s, "0")
    }
}

/// The plays that a scrobble names: for each value of `id` at position `i`
/// that is an `i32`, the song and the `i`-th `time`, where that is an `i64`.
pub open spec fn scrobble_plays(ids: Seq<Seq<char>>, times: Seq<Seq<char>>) -> Seq<(i32, Option<i64>)>
    decreases ids.len(),
{
    if ids.len() == 0 {
        Seq::empty()
    } else {
        let i = ids.len() - 1;
        let prev = scrobble_plays(ids.drop_last(), times);
        match parsed_i32(ids[i]) {
            Some(n) => prev.push(
                (
                    n as i32,
                    if i < times.len() {
                        match parsed_i64(times[i]) {
                            Some(t) => Some(t as i64),
                            None => None,
                        }
                    } else {
                        None
                    },
                ),
            ),
            None => prev,
        }
    }
}

/// What a scrobble request asks: the plays to record, and whether they are
/// submissions (else the songs are also now playing).
pub struct ScrobbleRequest {
    pub plays: Vec<(i32, Option<i64>)>,
    pub submission: bool,
}

/// The scrobble that a query names: each `id` with the `time` at the same
/// position; `submission` defaults to true.
pub fn scrobble_request(query: &str) -> (r: ScrobbleRequest)
    ensures
        r.plays@ == scrobble_plays(
            part_values(split_at_any(query@, '&', '&'), "id"@),
            part_values(split_at_any(query@, '&', '&'), "time"@),
        ),
        r.submission == spec_submission(part_values(split_at_any(query@, '&', '&'), "submission"@)),
{
    let ids = parse_repeated_param(query, "id");
    let times = parse_repeated_param(query, "time");
    let subs = parse_repeated_param(query, "submission");
    let ghost iv = string_views(ids@);
    let ghost tv = string_views(times@);
    let mut plays: Vec<(i32, Option<i64>)> = Vec::new();
    let mut i: usize = 0;
    while i < ids.len()
        invariant
            i <= ids@.len(),
            iv == string_views(ids@),
            tv == string_views(times@),
            plays@ == scrobble_plays(iv.take(i as int), tv),
        decreases ids@.len() - i,
    {
        assert(iv.take(i + 1).drop_last() =~= iv.take(i as int));
        assert(iv.take(i + 1)[i as int] == ids@[i as int]@);
        let v = to_chars(ids[i].as_str());
        match parse_i32(v.as_slice()) {
            Some(n) => {
                let time = if i < times.len() {
                    let t = to_chars(times[i].as_str());
                    parse_i64(t.as_slice())
                } else {
                    None
                };
                plays.push((n, time));
            },
            None => {},
        }
        i = i + 1;
    }
    assert(iv.take(ids@.len() as int) =~= iv);
    ScrobbleRequest { plays, submission: is_submission(&subs) }
}

/// What the server does for a scrobbled play.
#[derive(PartialEq, Eq, Structural, Clone, Copy, Debug)]
pub enum PlayAction {
    /// Record the play of the song at the time, as a submission or not.
    Scrobble { song_id: i32, time: Option<i64>, submission: bool },
    /// Mark the song as now playing for the user's player.
    NowPlaying { song_id: i32 },
}

/// The actions for the plays of a scrobble, in order: each play is
/// recorded with the submission flag, and, where it is not a submission,
/// then also marked as now playing.
pub open spec fn spec_play_actions(plays: Seq<(i32, Option<i64>)>, submission: bool) -> Seq<
    PlayAction,
>
    decreases plays.len(),
{
    if plays.len() == 0 {
        Seq::empty()
    } else {
        let p = plays.last();
        let done = spec_play_actions(plays.drop_last(), submission).push(
            PlayAction::Scrobble { song_id: p.0, time: p.1, submission },
        );
        if submission {
            done
        } else {
            done.push(PlayAction::NowPlaying { song_id: p.0 })
        }
    }
}

/// The actions a scrobble request asks for (see `spec_play_actions`). The
/// request is answered as a success whatever these actions then do.
pub fn scrobble_actions(request: &ScrobbleRequest) -> (r: Vec<PlayAction>)
    ensures
        r@ == spec_play_actions(request.plays@, request.submission),
{
    let mut r: Vec<PlayAction> = Vec::new();
    let mut i: usize = 0;
    while i < request.plays.len()
        invariant
            i <= request.plays@.len(),
            r@ == spec_play_actions(request.plays@.take(i as int), request.submission),
        decreases request.plays@.len() - i,
    {
        assert(request.plays@.take(i + 1).drop_last() =~= request.plays@.take(i as int));
        let (song_id, time) = request.plays[i];
        r.push(PlayAction::Scrobble { song_id, time, submission: request.submission });
        if !request.submission {
            r.push(PlayAction::NowPlaying { song_id });
        }
        i = i + 1;
    }
    assert(request.plays@.take(request.plays@.len() as int) =~= request.plays@);
    r
}

/// The player that a client is: its identifier, unless empty.
pub fn player_id(client: &str) -> (r: Option<String>)
    ensures
        client@.len() == 0 ==> r is None,
        client@.len() > 0 ==> r is Some && r->0@ == client@,
{
    if client.is_empty() {
        None
    } else {
        Some(client.to_string())
    }
}

/// Starts a library scan unless one runs: a new scan starts its count from
/// zero; while one runs nothing changes. Says whether a scan was started.
pub fn begin_scan(state: &mut ScanState) -> (r: bool)
    ensures
        r == !old(state)@.0,
        r ==> final(state)@ == (true, 0u64),
        !r ==> final(state)@ == old(state)@,
{
    if state.try_start() {
        state.reset_count();
        true
    } else {
        false
    }
}

} // verus!
