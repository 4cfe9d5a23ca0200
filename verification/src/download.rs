//! Names of the files inside album and playlist zip downloads, and the M3U
//! index of a playlist download.
use vstd::prelude::*;
use crate::media::{
    final_component, header_breakout, sanitize_zip_component, sanitized_filename, spec_zip_component,
    without_breakout,
};
use crate::models::{opt_view, Song};
use crate::number::{i32_to_string, signed_decimal, two_digit_string, two_digit_string_u64, two_digits};
use crate::order::{
    chars_before, insertion_sorted, is_ordering, is_sorted_by, lemma_insert_at, lemma_sorted_is_sorted,
    lemma_sorted_permutation, lemma_text_before_asymmetric, lemma_text_before_total,
    lemma_text_before_transitive, text_before,
};
use crate::text::{sub_chars, to_chars};
use crate::error::ApiError;
use crate::number::{decimal, lemma_decimal_parses, parse_i32, parsed_i32};

verus! {

/// `s` holds no character that could break out of a quoted header value.
pub open spec fn breakout_free(s: Seq<char>) -> bool {
    forall|i: int| 0 <= i < s.len() ==> !header_breakout(#[trigger] s[i])
}

/// The zip entry path of a song file named `file` in an album archive:
/// `<Album>/<file>`, or `<Album>/Disc NN/<file>` for a multi-disc album
/// (disc 1 where the song has no disc number).
pub open spec fn spec_album_entry(
    file: Seq<char>,
    album: Option<Seq<char>>,
    disc: Option<i32>,
    multi_disc: bool,
) -> Seq<char> {
    let dir = spec_zip_component(
        match album {
            Some(a) => a,
            None => "Unknown Album"@,
        },
    );
    if multi_disc {
        dir + "/Disc "@ + two_digits(
            match disc {
                Some(d) => d as int,
                None => 1,
            },
        ) + "/"@ + file
    } else {
        dir + "/"@ + file
    }
}

/// `name` is the album-archive entry path of `song`: its file part is a
/// download file name that holds no header breakout character, and where
/// the song's path ends in a component that every platform reads alike,
/// that component with the breakout characters removed.
pub open spec fn is_album_entry_of(name: Seq<char>, song: Song, multi_disc: bool) -> bool {
    &&& exists|f: Seq<char>|
        #![trigger breakout_free(f)]
        breakout_free(f) && name == spec_album_entry(
            f,
            opt_view(song.album_name),
            song.disc_number,
            multi_disc,
        )
    &&& final_component(song.path@) is Some ==> name == spec_album_entry(
        without_breakout(final_component(song.path@)->0),
        opt_view(song.album_name),
        song.disc_number,
        multi_disc,
    )
}

/// The zip entry path of a song file named `file` in an album archive.
pub fn album_entry_name(file: &str, album_name: Option<&str>, disc: Option<i32>, multi_disc: bool) -> (r:
    String)
    ensures
        r@ == spec_album_entry(
            file@,
            match album_name {
                Some(a) => Some(a@),
                None => None,
            },
            disc,
            multi_disc,
        ),
{
    let album = match album_name {
        Some(a) => a,
        None => "Unknown Album",
    };
    let mut r = sanitize_zip_component(album);
    if multi_disc {
        r.append("/Disc ");
        let d = match disc {
            Some(d) => d,
            None => 1,
        };
        let n = two_digit_string(d as i64);
        r.append(n.as_str());
        r.append("/");
        r.append(file);
    } else {
        r.append("/");
        r.append(file);
    }
    r
}

/// The optional text of an optional string.
pub open spec fn opt_text(o: Option<&str>) -> Option<Seq<char>> {
    match o {
        Some(s) => Some(s@),
        None => None,
    }
}

/// The zip entry path of a song in an album archive, navidrome-style:
/// `<Album>/<filename>`, with a `Disc NN/` subfolder for multi-disc albums.
/// The file name is the final component of the song's path, cleaned of
/// header breakout characters.
pub fn album_zip_entry_name(song: &Song, multi_disc: bool) -> (r: String)
    ensures
        is_album_entry_of(r@, *song, multi_disc),
{
    let file = sanitized_filename(song.path.as_str());
    let album = match &song.album_name {
        Some(a) => Some(a.as_str()),
        None => None,
    };
    let r = album_entry_name(file.as_str(), album, song.disc_number, multi_disc);
    assert(breakout_free(file@));
    r
}

/// The text `s` with the `Unknown Artist` default.
pub open spec fn artist_or_unknown(a: Option<Seq<char>>) -> Seq<char> {
    match a {
        Some(a) => a,
        None => "Unknown Artist"@,
    }
}

/// The zip entry path of the song at `index` (from 0) in a playlist archive:
/// `NN - Artist - Title.ext`, numbered from 1.
pub open spec fn spec_playlist_entry(song: Song, index: int) -> Seq<char> {
    two_digits(index + 1) + " - "@ + spec_zip_component(artist_or_unknown(opt_view(song.artist_name)))
        + " - "@ + spec_zip_component(song.title@) + "."@ + song.suffix@
}

/// Zip entry path for a song in a playlist archive, navidrome-style:
/// `NN - Artist - Title.ext`.
pub fn playlist_zip_entry_name(song: &Song, index: usize) -> (r: String)
    requires
        index < u64::MAX,
    ensures
        r@ == spec_playlist_entry(*song, index as int),
{
    let artist = match &song.artist_name {
        Some(a) => a.as_str(),
        None => "Unknown Artist",
    };
    let mut r = two_digit_string_u64(index as u64 + 1);
    r.append(" - ");
    let a = sanitize_zip_component(artist);
    r.append(a.as_str());
    r.append(" - ");
    let t = sanitize_zip_component(song.title.as_str());
    r.append(t.as_str());
    r.append(".");
    r.append(song.suffix.as_str());
    r
}

/// The songs span more than one disc number.
pub open spec fn spec_multi_disc(songs: Seq<Song>) -> bool {
    exists|i: int, j: int|
        0 <= i < songs.len() && 0 <= j < songs.len() && #[trigger] songs[i].disc_number is Some
            && #[trigger] songs[j].disc_number is Some && songs[i].disc_number
            != songs[j].disc_number
}

/// Whether the songs span more than one disc number.
pub fn is_multi_disc(songs: &[Song]) -> (r: bool)
    ensures
        r == spec_multi_disc(songs@),
{
    let mut first: Option<i32> = None;
    let mut first_at: usize = 0;
    let mut i: usize = 0;
    while i < songs.len()
        invariant
            i <= songs@.len(),
            first is None ==> forall|k: int| 0 <= k < i ==> songs@[k].disc_number is None,
            first is Some ==> first_at < i && songs@[first_at as int].disc_number == first && forall|
                k: int,
            |
                0 <= k < i && #[trigger] songs@[k].disc_number is Some ==> songs@[k].disc_number
                    == first,
        decreases songs@.len() - i,
    {
        match songs[i].disc_number {
            Some(d) => match first {
                None => {
                    first = Some(d);
                    first_at = i;
                },
                Some(f) => {
                    if d != f {
                        assert(songs@[i as int].disc_number is Some && songs@[first_at as int].disc_number
                            is Some);
                        return true;
                    }
                },
            },
            None => {},
        }
        i = i + 1;
    }
    proof {
        if spec_multi_disc(songs@) {
            let (a, b) = choose|a: int, b: int|
                0 <= a < songs@.len() && 0 <= b < songs@.len() && #[trigger] songs@[a].disc_number
                    is Some && #[trigger] songs@[b].disc_number is Some && songs@[a].disc_number
                    != songs@[b].disc_number;
            assert(songs@[a].disc_number is Some);
        }
    }
    false
}

/// `v` in reverse order.
fn reversed<T>(v: Vec<T>) -> (r: Vec<T>)
    ensures
        r@ == v@.reverse(),
{
    let ghost orig = v@;
    let mut v = v;
    let mut r: Vec<T> = Vec::new();
    while v.len() > 0
        invariant
            v@ + r@.reverse() == orig,
        decreases v@.len(),
    {
        let ghost before = r@;
        let x = v.pop().unwrap();
        r.push(x);
        assert(r@.reverse() =~= seq![x] + before.reverse());
        assert(v@ + r@.reverse() =~= orig);
    }
    assert(r@.reverse().reverse() =~= r@);
    assert(r@ =~= orig.reverse());
    r
}

/// Pairs each name with the item at the same position.
fn pair_up<T>(names: Vec<String>, items: Vec<T>) -> (r: Vec<(String, T)>)
    requires
        names@.len() == items@.len(),
    ensures
        r@.len() == items@.len(),
        forall|i: int| 0 <= i < r@.len() ==> (#[trigger] r@[i]).0@ == names@[i]@ && r@[i].1 == items@[i],
{
    let n = items.len();
    let mut rn = reversed(names);
    let mut ri = reversed(items);
    let ghost nv = rn@;
    let ghost iv = ri@;
    let mut r: Vec<(String, T)> = Vec::new();
    while ri.len() > 0
        invariant
            rn@.len() == ri@.len(),
            r@.len() + ri@.len() == n,
            nv.len() == n && iv.len() == n,
            rn@ == nv.take(ri@.len() as int),
            ri@ == iv.take(ri@.len() as int),
            forall|i: int| 0 <= i < r@.len() ==> (#[trigger] r@[i]).0@ == nv[n - 1 - i]@ && r@[i].1
                == iv[n - 1 - i],
        decreases ri@.len(),
    {
        let x = ri.pop().unwrap();
        let name = rn.pop().unwrap();
        r.push((name, x));
        assert(rn@ =~= nv.take(ri@.len() as int));
        assert(ri@ =~= iv.take(ri@.len() as int));
    }
    r
}

/// The zip entry names and songs of an album download: every song under
/// the album directory, with disc subfolders where the songs span several
/// discs.
pub fn album_zip_entries(songs: Vec<Song>) -> (r: Vec<(String, Song)>)
    ensures
        r@.len() == songs@.len(),
        forall|i: int|
            0 <= i < r@.len() ==> (#[trigger] r@[i]).1 == songs@[i] && is_album_entry_of(
                r@[i].0@,
                songs@[i],
                spec_multi_disc(songs@),
            ),
{
    let multi = is_multi_disc(songs.as_slice());
    let mut names: Vec<String> = Vec::new();
    let mut i: usize = 0;
    while i < songs.len()
        invariant
            i <= songs@.len(),
            names@.len() == i,
            multi == spec_multi_disc(songs@),
            forall|k: int|
                0 <= k < i ==> is_album_entry_of((#[trigger] names@[k])@, songs@[k], multi),
        decreases songs@.len() - i,
    {
        let name = album_zip_entry_name(&songs[i], multi);
        names.push(name);
        i = i + 1;
    }
    let ghost nv = names@;
    let r = pair_up(names, songs);
    assert forall|i: int| 0 <= i < r@.len() implies (#[trigger] r@[i]).1 == songs@[i]
        && is_album_entry_of(r@[i].0@, songs@[i], spec_multi_disc(songs@)) by {
        assert(r@[i].0@ == nv[i]@);
    }
    r
}

/// The album that a song is filed under in an artist archive: its album
/// name, or the empty name.
pub open spec fn album_key(s: Song) -> Seq<char> {
    match s.album_name {
        Some(a) => a@,
        None => Seq::empty(),
    }
}

/// The disc a song is sorted by: its disc number, else 1.
pub open spec fn zip_disc(s: Song) -> int {
    match s.disc_number {
        Some(d) => d as int,
        None => 1,
    }
}

/// The track a song is sorted by: its track number, else 0.
pub open spec fn zip_track(s: Song) -> int {
    match s.track_number {
        Some(t) => t as int,
        None => 0,
    }
}

/// Whether song `a` belongs after song `b` in an artist archive: by album,
/// then disc, then track.
pub open spec fn song_after(a: Song, b: Song) -> bool {
    ||| text_before(album_key(b), album_key(a))
    ||| (album_key(a) == album_key(b) && zip_disc(b) < zip_disc(a))
    ||| (album_key(a) == album_key(b) && zip_disc(a) == zip_disc(b) && zip_track(b) < zip_track(a))
}

/// The relation `song_after` as a function value.
pub open spec fn artist_zip_order() -> spec_fn(Song, Song) -> bool {
    |a: Song, b: Song| song_after(a, b)
}

/// The songs of an artist archive in their order: by album name, disc and
/// track, songs with equal keys in the order they came.
pub open spec fn artist_order(songs: Seq<Song>) -> Seq<Song> {
    insertion_sorted(songs, artist_zip_order())
}

/// The songs of album `k` among `songs` span more than one disc number.
pub open spec fn album_multi_disc(songs: Seq<Song>, k: Seq<char>) -> bool {
    exists|i: int, j: int|
        0 <= i < songs.len() && 0 <= j < songs.len() && album_key(#[trigger] songs[i]) == k
            && album_key(#[trigger] songs[j]) == k && songs[i].disc_number is Some
            && songs[j].disc_number is Some && songs[i].disc_number != songs[j].disc_number
}

/// The artist archive order is an ordering.
proof fn lemma_artist_zip_order()
    ensures
        is_ordering(artist_zip_order()),
{
    let f = artist_zip_order();
    assert forall|a: Song, b: Song| #[trigger] f(a, b) implies !f(b, a) by {
        lemma_text_before_asymmetric(album_key(a), album_key(b));
        lemma_text_before_asymmetric(album_key(b), album_key(a));
    }
    assert forall|a: Song, b: Song, c: Song| !f(a, b) && !f(b, c) implies !(#[trigger] f(a, c))
        || #[trigger] f(a, b) || #[trigger] f(b, c) by {
        lemma_text_before_total(album_key(a), album_key(b));
        lemma_text_before_total(album_key(b), album_key(c));
        lemma_text_before_total(album_key(a), album_key(c));
        lemma_text_before_transitive(album_key(a), album_key(b), album_key(c));
        lemma_text_before_transitive(album_key(c), album_key(b), album_key(a));
        lemma_text_before_transitive(album_key(b), album_key(c), album_key(a));
        lemma_text_before_transitive(album_key(c), album_key(a), album_key(b));
        lemma_text_before_asymmetric(album_key(a), album_key(c));
        lemma_text_before_asymmetric(album_key(a), album_key(b));
        lemma_text_before_asymmetric(album_key(b), album_key(c));
    }
}

/// The songs of an artist archive come sorted by album, disc and track, and
/// they are exactly the artist's songs.
pub proof fn lemma_artist_order(songs: Seq<Song>)
    ensures
        artist_order(songs).to_multiset() == songs.to_multiset(),
        artist_order(songs).len() == songs.len(),
        forall|i: int, j: int|
            0 <= i < j < songs.len() ==> !song_after(
                #[trigger] artist_order(songs)[i],
                #[trigger] artist_order(songs)[j],
            ),
{
    lemma_artist_zip_order();
    lemma_sorted_permutation(songs, artist_zip_order());
    lemma_sorted_is_sorted(songs, artist_zip_order());
    let r = artist_order(songs);
    assert forall|i: int, j: int| 0 <= i < j < songs.len() implies !song_after(
        #[trigger] r[i],
        #[trigger] r[j],
    ) by {
        assert(!artist_zip_order()(r[i], r[j]));
    }
}

/// The album name that a song is filed under, as characters.
fn album_chars(s: &Song) -> (r: Vec<char>)
    ensures
        r@ == album_key(*s),
{
    match &s.album_name {
        Some(a) => to_chars(a.as_str()),
        None => Vec::new(),
    }
}

/// Whether song `a` belongs after song `b` in an artist archive.
fn song_after_exec(a: &Song, b: &Song) -> (r: bool)
    ensures
        r == song_after(*a, *b),
{
    let ka = album_chars(a);
    let kb = album_chars(b);
    if chars_before(kb.as_slice(), ka.as_slice()) {
        return true;
    }
    if chars_before(ka.as_slice(), kb.as_slice()) {
        proof {
            lemma_text_before_asymmetric(ka@, kb@);
        }
        return false;
    }
    proof {
        lemma_text_before_total(ka@, kb@);
    }
    let da: i64 = match a.disc_number {
        Some(d) => d as i64,
        None => 1,
    };
    let db: i64 = match b.disc_number {
        Some(d) => d as i64,
        None => 1,
    };
    if db < da {
        return true;
    }
    if da < db {
        return false;
    }
    let ta: i64 = match a.track_number {
        Some(t) => t as i64,
        None => 0,
    };
    let tb: i64 = match b.track_number {
        Some(t) => t as i64,
        None => 0,
    };
    tb < ta
}

/// The songs in artist archive order.
fn artist_order_exec(songs: Vec<Song>) -> (r: Vec<Song>)
    ensures
        r@ == artist_order(songs@),
{
    let ghost src = songs@;
    let rev = reversed(songs);
    let mut rev = rev;
    let mut sorted: Vec<Song> = Vec::new();
    let ghost n = src.len();
    assert(rev@.reverse() =~= src);
    assert(src.take(0) =~= Seq::<Song>::empty());
    while rev.len() > 0
        invariant
            rev@.reverse() == src.skip(n - rev@.len()),
            sorted@ == insertion_sorted(src.take(n - rev@.len()), artist_zip_order()),
            rev@.len() <= n,
            n == src.len(),
        decreases rev@.len(),
    {
        let ghost before = rev@;
        let e = rev.pop().unwrap();
        let ghost done = n - rev@.len() - 1;
        assert(before =~= rev@.push(e));
        assert(before.reverse() =~= seq![e] + rev@.reverse());
        assert(src.skip(done)[0] == e);
        assert(src.skip(done).drop_first() =~= src.skip(done + 1));
        let ghost s = sorted@;
        let mut p = sorted.len();
        while p > 0 && song_after_exec(&sorted[p - 1], &e)
            invariant
                p <= sorted@.len(),
                s == sorted@,
                forall|k: int| p <= k < s.len() ==> artist_zip_order()(#[trigger] s[k], e),
            decreases p,
        {
            p = p - 1;
        }
        proof {
            lemma_insert_at(s, e, p as int, artist_zip_order());
            assert(src.take(done + 1).drop_last() =~= src.take(done));
            assert(src.take(done + 1).last() == e);
        }
        sorted.insert(p, e);
        assert(sorted@ =~= s.take(p as int).push(e) + s.skip(p as int));
    }
    assert(src.take(n as int) =~= src);
    sorted
}

/// Whether the songs of album `key` among `songs` span several discs.
fn album_has_many_discs(songs: &[Song], key: &[char]) -> (r: bool)
    ensures
        r == album_multi_disc(songs@, key@),
{
    let mut first: Option<i32> = None;
    let mut first_at: usize = 0;
    let mut i: usize = 0;
    while i < songs.len()
        invariant
            i <= songs@.len(),
            first is None ==> forall|k: int|
                0 <= k < i && album_key(#[trigger] songs@[k]) == key@ ==> songs@[k].disc_number is None,
            first is Some ==> first_at < i && album_key(songs@[first_at as int]) == key@
                && songs@[first_at as int].disc_number == first && forall|k: int|
                0 <= k < i && album_key(#[trigger] songs@[k]) == key@ && songs@[k].disc_number is Some
                    ==> songs@[k].disc_number == first,
        decreases songs@.len() - i,
    {
        let k = album_chars(&songs[i]);
        let same = !chars_before(k.as_slice(), key) && !chars_before(key, k.as_slice());
        proof {
            lemma_text_before_total(k@, key@);
            if k@ == key@ {
                lemma_text_before_asymmetric(k@, key@);
                assert(!text_before(k@, k@)) by {
                    lemma_text_before_asymmetric(k@, k@);
                }
            }
        }
        if same {
            match songs[i].disc_number {
                Some(d) => match first {
                    None => {
                        first = Some(d);
                        first_at = i;
                    },
                    Some(f) => {
                        if d != f {
                            assert(album_key(songs@[i as int]) == key@ && album_key(
                                songs@[first_at as int],
                            ) == key@);
                            return true;
                        }
                    },
                },
                None => {},
            }
        }
        i = i + 1;
    }
    proof {
        if album_multi_disc(songs@, key@) {
            let (a, b) = choose|a: int, b: int|
                0 <= a < songs@.len() && 0 <= b < songs@.len() && album_key(#[trigger] songs@[a])
                    == key@ && album_key(#[trigger] songs@[b]) == key@ && songs@[a].disc_number
                    is Some && songs@[b].disc_number is Some && songs@[a].disc_number
                    != songs@[b].disc_number;
            assert(album_key(songs@[a]) == key@);
            assert(album_key(songs@[b]) == key@);
        }
    }
    false
}

/// The zip entry names and songs of an artist download: the songs sorted
/// by album, disc and track, each under its album directory, with disc
/// subfolders for the albums whose songs span several discs.
pub fn artist_zip_entries(songs: Vec<Song>) -> (r: Vec<(String, Song)>)
    ensures
        r@.len() == songs@.len(),
        forall|i: int|
            0 <= i < r@.len() ==> (#[trigger] r@[i]).1 == artist_order(songs@)[i]
                && is_album_entry_of(
                r@[i].0@,
                r@[i].1,
                album_multi_disc(artist_order(songs@), album_key(r@[i].1)),
            ),
{
    proof {
        lemma_sorted_permutation(songs@, artist_zip_order());
    }
    let sorted = artist_order_exec(songs);
    let mut names: Vec<String> = Vec::new();
    let mut i: usize = 0;
    while i < sorted.len()
        invariant
            i <= sorted@.len(),
            names@.len() == i,
            forall|k: int|
                0 <= k < i ==> is_album_entry_of(
                    (#[trigger] names@[k])@,
                    sorted@[k],
                    album_multi_disc(sorted@, album_key(sorted@[k])),
                ),
        decreases sorted@.len() - i,
    {
        let key = album_chars(&sorted[i]);
        let multi = album_has_many_discs(sorted.as_slice(), key.as_slice());
        let name = album_zip_entry_name(&sorted[i], multi);
        names.push(name);
        i = i + 1;
    }
    let ghost nv = names@;
    let ghost sv = sorted@;
    let r = pair_up(names, sorted);
    assert forall|i: int| 0 <= i < r@.len() implies (#[trigger] r@[i]).1 == artist_order(songs@)[i]
        && is_album_entry_of(
        r@[i].0@,
        r@[i].1,
        album_multi_disc(artist_order(songs@), album_key(r@[i].1)),
    ) by {
        assert(r@[i].0@ == nv[i]@);
        assert(r@[i].1 == sv[i]);
    }
    r
}

/// One entry of a playlist's M3U index.
pub open spec fn m3u_entry(song: Song, index: int) -> Seq<char> {
    "#EXTINF:"@ + signed_decimal(song.duration as int) + ","@ + artist_or_unknown(
        opt_view(song.artist_name),
    ) + " - "@ + song.title@ + "\n"@ + spec_playlist_entry(song, index) + "\n"@
}

/// The M3U entries of the songs, in order.
pub open spec fn m3u_entries(songs: Seq<Song>) -> Seq<char>
    decreases songs.len(),
{
    if songs.len() == 0 {
        Seq::empty()
    } else {
        m3u_entries(songs.drop_last()) + m3u_entry(songs.last(), songs.len() - 1)
    }
}

/// The M3U index of a playlist download.
pub open spec fn spec_m3u(playlist_name: Seq<char>, songs: Seq<Song>) -> Seq<char> {
    "#EXTM3U\n#PLAYLIST:"@ + playlist_name + "\n"@ + m3u_entries(songs)
}

/// Builds zip entries and an M3U index for a playlist download: the
/// entries named by position, artist and title, and the index named after
/// the playlist.
pub fn playlist_zip_entries(songs: Vec<Song>, playlist_name: &str) -> (r: (
    Vec<(String, Song)>,
    (String, String),
))
    requires
        songs@.len() < u64::MAX,
    ensures
        r.0@.len() == songs@.len(),
        forall|i: int|
            0 <= i < r.0@.len() ==> (#[trigger] r.0@[i]).1 == songs@[i] && r.0@[i].0@
                == spec_playlist_entry(songs@[i], i),
        r.1.0@ == spec_zip_component(playlist_name@) + ".m3u"@,
        r.1.1@ == spec_m3u(playlist_name@, songs@),
{
    let mut m3u = String::new();
    m3u.append("#EXTM3U\n#PLAYLIST:");
    m3u.append(playlist_name);
    m3u.append("\n");
    let ghost head = "#EXTM3U\n#PLAYLIST:"@ + playlist_name@ + "\n"@;
    assert(m3u@ =~= head + m3u_entries(songs@.take(0)));
    let mut names: Vec<String> = Vec::new();
    let mut i: usize = 0;
    while i < songs.len()
        invariant
            i <= songs@.len() < u64::MAX,
            names@.len() == i,
            forall|k: int| 0 <= k < i ==> (#[trigger] names@[k])@ == spec_playlist_entry(songs@[k], k),
            m3u@ == head + m3u_entries(songs@.take(i as int)),
        decreases songs@.len() - i,
    {
        let song = &songs[i];
        let entry_name = playlist_zip_entry_name(song, i);
        let ghost before = m3u@;
        m3u.append("#EXTINF:");
        let d = i32_to_string(song.duration);
        m3u.append(d.as_str());
        m3u.append(",");
        let artist = match &song.artist_name {
            Some(a) => a.as_str(),
            None => "Unknown Artist",
        };
        m3u.append(artist);
        m3u.append(" - ");
        m3u.append(song.title.as_str());
        m3u.append("\n");
        m3u.append(entry_name.as_str());
        m3u.append("\n");
        assert(songs@.take(i + 1).drop_last() =~= songs@.take(i as int));
        assert(m3u@ =~= before + m3u_entry(songs@[i as int], i as int));
        names.push(entry_name);
        i = i + 1;
    }
    assert(songs@.take(songs@.len() as int) =~= songs@);
    let mut m3u_name = sanitize_zip_component(playlist_name);
    m3u_name.append(".m3u");
    let entries = pair_up(names, songs);
    (entries, (m3u_name, m3u))
}

// ---------------------------------------------------------------------------
// What a download or a stream asks for
// ---------------------------------------------------------------------------
/// What a download identifier names.
#[derive(PartialEq, Eq, Structural, Clone, Copy, Debug)]
pub enum DownloadTarget {
    /// A song, served as its file.
    Song(i32),
    /// An album, served as a zip archive.
    Album(i32),
    /// An artist, served as a zip archive.
    Artist(i32),
    /// A playlist, served as a zip archive with its M3U index.
    Playlist(i32),
}

/// The number that `s` spells, as an `i32`.
pub open spec fn id_number(s: Seq<char>) -> Option<i32> {
    match parsed_i32(s) {
        Some(n) => Some(n as i32),
        None => None,
    }
}

/// Whether `id` begins with the three characters `a`, `b`, `-`.
pub open spec fn has_tag(id: Seq<char>, a: char, b: char) -> bool {
    id.len() >= 3 && id[0] == a && id[1] == b && id[2] == '-'
}

/// What a download identifier names: `al-N` an album, `ar-N` an artist,
/// `pl-N` a playlist, `mf-N` and a bare `N` a song.
pub open spec fn spec_download_target(id: Seq<char>) -> Option<DownloadTarget> {
    let rest = id.skip(3);
    if has_tag(id, 'a', 'l') {
        match id_number(rest) {
            Some(n) => Some(DownloadTarget::Album(n)),
            None => None,
        }
    } else if has_tag(id, 'a', 'r') {
        match id_number(rest) {
            Some(n) => Some(DownloadTarget::Artist(n)),
            None => None,
        }
    } else if has_tag(id, 'p', 'l') {
        match id_number(rest) {
            Some(n) => Some(DownloadTarget::Playlist(n)),
            None => None,
        }
    } else if has_tag(id, 'm', 'f') {
        match id_number(rest) {
            Some(n) => Some(DownloadTarget::Song(n)),
            None => None,
        }
    } else {
        match id_number(id) {
            Some(n) => Some(DownloadTarget::Song(n)),
            None => None,
        }
    }
}

/// A tagged identifier names the number written after its tag: `al-N` the
/// album `N`, `ar-N` the artist `N`, `pl-N` the playlist `N`, `mf-N` and a
/// bare `N` the song `N`.
pub proof fn lemma_download_ids(n: nat)
    requires
        n <= i32::MAX,
    ensures
        spec_download_target("al-"@ + decimal(n)) == Some(DownloadTarget::Album(n as i32)),
        spec_download_target("ar-"@ + decimal(n)) == Some(DownloadTarget::Artist(n as i32)),
        spec_download_target("pl-"@ + decimal(n)) == Some(DownloadTarget::Playlist(n as i32)),
        spec_download_target("mf-"@ + decimal(n)) == Some(DownloadTarget::Song(n as i32)),
        spec_download_target(decimal(n)) == Some(DownloadTarget::Song(n as i32)),
{
    reveal_strlit("al-");
    reveal_strlit("ar-");
    reveal_strlit("pl-");
    reveal_strlit("mf-");
    lemma_decimal_parses(n);
    crate::number::lemma_decimal_digits(n);
    let d = decimal(n);
    assert(("al-"@ + d).skip(3) =~= d);
    assert(("ar-"@ + d).skip(3) =~= d);
    assert(("pl-"@ + d).skip(3) =~= d);
    assert(("mf-"@ + d).skip(3) =~= d);
    assert(crate::text::is_digit(d[0]));
    if d.len() >= 3 {
        assert(crate::text::is_digit(d[2]));
    }
}

/// The number that `v` spells.
fn number_of(v: &[char]) -> (r: Option<i32>)
    ensures
        r == id_number(v@),
{
    match parse_i32(v) {
        Some(n) => Some(n),
        None => None,
    }
}

/// What a download identifier names (see `spec_download_target`).
pub fn download_target(id: &str) -> (r: Option<DownloadTarget>)
    ensures
        r == spec_download_target(id@),
{
    let v = to_chars(id);
    if v.len() >= 3 && v[2] == '-' {
        let rest = sub_chars(v.as_slice(), 3, v.len());
        assert(rest@ == id@.skip(3));
        let n = number_of(rest.as_slice());
        if v[0] == 'a' && v[1] == 'l' {
            return match n {
                Some(n) => Some(DownloadTarget::Album(n)),
                None => None,
            };
        }
        if v[0] == 'a' && v[1] == 'r' {
            return match n {
                Some(n) => Some(DownloadTarget::Artist(n)),
                None => None,
            };
        }
        if v[0] == 'p' && v[1] == 'l' {
            return match n {
                Some(n) => Some(DownloadTarget::Playlist(n)),
                None => None,
            };
        }
        if v[0] == 'm' && v[1] == 'f' {
            return match n {
                Some(n) => Some(DownloadTarget::Song(n)),
                None => None,
            };
        }
    }
    match number_of(v.as_slice()) {
        Some(n) => Some(DownloadTarget::Song(n)),
        None => None,
    }
}

/// What a `download` request asks for: the `id` parameter is required; one
/// that names nothing is refused as `Invalid id: <id>`; then a user without
/// the download role is not authorized.
pub fn download_request(id: Option<&str>, download_role: bool) -> (r: Result<
    DownloadTarget,
    ApiError,
>)
    ensures
        id is None ==> (r matches Err(ApiError::MissingParameter(m)) && m@ == "id"@),
        id is Some && spec_download_target(id->0@) is None ==> (r matches Err(
            ApiError::Generic(m),
        ) && m@ == "Invalid id: "@ + id->0@),
        id is Some && spec_download_target(id->0@) is Some && !download_role ==> r matches Err(
            ApiError::NotAuthorized,
        ),
        id is Some && spec_download_target(id->0@) is Some && download_role ==> r == Ok::<
            DownloadTarget,
            ApiError,
        >(spec_download_target(id->0@)->0),
{
    let i = match id {
        None => {
            return Err(ApiError::MissingParameter("id".to_string()));
        },
        Some(i) => i,
    };
    match download_target(i) {
        None => {
            let mut m = "Invalid id: ".to_string();
            m.append(i);
            Err(ApiError::Generic(m))
        },
        Some(t) => if download_role {
            Ok(t)
        } else {
            Err(ApiError::NotAuthorized)
        },
    }
}

/// The song that a `stream` request asks for: a bare `N` or `mf-N`; any
/// other or a missing `id` is a missing parameter.
pub fn stream_song_id(id: Option<&str>) -> (r: Result<i32, ApiError>)
    ensures
        id is Some && spec_download_target(id->0@) is Some && spec_download_target(
            id->0@,
        )->0 is Song ==> r == Ok::<i32, ApiError>(spec_download_target(id->0@)->0->Song_0),
        !(id is Some && spec_download_target(id->0@) is Some && spec_download_target(
            id->0@,
        )->0 is Song) ==> (r matches Err(
            ApiError::MissingParameter(m),
        ) && m@ == "id"@),
{
    match id {
        Some(i) => match download_target(i) {
            Some(DownloadTarget::Song(n)) => Ok(n),
            _ => Err(ApiError::MissingParameter("id".to_string())),
        },
        None => Err(ApiError::MissingParameter("id".to_string())),
    }
}

/// Whether a song found for a `stream` request may be streamed: an unknown
/// song is not found, and a user without the stream role is not authorized.
pub fn stream_access(song_found: bool, stream_role: bool) -> (r: Result<(), ApiError>)
    ensures
        !song_found ==> (r matches Err(ApiError::NotFound(m)) && m@ == "Song not found"@),
        song_found && !stream_role ==> r matches Err(ApiError::NotAuthorized),
        song_found && stream_role ==> r is Ok,
{
    if !song_found {
        return Err(ApiError::NotFound("Song not found".to_string()));
    }
    if !stream_role {
        return Err(ApiError::NotAuthorized);
    }
    Ok(())
}

/// The entries of an archive whose song paths validated, in order, as
/// (entry name, path) texts. `e[i]` holds an entry name and the validated
/// path of its song, `None` where the path did not validate.
pub open spec fn validated_entries(e: Seq<(String, Option<String>)>) -> Seq<(Seq<char>, Seq<char>)>
    decreases e.len(),
{
    if e.len() == 0 {
        seq![]
    } else {
        let rest = validated_entries(e.drop_last());
        match e.last().1 {
            Some(p) => rest.push((e.last().0@, p@)),
            None => rest,
        }
    }
}

/// The texts of a list of (entry name, path) pairs.
pub open spec fn pair_texts(v: Seq<(String, String)>) -> Seq<(Seq<char>, Seq<char>)> {
    v.map_values(|p: (String, String)| (p.0@, p.1@))
}

/// What goes into a zip download: the entries whose song path validated
/// (each entry with the path it validated to), in their order; with none
/// left the download is not found (`Audio files not found`).
pub fn archive_entries(entries: Vec<(String, Option<String>)>) -> (r: Result<
    Vec<(String, String)>,
    ApiError,
>)
    ensures
        validated_entries(entries@).len() == 0 ==> (r matches Err(ApiError::NotFound(m)) && m@
            == "Audio files not found"@),
        validated_entries(entries@).len() > 0 ==> (r matches Ok(v) && pair_texts(v@)
            == validated_entries(entries@)),
{
    let mut out: Vec<(String, String)> = Vec::new();
    let mut i: usize = 0;
    while i < entries.len()
        invariant
            i <= entries@.len(),
            pair_texts(out@) == validated_entries(entries@.take(i as int)),
        decreases entries@.len() - i,
    {
        let ghost before = entries@.take(i as int);
        assert(entries@.take(i + 1).drop_last() =~= before);
        let (name, path) = &entries[i];
        match path {
            Some(p) => {
                out.push((name.clone(), p.clone()));
                assert(pair_texts(out@) =~= validated_entries(before).push((name@, p@)));
            },
            None => {},
        }
        i = i + 1;
    }
    assert(entries@.take(entries@.len() as int) =~= entries@);
    if out.len() == 0 {
        return Err(ApiError::NotFound("Audio files not found".to_string()));
    }
    Ok(out)
}

} // verus!
