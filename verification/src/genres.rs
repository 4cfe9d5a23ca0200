//! The genre list of `getGenres`: the song and album counts per genre,
//! merged into one entry per genre, in order of genre names.
use vstd::prelude::*;
use vstd::map::*;
use crate::media::str_eq;
use crate::order::{chars_before, lemma_insert_shift, lemma_text_before_asymmetric, lemma_text_before_total, lemma_text_before_transitive, text_before};
use crate::text::to_chars;

verus! {

/// The count of each genre in rows of (genre, count): rows without a genre
/// are ignored, and of two rows of one genre the later counts.
pub open spec fn count_map(rows: Seq<(Option<String>, i64)>) -> Map<Seq<char>, i64>
    decreases rows.len(),
{
    if rows.len() == 0 {
        Map::empty()
    } else {
        let m = count_map(rows.drop_last());
        match rows.last().0 {
            Some(g) => m.insert(g@, rows.last().1),
            None => m,
        }
    }
}

/// Each genre that has songs or albums, with its song count and its album
/// count (zero where it has none).
pub open spec fn genre_table(songs: Seq<(Option<String>, i64)>, albums: Seq<(Option<String>, i64)>) -> Map<
    Seq<char>,
    (i64, i64),
> {
    let s = count_map(songs);
    let a = count_map(albums);
    Map::new(
        |g: Seq<char>| s.contains_key(g) || a.contains_key(g),
        |g: Seq<char>|
            (
                if s.contains_key(g) {
                    s[g]
                } else {
                    0i64
                },
                if a.contains_key(g) {
                    a[g]
                } else {
                    0i64
                },
            ),
    )
}

/// The list `r` holds the genres of table `t`, one entry each, in order of
/// names.
pub open spec fn lists_table(r: Seq<(String, i64, i64)>, t: Map<Seq<char>, (i64, i64)>) -> bool {
    &&& forall|i: int, j: int|
        0 <= i < j < r.len() ==> text_before(#[trigger] r[i].0@, #[trigger] r[j].0@)
    &&& forall|i: int|
        0 <= i < r.len() ==> t.contains_key((#[trigger] r[i]).0@) && t[r[i].0@] == (r[i].1, r[i].2)
    &&& forall|g: Seq<char>|
        #[trigger] t.contains_key(g) ==> exists|i: int| 0 <= i < r.len() && (#[trigger] r[i]).0@ == g
}

/// The counts of genre `g` once one of them is set to `count`: the album
/// count where `album`, else the song count; the other is kept, or zero.
pub open spec fn set_count(t: Map<Seq<char>, (i64, i64)>, g: Seq<char>, count: i64, album: bool) -> (
    i64,
    i64,
) {
    if album {
        (
            if t.contains_key(g) {
                t[g].0
            } else {
                0i64
            },
            count,
        )
    } else {
        (
            count,
            if t.contains_key(g) {
                t[g].1
            } else {
                0i64
            },
        )
    }
}

/// Sets one count of genre `name` in the sorted list, adding the genre in
/// its place where it is not listed yet.
fn upsert(
    r: &mut Vec<(String, i64, i64)>,
    name: &String,
    count: i64,
    album: bool,
    Ghost(t): Ghost<Map<Seq<char>, (i64, i64)>>,
)
    requires
        lists_table(old(r)@, t),
    ensures
        lists_table(final(r)@, t.insert(name@, set_count(t, name@, count, album))),
{
    let ghost old_r = r@;
    let ghost t2 = t.insert(name@, set_count(t, name@, count, album));
    let key = to_chars(name.as_str());
    let mut p: usize = 0;
    while p < r.len() && chars_before(to_chars(r[p].0.as_str()).as_slice(), key.as_slice())
        invariant
            p <= r@.len(),
            r@ == old_r,
            key@ == name@,
            forall|i: int| 0 <= i < p ==> text_before((#[trigger] r@[i]).0@, name@),
        decreases r@.len() - p,
    {
        p = p + 1;
    }
    if p < r.len() && str_eq(r[p].0.as_str(), name.as_str()) {
        let n = r[p].0.clone();
        let (sc, ac) = (r[p].1, r[p].2);
        let entry = if album {
            (n, sc, count)
        } else {
            (n, count, ac)
        };
        r.set(p, entry);
        assert(lists_table(r@, t2)) by {
            assert forall|i: int, j: int| 0 <= i < j < r@.len() implies text_before(
                #[trigger] r@[i].0@,
                #[trigger] r@[j].0@,
            ) by {
                assert(r@[i].0@ == old_r[i].0@ && r@[j].0@ == old_r[j].0@);
            }
            assert forall|i: int| 0 <= i < r@.len() implies t2.contains_key((#[trigger] r@[i]).0@)
                && t2[r@[i].0@] == (r@[i].1, r@[i].2) by {
                if i != p {
                    assert(r@[i] == old_r[i]);
                    assert(old_r[i].0@ != name@) by {
                        if i < p {
                            lemma_text_before_asymmetric(old_r[i].0@, name@);
                            lemma_text_before_asymmetric(name@, name@);
                        } else {
                            assert(text_before(old_r[p as int].0@, old_r[i].0@));
                            lemma_text_before_asymmetric(name@, name@);
                        }
                    }
                }
            }
            assert forall|g: Seq<char>| #[trigger] t2.contains_key(g) implies exists|i: int|
                0 <= i < r@.len() && (#[trigger] r@[i]).0@ == g by {
                if g == name@ {
                    assert(r@[p as int].0@ == g);
                } else {
                    let i = choose|i: int| 0 <= i < old_r.len() && (#[trigger] old_r[i]).0@ == g;
                    assert(r@[i].0@ == g);
                }
            }
        }
    } else {
        proof {
            if p < old_r.len() {
                lemma_text_before_total(old_r[p as int].0@, name@);
            }
        }
        // The genre is not listed: every name before `p` comes before it,
        // every name from `p` on after it.
        assert forall|i: int| p <= i < old_r.len() implies text_before(
            name@,
            (#[trigger] old_r[i]).0@,
        ) by {
            if i > p {
                lemma_text_before_transitive(name@, old_r[p as int].0@, old_r[i].0@);
            }
        }
        assert(!t.contains_key(name@)) by {
            if t.contains_key(name@) {
                let i = choose|i: int| 0 <= i < old_r.len() && (#[trigger] old_r[i]).0@ == name@;
                lemma_text_before_asymmetric(name@, name@);
                if i < p {
                    assert(text_before(old_r[i].0@, name@));
                } else {
                    assert(text_before(name@, old_r[i].0@));
                }
            }
        }
        let entry = if album {
            (name.clone(), 0i64, count)
        } else {
            (name.clone(), count, 0i64)
        };
        let ghost e = entry;
        r.insert(p, entry);
        proof {
            old_r.insert_ensures(p as int, e);
        }
        assert(r@ == old_r.insert(p as int, e));
        assert forall|i: int| p < i < r@.len() implies r@[i] == old_r[i - 1] by {
            lemma_insert_shift(old_r, p as int, e, i);
        }
        assert forall|i: int| 0 <= i < p implies r@[i] == old_r[i] by {}
        assert forall|i: int, j: int| 0 <= i < j < r@.len() implies text_before(
            #[trigger] r@[i].0@,
            #[trigger] r@[j].0@,
        ) by {
            if j < p {
            } else if j == p {
            } else if i < p {
                assert(r@[j] == old_r[j - 1]);
                lemma_text_before_transitive(old_r[i].0@, name@, old_r[j - 1].0@);
            } else if i == p {
                assert(r@[j] == old_r[j - 1]);
            } else {
                assert(r@[i] == old_r[i - 1] && r@[j] == old_r[j - 1]);
            }
        }
        assert forall|i: int| 0 <= i < r@.len() implies t2.contains_key((#[trigger] r@[i]).0@)
            && t2[r@[i].0@] == (r@[i].1, r@[i].2) by {
            if i != p {
                let k = if i < p {
                    i
                } else {
                    i - 1
                };
                assert(r@[i] == old_r[k]);
                assert(old_r[k].0@ != name@) by {
                    lemma_text_before_asymmetric(name@, name@);
                }
            }
        }
        assert forall|g: Seq<char>| #[trigger] t2.contains_key(g) implies exists|i: int|
            0 <= i < r@.len() && (#[trigger] r@[i]).0@ == g by {
            if g == name@ {
                assert(r@[p as int].0@ == g);
            } else {
                let i = choose|i: int| 0 <= i < old_r.len() && (#[trigger] old_r[i]).0@ == g;
                if i < p {
                    assert(r@[i].0@ == g);
                } else {
                    assert(r@[i + 1] == old_r[i]);
                    assert(r@[i + 1].0@ == g);
                }
            }
        }
    }
}

/// One more row of song counts sets that genre's song count.
proof fn lemma_song_row(
    songs: Seq<(Option<String>, i64)>,
    albums: Seq<(Option<String>, i64)>,
    k: int,
)
    requires
        0 <= k < songs.len(),
    ensures
        genre_table(songs.take(k + 1), albums) == match songs[k].0 {
            Some(g) => genre_table(songs.take(k), albums).insert(
                g@,
                set_count(genre_table(songs.take(k), albums), g@, songs[k].1, false),
            ),
            None => genre_table(songs.take(k), albums),
        },
{
    assert(songs.take(k + 1).drop_last() =~= songs.take(k));
    assert(songs.take(k + 1).last() == songs[k]);
    match songs[k].0 {
        Some(g) => {
            assert(genre_table(songs.take(k + 1), albums) =~= genre_table(songs.take(k), albums).insert(
                g@,
                set_count(genre_table(songs.take(k), albums), g@, songs[k].1, false),
            ));
        },
        None => {
            assert(genre_table(songs.take(k + 1), albums) =~= genre_table(songs.take(k), albums));
        },
    }
}

/// One more row of album counts sets that genre's album count.
proof fn lemma_album_row(
    songs: Seq<(Option<String>, i64)>,
    albums: Seq<(Option<String>, i64)>,
    k: int,
)
    requires
        0 <= k < albums.len(),
    ensures
        genre_table(songs, albums.take(k + 1)) == match albums[k].0 {
            Some(g) => genre_table(songs, albums.take(k)).insert(
                g@,
                set_count(genre_table(songs, albums.take(k)), g@, albums[k].1, true),
            ),
            None => genre_table(songs, albums.take(k)),
        },
{
    assert(albums.take(k + 1).drop_last() =~= albums.take(k));
    assert(albums.take(k + 1).last() == albums[k]);
    match albums[k].0 {
        Some(g) => {
            assert(genre_table(songs, albums.take(k + 1)) =~= genre_table(songs, albums.take(k)).insert(
                g@,
                set_count(genre_table(songs, albums.take(k)), g@, albums[k].1, true),
            ));
        },
        None => {
            assert(genre_table(songs, albums.take(k + 1)) =~= genre_table(songs, albums.take(k)));
        },
    }
}

/// The genre list: every genre that has songs or albums, once, with its
/// song and album counts (zero where it has none), in order of names. Rows
/// without a genre are ignored; of two rows of one genre the later counts.
pub fn genre_counts(song_counts: &Vec<(Option<String>, i64)>, album_counts: &Vec<(Option<String>, i64)>) -> (r: Vec<
    (String, i64, i64),
>)
    ensures
        lists_table(r@, genre_table(song_counts@, album_counts@)),
{
    let ghost no_albums = Seq::<(Option<String>, i64)>::empty();
    let mut r: Vec<(String, i64, i64)> = Vec::new();
    assert(genre_table(song_counts@.take(0), no_albums) =~= Map::empty());
    let mut k: usize = 0;
    while k < song_counts.len()
        invariant
            k <= song_counts@.len(),
            lists_table(r@, genre_table(song_counts@.take(k as int), no_albums)),
        decreases song_counts@.len() - k,
    {
        proof {
            lemma_song_row(song_counts@, no_albums, k as int);
        }
        match &song_counts[k].0 {
            Some(g) => {
                upsert(
                    &mut r,
                    g,
                    song_counts[k].1,
                    false,
                    Ghost(genre_table(song_counts@.take(k as int), no_albums)),
                );
            },
            None => {},
        }
        k = k + 1;
    }
    assert(song_counts@.take(song_counts@.len() as int) =~= song_counts@);
    assert(album_counts@.take(0) =~= no_albums);
    let mut k: usize = 0;
    while k < album_counts.len()
        invariant
            k <= album_counts@.len(),
            lists_table(r@, genre_table(song_counts@, album_counts@.take(k as int))),
        decreases album_counts@.len() - k,
    {
        proof {
            lemma_album_row(song_counts@, album_counts@, k as int);
        }
        match &album_counts[k].0 {
            Some(g) => {
                upsert(
                    &mut r,
                    g,
                    album_counts[k].1,
                    true,
                    Ghost(genre_table(song_counts@, album_counts@.take(k as int))),
                );
            },
            None => {},
        }
        k = k + 1;
    }
    assert(album_counts@.take(album_counts@.len() as int) =~= album_counts@);
    r
}

} // verus!
