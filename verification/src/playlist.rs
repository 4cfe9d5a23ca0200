//! The songs of a playlist and how an update changes them: entries removed
//! by position, the rest numbered again from zero, new songs appended after
//! the last position.
use vstd::prelude::*;

verus! {

/// A song in a playlist, at a position.
#[derive(PartialEq, Eq, Structural, Clone, Copy, Debug)]
pub struct PlaylistEntry {
    pub position: i32,
    pub song_id: i32,
}

/// Entries whose positions strictly increase, as the store lists them.
pub open spec fn in_position_order(e: Seq<PlaylistEntry>) -> bool {
    forall|i: int, j: int| 0 <= i < j < e.len() ==> #[trigger] e[i].position < #[trigger] e[j].position
}

/// The entries whose position is not among `remove`, in their order.
pub open spec fn kept_entries(e: Seq<PlaylistEntry>, remove: Seq<i32>) -> Seq<PlaylistEntry>
    decreases e.len(),
{
    if e.len() == 0 {
        seq![]
    } else {
        let rest = kept_entries(e.drop_last(), remove);
        if remove.contains(e.last().position) {
            rest
        } else {
            rest.push(e.last())
        }
    }
}

/// Removing positions keeps exactly the entries whose position is not
/// among them: no kept entry has a position listed for removal, and every
/// entry whose position is not listed is kept.
pub proof fn lemma_kept_entries_members(e: Seq<PlaylistEntry>, remove: Seq<i32>, x: PlaylistEntry)
    ensures
        kept_entries(e, remove).contains(x) <==> (e.contains(x) && !remove.contains(x.position)),
    decreases e.len(),
{
    if e.len() > 0 {
        let d = e.drop_last();
        lemma_kept_entries_members(d, remove, x);
        let rest = kept_entries(d, remove);
        assert(e =~= d.push(e.last()));
        if d.contains(x) {
            let i = choose|i: int| 0 <= i < d.len() && d[i] == x;
            assert(e[i] == x);
        }
        if e.contains(x) && !d.contains(x) {
            let i = choose|i: int| 0 <= i < e.len() && e[i] == x;
            if i < d.len() {
                assert(d[i] == x);
            }
            assert(x == e.last());
        }
        if !remove.contains(e.last().position) {
            let k = rest.push(e.last());
            if rest.contains(x) {
                let i = choose|i: int| 0 <= i < rest.len() && rest[i] == x;
                assert(k[i] == x);
            }
            if k.contains(x) && x != e.last() {
                let i = choose|i: int| 0 <= i < k.len() && k[i] == x;
                assert(rest[i] == x);
            }
            if x == e.last() {
                assert(k[rest.len() as int] == x);
            }
        }
    }
}

/// The kept entries stay in the order of the playlist: where positions
/// increase along the playlist, they increase along the kept entries.
pub proof fn lemma_kept_entries_in_order(e: Seq<PlaylistEntry>, remove: Seq<i32>)
    requires
        in_position_order(e),
    ensures
        in_position_order(kept_entries(e, remove)),
    decreases e.len(),
{
    if e.len() > 0 {
        let d = e.drop_last();
        assert forall|i: int, j: int| 0 <= i < j < d.len() implies #[trigger] d[i].position
            < #[trigger] d[j].position by {
            assert(d[i] == e[i] && d[j] == e[j]);
        }
        lemma_kept_entries_in_order(d, remove);
        let rest = kept_entries(d, remove);
        if !remove.contains(e.last().position) {
            let k = rest.push(e.last());
            assert forall|i: int, j: int| 0 <= i < j < k.len() implies #[trigger] k[i].position
                < #[trigger] k[j].position by {
                if j == k.len() - 1 {
                    lemma_kept_entries_members(d, remove, rest[i]);
                    assert(rest.contains(rest[i]));
                    let m = choose|m: int| 0 <= m < d.len() && d[m] == rest[i];
                    assert(e[m] == d[m]);
                    assert(e[m].position < e[e.len() - 1].position);
                } else {
                    assert(k[i] == rest[i] && k[j] == rest[j]);
                }
            }
        }
    }
}

/// The same songs in the same order, at positions 0, 1, 2, ...
pub open spec fn renumbered(e: Seq<PlaylistEntry>) -> Seq<PlaylistEntry> {
    Seq::new(e.len(), |i: int| PlaylistEntry { position: i as i32, song_id: e[i].song_id })
}

/// The entries once the positions in `remove` are gone: untouched when
/// nothing is removed, else the kept entries numbered again.
pub open spec fn after_removal(e: Seq<PlaylistEntry>, remove: Seq<i32>) -> Seq<PlaylistEntry> {
    if remove.len() == 0 {
        e
    } else {
        renumbered(kept_entries(e, remove))
    }
}

/// The position after the last one, 0 for an empty playlist.
pub open spec fn next_position(e: Seq<PlaylistEntry>) -> int {
    if e.len() == 0 {
        0
    } else {
        e.last().position + 1
    }
}

/// The songs `add` at the positions that follow `e`.
pub open spec fn appended(e: Seq<PlaylistEntry>, add: Seq<i32>) -> Seq<PlaylistEntry> {
    Seq::new(
        add.len(),
        |j: int| PlaylistEntry { position: (next_position(e) + j) as i32, song_id: add[j] },
    )
}

/// The entries of a playlist after an update that removes the positions
/// `remove` and then appends the songs `add`.
pub open spec fn spec_updated_entries(e: Seq<PlaylistEntry>, add: Seq<i32>, remove: Seq<i32>) -> Seq<
    PlaylistEntry,
> {
    after_removal(e, remove) + appended(after_removal(e, remove), add)
}

/// No more entries are kept than there were.
proof fn lemma_kept_len(e: Seq<PlaylistEntry>, remove: Seq<i32>)
    ensures
        kept_entries(e, remove).len() <= e.len(),
    decreases e.len(),
{
    if e.len() > 0 {
        lemma_kept_len(e.drop_last(), remove);
    }
}

/// The entries that are not removed, numbered again from zero.
fn renumbered_kept(entries: &Vec<PlaylistEntry>, remove: &[i32]) -> (r: Vec<PlaylistEntry>)
    requires
        entries@.len() <= i32::MAX,
    ensures
        r@ == renumbered(kept_entries(entries@, remove@)),
{
    let mut kept: Vec<PlaylistEntry> = Vec::new();
    let mut i: usize = 0;
    while i < entries.len()
        invariant
            i <= entries@.len(),
            entries@.len() <= i32::MAX,
            kept@.len() <= i,
            kept@ == renumbered(kept_entries(entries@.take(i as int), remove@)),
        decreases entries@.len() - i,
    {
        let e = entries[i];
        let ghost before = entries@.take(i as int);
        let ghost after = entries@.take(i + 1);
        assert(after.drop_last() =~= before);
        assert(after.last() == e);
        let mut found = false;
        let mut k: usize = 0;
        while k < remove.len()
            invariant
                k <= remove@.len(),
                found == exists|m: int| 0 <= m < k && #[trigger] remove@[m] == e.position,
            decreases remove@.len() - k,
        {
            if remove[k] == e.position {
                found = true;
            }
            k = k + 1;
        }
        assert(found == remove@.contains(e.position));
        if !found {
            let n = kept.len();
            kept.push(PlaylistEntry { position: n as i32, song_id: e.song_id });
            assert(kept@ =~= renumbered(kept_entries(before, remove@).push(e)));
        }
        i = i + 1;
    }
    assert(entries@.take(entries@.len() as int) =~= entries@);
    kept
}

/// The songs of a playlist after an update (`updatePlaylist`): the entries
/// at the positions in `song_indices_to_remove` are deleted and the rest
/// numbered again from zero (when there is something to remove); then the
/// songs `song_ids_to_add` are appended, in their order, at the positions
/// after the last one.
pub fn updated_entries(
    entries: &Vec<PlaylistEntry>,
    song_ids_to_add: &[i32],
    song_indices_to_remove: &[i32],
) -> (r: Vec<PlaylistEntry>)
    requires
        in_position_order(entries@),
        entries@.len() <= i32::MAX,
        next_position(after_removal(entries@, song_indices_to_remove@)) + song_ids_to_add@.len()
            <= i32::MAX,
    ensures
        r@ == spec_updated_entries(entries@, song_ids_to_add@, song_indices_to_remove@),
{
    let mut r: Vec<PlaylistEntry> = if song_indices_to_remove.len() == 0 {
        entries.clone()
    } else {
        renumbered_kept(entries, song_indices_to_remove)
    };
    assert(r@ == after_removal(entries@, song_indices_to_remove@));
    let ghost base = r@;
    let mut next: i32 = if r.len() == 0 {
        0
    } else {
        r[r.len() - 1].position + 1
    };
    let mut j: usize = 0;
    while j < song_ids_to_add.len()
        invariant
            j <= song_ids_to_add@.len(),
            next == next_position(base) + j,
            next_position(base) + song_ids_to_add@.len() <= i32::MAX,
            r@ == base + appended(base, song_ids_to_add@.take(j as int)),
        decreases song_ids_to_add@.len() - j,
    {
        r.push(PlaylistEntry { position: next, song_id: song_ids_to_add[j] });
        assert(r@ =~= base + appended(base, song_ids_to_add@.take(j + 1)));
        next = next + 1;
        j = j + 1;
    }
    assert(song_ids_to_add@.take(song_ids_to_add@.len() as int) =~= song_ids_to_add@);
    r
}

/// An update leaves the positions of a playlist strictly increasing, the
/// songs appended coming after all that stay.
pub proof fn lemma_update_keeps_position_order(e: Seq<PlaylistEntry>, add: Seq<i32>, remove: Seq<i32>)
    requires
        in_position_order(e),
        e.len() <= i32::MAX,
        next_position(after_removal(e, remove)) + add.len() <= i32::MAX,
    ensures
        in_position_order(spec_updated_entries(e, add, remove)),
{
    let base = after_removal(e, remove);
    lemma_kept_len(e, remove);
    assert(in_position_order(base));
    assert forall|i: int| 0 <= i < base.len() implies #[trigger] base[i].position < next_position(base) by {
        if i < base.len() - 1 {
            assert(base[i].position < base[base.len() - 1].position);
        }
    }
    let r = spec_updated_entries(e, add, remove);
    let t = appended(base, add);
    assert forall|i: int, j: int| 0 <= i < j < r.len() implies #[trigger] r[i].position < #[trigger] r[j].position by {
        if j < base.len() {
            assert(r[i] == base[i] && r[j] == base[j]);
        } else if i < base.len() {
            assert(r[i] == base[i] && r[j] == t[j - base.len()]);
        } else {
            assert(r[i] == t[i - base.len()] && r[j] == t[j - base.len()]);
        }
    }
}

/// The entries of a new playlist: each song that was found, at its index
/// among the songs asked for. `durations[i]` is the duration of the song
/// `ids[i]`, `None` where there is no such song.
pub open spec fn created_entries(ids: Seq<i32>, durations: Seq<Option<i32>>) -> Seq<PlaylistEntry>
    decreases ids.len(),
{
    if ids.len() == 0 {
        seq![]
    } else {
        let rest = created_entries(ids.drop_last(), durations);
        if durations[ids.len() - 1] is Some {
            rest.push(PlaylistEntry { position: (ids.len() - 1) as i32, song_id: ids.last() })
        } else {
            rest
        }
    }
}

/// The summed duration of the songs that were found.
pub open spec fn found_duration(durations: Seq<Option<i32>>) -> int
    decreases durations.len(),
{
    if durations.len() == 0 {
        0
    } else {
        found_duration(durations.drop_last()) + match durations.last() {
            Some(d) => d as int,
            None => 0,
        }
    }
}

/// Each running total of the found durations fits in an `i32`.
pub open spec fn totals_fit(durations: Seq<Option<i32>>) -> bool {
    forall|k: int|
        0 <= k <= durations.len() ==> i32::MIN <= #[trigger] found_duration(durations.take(k))
            <= i32::MAX
}

/// A playlist as it is created (`createPlaylist`).
pub struct NewPlaylistSongs {
    /// The songs that were found, at their index among those asked for.
    pub entries: Vec<PlaylistEntry>,
    /// The number of songs asked for.
    pub song_count: i32,
    /// The summed duration of the songs found.
    pub duration: i32,
}

/// The songs of a new playlist: each song asked for that was found goes in
/// at its index in `song_ids`; the count is that of the songs asked for;
/// the duration sums those that were found.
pub fn new_playlist_songs(song_ids: &[i32], durations: &[Option<i32>]) -> (r: NewPlaylistSongs)
    requires
        durations@.len() == song_ids@.len(),
        song_ids@.len() <= i32::MAX,
        totals_fit(durations@),
    ensures
        r.entries@ == created_entries(song_ids@, durations@),
        r.song_count == song_ids@.len(),
        r.duration == found_duration(durations@),
{
    let mut entries: Vec<PlaylistEntry> = Vec::new();
    let mut total: i32 = 0;
    let mut i: usize = 0;
    while i < song_ids.len()
        invariant
            i <= song_ids@.len(),
            durations@.len() == song_ids@.len(),
            song_ids@.len() <= i32::MAX,
            totals_fit(durations@),
            entries@ == created_entries(song_ids@.take(i as int), durations@),
            total == found_duration(durations@.take(i as int)),
        decreases song_ids@.len() - i,
    {
        let ghost ids_before = song_ids@.take(i as int);
        let ghost ids_after = song_ids@.take(i + 1);
        assert(ids_after.drop_last() =~= ids_before);
        let ghost d_after = durations@.take(i + 1);
        assert(d_after.drop_last() =~= durations@.take(i as int));
        assert(i32::MIN <= found_duration(durations@.take(i + 1)) <= i32::MAX);
        match durations[i] {
            Some(d) => {
                total = total + d;
                entries.push(PlaylistEntry { position: i as i32, song_id: song_ids[i] });
            },
            None => {},
        }
        i = i + 1;
    }
    assert(song_ids@.take(song_ids@.len() as int) =~= song_ids@);
    assert(durations@.take(durations@.len() as int) =~= durations@);
    NewPlaylistSongs { entries, song_count: song_ids.len() as i32, duration: total }
}

} // verus!
