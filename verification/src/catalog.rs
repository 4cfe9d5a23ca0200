//! The decisions a library scan makes for each track: whether an
//! incremental scan skips it, which artist and album it is filed under
//! (found again in the catalog or created), what happens to its cover art,
//! whether the song is updated or added, and which counts it raises.
use vstd::prelude::*;
use crate::models::opt_view;
use crate::scanner::{
    cover_art_step, find_album, find_artist, should_skip_track, track_artist_name, AlbumKey,
    CoverArtStep, ScanMode, TrackStep,
};

verus! {

/// The first position of `s` whose item satisfies `p`.
pub open spec fn first_where<T>(s: Seq<T>, p: spec_fn(T) -> bool) -> Option<int>
    decreases s.len(),
{
    if s.len() == 0 {
        None
    } else {
        match first_where(s.drop_last(), p) {
            Some(i) => Some(i),
            None => if p(s.last()) {
                Some(s.len() - 1)
            } else {
                None
            },
        }
    }
}

/// `first_where` is the least position whose item satisfies `p`, and
/// `None` exactly when no item does.
pub proof fn lemma_first_where<T>(s: Seq<T>, p: spec_fn(T) -> bool)
    ensures
        first_where(s, p) is None <==> forall|i: int| 0 <= i < s.len() ==> !p(#[trigger] s[i]),
        first_where(s, p) matches Some(i) ==> 0 <= i < s.len() && p(s[i]) && forall|j: int|
            0 <= j < i ==> !p(#[trigger] s[j]),
    decreases s.len(),
{
    if s.len() > 0 {
        let d = s.drop_last();
        lemma_first_where(d, p);
        assert forall|i: int| 0 <= i < d.len() implies d[i] == s[i] by {}
        if first_where(d, p) is None && !p(s.last()) {
            assert forall|i: int| 0 <= i < s.len() implies !p(#[trigger] s[i]) by {
                if i < d.len() {
                    assert(d[i] == s[i]);
                }
            }
        }
        if first_where(d, p) is Some {
            let i = first_where(d, p)->0;
            assert(d[i] == s[i]);
            assert forall|j: int| 0 <= j < i implies !p(#[trigger] s[j]) by {
                assert(d[j] == s[j]);
            }
        }
        if first_where(d, p) is None && p(s.last()) {
            assert forall|j: int| 0 <= j < s.len() - 1 implies !p(#[trigger] s[j]) by {
                assert(d[j] == s[j]);
            }
        }
    }
}

/// What a scan's catalog holds: artist names; albums as name and artist;
/// the cover art identifier of each album.
pub struct CatalogView {
    pub artists: Seq<Seq<char>>,
    pub albums: Seq<(Seq<char>, Option<i32>)>,
    pub art: Seq<Option<Seq<char>>>,
}

/// The artists and albums that a scan files tracks under, with each album's
/// cover art. An artist's identifier is its position; so is an album's.
pub struct ScanCatalog {
    artists: Vec<String>,
    albums: Vec<AlbumKey>,
    album_art: Vec<Option<String>>,
}

impl View for ScanCatalog {
    type V = CatalogView;

    closed spec fn view(&self) -> CatalogView {
        CatalogView {
            artists: self.artists@.map_values(|s: String| s@),
            albums: self.albums@.map_values(|a: AlbumKey| (a.name@, a.artist_id)),
            art: self.album_art@.map_values(|o: Option<String>| opt_view(o)),
        }
    }
}

/// The artist a track is filed under: its album artist, else its artist.
pub open spec fn track_artist(album_artist: Option<Seq<char>>, artist: Option<Seq<char>>) -> Option<
    Seq<char>,
> {
    if album_artist is Some {
        album_artist
    } else {
        artist
    }
}

/// Whether an album key is the album looked for under `name` and `artist`.
pub open spec fn album_key_is(k: (Seq<char>, Option<i32>), name: Seq<char>, artist: Option<i32>) -> bool {
    k.0 == name && (artist is Some ==> k.1 == artist)
}

/// The position of the first artist named `name`.
pub open spec fn known_artist(c: CatalogView, name: Seq<char>) -> Option<int> {
    first_where(c.artists, |x: Seq<char>| x == name)
}

/// The position of the first album that is the one looked for.
pub open spec fn known_album(c: CatalogView, name: Seq<char>, artist: Option<i32>) -> Option<int> {
    first_where(c.albums, |k: (Seq<char>, Option<i32>)| album_key_is(k, name, artist))
}

/// The artist a track is filed under: the known one of that name, else a
/// new one at the end; none for a track without artist.
pub open spec fn artist_slot(c: CatalogView, name: Option<Seq<char>>) -> Option<int> {
    match name {
        None => None,
        Some(n) => match known_artist(c, n) {
            Some(i) => Some(i),
            None => Some(c.artists.len() as int),
        },
    }
}

/// The catalog once the track's artist is filed: a new artist is added.
pub open spec fn with_artist(c: CatalogView, name: Option<Seq<char>>) -> CatalogView {
    match name {
        Some(n) => if known_artist(c, n) is None {
            CatalogView { artists: c.artists.push(n), ..c }
        } else {
            c
        },
        None => c,
    }
}

/// The artist identifier of a slot.
pub open spec fn artist_id_of(slot: Option<int>) -> Option<i32> {
    match slot {
        Some(i) => Some(i as i32),
        None => None,
    }
}

/// The album a track is filed under: the known one, else a new one at the
/// end; none for a track without album.
pub open spec fn album_slot(c: CatalogView, album: Option<Seq<char>>, artist: Option<i32>) -> Option<
    int,
> {
    match album {
        None => None,
        Some(n) => match known_album(c, n, artist) {
            Some(i) => Some(i),
            None => Some(c.albums.len() as int),
        },
    }
}

/// The catalog once the track's album is filed: a new album is added,
/// without cover art.
pub open spec fn with_album(c: CatalogView, album: Option<Seq<char>>, artist: Option<i32>) -> CatalogView {
    match album {
        Some(n) => if known_album(c, n, artist) is None {
            CatalogView { albums: c.albums.push((n, artist)), art: c.art.push(None), ..c }
        } else {
            c
        },
        None => c,
    }
}

/// The cover art of the album at a slot.
pub open spec fn album_art_of(c: CatalogView, slot: Option<int>) -> Option<Seq<char>> {
    match slot {
        Some(b) => if 0 <= b < c.art.len() {
            c.art[b]
        } else {
            None
        },
        None => None,
    }
}

/// Whether an incremental scan skips a track: the song at its path is known
/// with a modification time equal to the file's.
pub open spec fn spec_should_skip(mode: ScanMode, stored: Option<(i32, Option<i64>)>, modified: Option<
    i64,
>) -> bool {
    mode == ScanMode::Incremental && match stored {
        Some((_, Some(t))) => modified == Some(t),
        _ => false,
    }
}

/// What a scan does with one track.
pub enum TrackAction {
    /// The file is unchanged; nothing is written.
    Skip,
    /// The song is written, filed under this artist and album.
    Write {
        /// The artist's identifier.
        artist_id: Option<i32>,
        /// The artist was created for this track.
        new_artist: bool,
        /// The album's position in the catalog.
        album: Option<usize>,
        /// The album was created for this track.
        new_album: bool,
        /// What happens to the album's cover art.
        art: CoverArtStep,
        /// The identifier of the song that is updated; `None` adds one.
        update: Option<i32>,
    },
}

impl ScanCatalog {
    /// An empty catalog.
    pub fn new() -> (r: Self)
        ensures
            r@.artists.len() == 0,
            r@.albums.len() == 0,
            r@.art.len() == 0,
    {
        ScanCatalog { artists: Vec::new(), albums: Vec::new(), album_art: Vec::new() }
    }

    /// The number of artists.
    pub fn artist_count(&self) -> (r: usize)
        ensures
            r == self@.artists.len(),
    {
        self.artists.len()
    }

    /// The name of the artist at `i`.
    pub fn artist_name(&self, i: usize) -> (r: Option<String>)
        ensures
            r is Some <==> i < self@.artists.len(),
            r is Some ==> r->0@ == self@.artists[i as int],
    {
        if i < self.artists.len() {
            Some(self.artists[i].clone())
        } else {
            None
        }
    }

    /// The cover art of the album at `i`.
    pub fn album_art(&self, i: usize) -> (r: Option<String>)
        ensures
            opt_view(r) == album_art_of(self@, Some(i as int)),
    {
        if i < self.album_art.len() {
            match &self.album_art[i] {
                Some(s) => Some(s.clone()),
                None => None,
            }
        } else {
            None
        }
    }

    /// Records the cover art saved for the album at `album`.
    pub fn record_album_art(&mut self, album: usize, id: String)
        ensures
            final(self)@ == (CatalogView {
                art: if album < old(self)@.art.len() {
                    old(self)@.art.update(album as int, Some(id@))
                } else {
                    old(self)@.art
                },
                ..old(self)@
            }),
    {
        if album < self.album_art.len() {
            self.album_art.set(album, Some(id));
        }
        proof {
            assert(self@.art =~= (if album < old(self)@.art.len() {
                old(self)@.art.update(album as int, Some(id@))
            } else {
                old(self)@.art
            }));
            assert(self@.artists =~= old(self)@.artists);
            assert(self@.albums =~= old(self)@.albums);
        }
    }

    /// Files the artist named `name`: its position, and whether it is new.
    fn file_artist(&mut self, name: Option<String>) -> (r: (Option<i32>, bool))
        requires
            old(self)@.artists.len() < i32::MAX,
        ensures
            r.0 == artist_id_of(artist_slot(old(self)@, opt_view(name))),
            r.1 == (name is Some && known_artist(old(self)@, opt_view(name)->0) is None),
            final(self)@ == with_artist(old(self)@, opt_view(name)),
    {
        match name {
            None => (None, false),
            Some(n) => {
                let ghost c = self@;
                let ghost p = |x: Seq<char>| x == n@;
                proof {
                    lemma_first_where(c.artists, p);
                }
                match find_artist(&self.artists, n.as_str()) {
                    Some(i) => {
                        proof {
                            assert(c.artists[i as int] == self.artists@[i as int]@);
                            assert(p(c.artists[i as int]));
                            let k = first_where(c.artists, p);
                            if k is None {
                                assert(!p(c.artists[i as int]));
                            } else {
                                let k = k->0;
                                if k < i {
                                    assert(self.artists@[k]@ == c.artists[k]);
                                } else if i < k {
                                    assert(!p(c.artists[i as int]));
                                }
                            }
                        }
                        (Some(i as i32), false)
                    },
                    None => {
                        proof {
                            assert forall|j: int| 0 <= j < c.artists.len() implies !p(
                                #[trigger] c.artists[j],
                            ) by {
                                assert(c.artists[j] == self.artists@[j]@);
                            }
                        }
                        let id = self.artists.len() as i32;
                        self.artists.push(n);
                        proof {
                            assert(self@.artists =~= c.artists.push(n@));
                            assert(self@.albums =~= c.albums);
                            assert(self@.art =~= c.art);
                        }
                        (Some(id), true)
                    },
                }
            },
        }
    }

    /// Files the album named `name` of the artist `artist_id`: its position,
    /// and whether it is new.
    fn file_album(&mut self, name: &Option<String>, artist_id: Option<i32>) -> (r: (Option<usize>, bool))
        ensures
            match r.0 {
                Some(b) => album_slot(old(self)@, opt_view(*name), artist_id) == Some(b as int),
                None => album_slot(old(self)@, opt_view(*name), artist_id) is None,
            },
            r.1 == (name is Some && known_album(old(self)@, opt_view(*name)->0, artist_id) is None),
            final(self)@ == with_album(old(self)@, opt_view(*name), artist_id),
    {
        match name {
            None => (None, false),
            Some(n) => {
                let ghost c = self@;
                let ghost p = |k: (Seq<char>, Option<i32>)| album_key_is(k, n@, artist_id);
                proof {
                    lemma_first_where(c.albums, p);
                }
                match find_album(&self.albums, n.as_str(), artist_id) {
                    Some(i) => {
                        proof {
                            assert(c.albums[i as int] == (self.albums@[i as int].name@, self.albums@[i as int].artist_id));
                            assert(p(c.albums[i as int]));
                            let k = first_where(c.albums, p);
                            if k is None {
                                assert(!p(c.albums[i as int]));
                            } else {
                                let k = k->0;
                                if k < i {
                                    assert(c.albums[k] == (self.albums@[k].name@, self.albums@[k].artist_id));
                                } else if i < k {
                                    assert(!p(c.albums[i as int]));
                                }
                            }
                        }
                        (Some(i), false)
                    },
                    None => {
                        proof {
                            assert forall|j: int| 0 <= j < c.albums.len() implies !p(
                                #[trigger] c.albums[j],
                            ) by {
                                assert(c.albums[j] == (self.albums@[j].name@, self.albums@[j].artist_id));
                            }
                        }
                        let b = self.albums.len();
                        self.albums.push(AlbumKey { name: n.clone(), artist_id });
                        self.album_art.push(None);
                        proof {
                            assert(self@.albums =~= c.albums.push((n@, artist_id)));
                            assert(self@.art =~= c.art.push(None));
                            assert(self@.artists =~= c.artists);
                        }
                        (Some(b), true)
                    },
                }
            },
        }
    }

    /// Decides what a scan does with one track and files it in the catalog.
    ///
    /// `stored` is the song known at the track's path (its identifier and
    /// stored modification time), `modified` the file's modification time.
    /// An incremental scan skips a known file whose times are known and
    /// equal, and the catalog is unchanged. Otherwise the track is filed
    /// under its album artist (else its artist), found again by name or
    /// created; under its album, found again by name and artist (by name
    /// alone without an artist) or created; its cover art is saved for an
    /// album without art, else the album's art is kept; and the known song
    /// is updated, or a new one added.
    pub fn plan_track(
        &mut self,
        mode: ScanMode,
        stored: Option<(i32, Option<i64>)>,
        modified: Option<i64>,
        album_artist: &Option<String>,
        artist: &Option<String>,
        album: &Option<String>,
        has_art: bool,
    ) -> (r: TrackAction)
        requires
            old(self)@.artists.len() < i32::MAX,
        ensures
            r is Skip <==> spec_should_skip(mode, stored, modified),
            r is Skip ==> final(self)@ == old(self)@,
            ({
                let ta = track_artist(opt_view(*album_artist), opt_view(*artist));
                let c1 = with_artist(old(self)@, ta);
                let aid = artist_id_of(artist_slot(old(self)@, ta));
                let slot = album_slot(c1, opt_view(*album), aid);
                let c2 = with_album(c1, opt_view(*album), aid);
                let art = album_art_of(c2, slot);
                r is Write ==> {
                    &&& r->artist_id == aid
                    &&& r->new_artist == (ta is Some && known_artist(old(self)@, ta->0) is None)
                    &&& (match slot {
                        Some(b) => r->album == Some(b as usize),
                        None => r->album is None,
                    })
                    &&& r->new_album == (album is Some && known_album(c1, opt_view(*album)->0, aid)
                        is None)
                    &&& (slot is Some && has_art && art is None ==> r->art is Save)
                    &&& (slot is Some && art is Some ==> (r->art matches CoverArtStep::Keep(id)
                        && id@ == art->0))
                    &&& (slot is None || (!has_art && art is None) ==> r->art is NoArt)
                    &&& r->update == (match stored {
                        Some(s) => Some(s.0),
                        None => None,
                    })
                    &&& final(self)@ == c2
                }
            }),
    {
        let known_time = match stored {
            Some((_, t)) => Some(t),
            None => None,
        };
        if should_skip_track(mode, known_time, modified) {
            return TrackAction::Skip;
        }
        let name = track_artist_name(album_artist, artist);
        assert(opt_view(name) == track_artist(opt_view(*album_artist), opt_view(*artist)));
        let (artist_id, new_artist) = self.file_artist(name);
        let (slot, new_album) = self.file_album(album, artist_id);
        let album_art = match slot {
            Some(b) => self.album_art(b),
            None => None,
        };
        let art = cover_art_step(slot.is_some(), has_art, album_art);
        let update = match stored {
            Some((id, _)) => Some(id),
            None => None,
        };
        TrackAction::Write { artist_id, new_artist, album: slot, new_album, art, update }
    }
}

/// What the scan counts for a track, once the action is done: whether the
/// cover art was saved and whether writing the song succeeded.
pub fn track_step(action: &TrackAction, art_saved: bool, written: bool) -> (r: TrackStep)
    ensures
        action is Skip ==> r == (TrackStep {
            skipped: true,
            new_artist: false,
            new_album: false,
            art_saved: false,
            existed: false,
            written: false,
        }),
        action is Write ==> r == (TrackStep {
            skipped: false,
            new_artist: action->new_artist,
            new_album: action->new_album,
            art_saved: art_saved && action->art is Save,
            existed: action->update is Some,
            written,
        }),
{
    match action {
        TrackAction::Skip => TrackStep {
            skipped: true,
            new_artist: false,
            new_album: false,
            art_saved: false,
            existed: false,
            written: false,
        },
        TrackAction::Write { new_artist, new_album, art, update, .. } => TrackStep {
            skipped: false,
            new_artist: *new_artist,
            new_album: *new_album,
            art_saved: art_saved && matches!(art, CoverArtStep::Save),
            existed: update.is_some(),
            written,
        },
    }
}

/// Once a track is filed, its artist and album are known: filing a track
/// with the same names again finds the same artist and album and creates
/// nothing.
pub proof fn lemma_filed_again(c: CatalogView, artist: Option<Seq<char>>, album: Option<Seq<char>>)
    ensures
        ({
            let c1 = with_artist(c, artist);
            let aid = artist_id_of(artist_slot(c, artist));
            let c2 = with_album(c1, album, aid);
            &&& artist_slot(c1, artist) == artist_slot(c, artist)
            &&& with_artist(c1, artist) == c1
            &&& album_slot(c2, album, aid) == album_slot(c1, album, aid)
            &&& with_album(c2, album, aid) == c2
        }),
{
    let c1 = with_artist(c, artist);
    let aid = artist_id_of(artist_slot(c, artist));
    if let Some(n) = artist {
        if known_artist(c, n) is None {
            assert(c1.artists.drop_last() =~= c.artists);
            assert(known_artist(c1, n) == Some(c.artists.len() as int));
        }
    }
    if let Some(m) = album {
        let q = |k: (Seq<char>, Option<i32>)| album_key_is(k, m, aid);
        let c2 = with_album(c1, album, aid);
        if known_album(c1, m, aid) is None {
            assert(c2.albums.drop_last() =~= c1.albums);
            assert(q(c2.albums.last()));
            assert(known_album(c2, m, aid) == Some(c1.albums.len() as int));
        }
    }
}

} // verus!
