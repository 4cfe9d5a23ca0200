//! The browsing endpoints' parameters and what a request asks the library
//! for: which item, which kind of album list, which page of results.
use vstd::prelude::*;
use crate::error::ApiError;
use crate::media::str_eq;
use crate::order::lemma_insert_shift;
use crate::models::{opt_view, Album, ArtistID3Response, ArtistsID3Response, IndexID3Response, Song};
use crate::text::push_char;
use crate::number::{parse_i32, parsed_i32};
use crate::text::{to_chars, trim, strip_char, strip_char_bounds, trim_chars, string_of};

verus! {

/// Query parameters of endpoints that take an identifier.
#[derive(Clone, Debug)]
pub struct IdParams {
    /// The identifier of the item.
    pub id: Option<String>,
}

impl Default for IdParams {
    fn default() -> (r: Self)
        ensures
            r.id is None,
    {
        IdParams { id: None }
    }
}

/// The identifier that an `id` parameter gives: its text as an `i32`.
pub open spec fn spec_id(id: Option<Seq<char>>) -> Option<int> {
    match id {
        Some(s) => parsed_i32(s),
        None => None,
    }
}

/// The identifier that a required `id` parameter gives; a missing or
/// malformed one is a missing parameter.
pub fn required_id(id: &Option<String>) -> (r: Result<i32, ApiError>)
    ensures
        spec_id(opt_view(*id)) is Some ==> r is Ok && r->Ok_0 == spec_id(opt_view(*id))->0,
        spec_id(opt_view(*id)) is None ==> (r matches Err(ApiError::MissingParameter(m)) && m@
            == "id"@),
{
    match id {
        Some(s) => {
            let v = to_chars(s.as_str());
            match parse_i32(v.as_slice()) {
                Some(n) => Ok(n),
                None => Err(ApiError::MissingParameter("id".to_string())),
            }
        },
        None => Err(ApiError::MissingParameter("id".to_string())),
    }
}

/// `x` brought within `lo..=hi`.
pub open spec fn clamp(x: int, lo: int, hi: int) -> int {
    if x > hi {
        hi
    } else if x < lo {
        lo
    } else {
        x
    }
}

/// A clamped value lies within its bounds, and a value within them is kept.
pub proof fn lemma_clamp_within(x: int, lo: int, hi: int)
    requires
        lo <= hi,
    ensures
        lo <= clamp(x, lo, hi) <= hi,
        lo <= x <= hi ==> clamp(x, lo, hi) == x,
{
}

/// The value of an optional parameter, or its default.
pub open spec fn or_default(v: Option<i64>, d: i64) -> int {
    match v {
        Some(x) => x as int,
        None => d as int,
    }
}

/// A count parameter: its value or the default, at most `hi` and at least
/// `lo`.
pub fn bounded_count(value: Option<i64>, default: i64, lo: i64, hi: i64) -> (r: i64)
    requires
        lo <= hi,
    ensures
        r == clamp(or_default(value, default), lo as int, hi as int),
{
    let v = match value {
        Some(x) => x,
        None => default,
    };
    let v = if v > hi {
        hi
    } else {
        v
    };
    if v < lo {
        lo
    } else {
        v
    }
}

/// An offset parameter: its value or zero, and never negative.
pub fn list_offset(value: Option<i64>) -> (r: i64)
    ensures
        r == clamp(or_default(value, 0), 0, i64::MAX as int),
{
    match value {
        Some(x) => if x < 0 {
            0
        } else {
            x
        },
        None => 0,
    }
}

/// Query parameters of `getAlbumList2` (and of `getAlbumList`).
#[derive(Clone, Debug)]
pub struct AlbumList2Params {
    /// The list type. Required.
    pub list_type: Option<String>,
    /// The number of albums to return. Default 10, at most 500.
    pub size: Option<i64>,
    /// The list offset. Default 0.
    pub offset: Option<i64>,
    /// The first year of the range (`byYear`).
    pub from_year: Option<i32>,
    /// The last year of the range (`byYear`).
    pub to_year: Option<i32>,
    /// The genre (`byGenre`).
    pub genre: Option<String>,
    /// Only albums in this music folder.
    pub music_folder_id: Option<i32>,
}

/// The kinds of album list.
pub enum AlbumListKind {
    Random,
    Newest,
    Frequent,
    Recent,
    AlphabeticalByName,
    AlphabeticalByArtist,
    ByYear { from_year: i32, to_year: i32 },
    ByGenre(String),
    Starred,
    Highest,
}

/// An album list to fetch: its kind and the page.
pub struct AlbumListRequest {
    pub kind: AlbumListKind,
    pub offset: i64,
    pub size: i64,
}

/// The position of a list type's name among the known ones, or -1.
pub open spec fn list_type_index(t: Seq<char>) -> int {
    if t == "random"@ {
        0
    } else if t == "newest"@ {
        1
    } else if t == "frequent"@ {
        2
    } else if t == "recent"@ {
        3
    } else if t == "alphabeticalByName"@ {
        4
    } else if t == "alphabeticalByArtist"@ {
        5
    } else if t == "byYear"@ {
        6
    } else if t == "byGenre"@ {
        7
    } else if t == "starred"@ {
        8
    } else if t == "highest"@ {
        9
    } else {
        -1
    }
}

/// The position of a kind of album list among the list types.
pub open spec fn kind_index(k: AlbumListKind) -> int {
    match k {
        AlbumListKind::Random => 0,
        AlbumListKind::Newest => 1,
        AlbumListKind::Frequent => 2,
        AlbumListKind::Recent => 3,
        AlbumListKind::AlphabeticalByName => 4,
        AlbumListKind::AlphabeticalByArtist => 5,
        AlbumListKind::ByYear { .. } => 6,
        AlbumListKind::ByGenre(_) => 7,
        AlbumListKind::Starred => 8,
        AlbumListKind::Highest => 9,
    }
}

/// The kind of list that a known list type names.
fn list_kind(t: &str, params: &AlbumList2Params) -> (r: Option<AlbumListKind>)
    ensures
        list_type_index(t@) == -1 ==> r is None,
        list_type_index(t@) == 7 && params.genre is None ==> r is None,
        list_type_index(t@) >= 0 && !(list_type_index(t@) == 7 && params.genre is None) ==> (
        r is Some && kind_index(r->0) == list_type_index(t@)),
        r matches Some(AlbumListKind::ByYear { from_year, to_year }) ==> from_year == (
        match params.from_year {
            Some(y) => y,
            None => 0i32,
        }) && to_year == (match params.to_year {
            Some(y) => y,
            None => 9999i32,
        }),
        r matches Some(AlbumListKind::ByGenre(g)) ==> opt_view(params.genre) == Some(g@),
{
    if str_eq(t, "random") {
        Some(AlbumListKind::Random)
    } else if str_eq(t, "newest") {
        Some(AlbumListKind::Newest)
    } else if str_eq(t, "frequent") {
        Some(AlbumListKind::Frequent)
    } else if str_eq(t, "recent") {
        Some(AlbumListKind::Recent)
    } else if str_eq(t, "alphabeticalByName") {
        Some(AlbumListKind::AlphabeticalByName)
    } else if str_eq(t, "alphabeticalByArtist") {
        Some(AlbumListKind::AlphabeticalByArtist)
    } else if str_eq(t, "byYear") {
        let from_year = match params.from_year {
            Some(y) => y,
            None => 0,
        };
        let to_year = match params.to_year {
            Some(y) => y,
            None => 9999,
        };
        Some(AlbumListKind::ByYear { from_year, to_year })
    } else if str_eq(t, "byGenre") {
        match &params.genre {
            Some(g) => Some(AlbumListKind::ByGenre(g.clone())),
            None => None,
        }
    } else if str_eq(t, "starred") {
        Some(AlbumListKind::Starred)
    } else if str_eq(t, "highest") {
        Some(AlbumListKind::Highest)
    } else {
        None
    }
}

/// The album list that a `getAlbumList2` (or `getAlbumList`) request asks
/// for. The type is required; `byGenre` requires a genre; an unknown type is
/// a generic error naming it. The page holds 1 to 500 albums (10 by
/// default) from a non-negative offset (0 by default); `byYear` runs from
/// year 0 to year 9999 unless told otherwise.
pub fn album_list_request(params: &AlbumList2Params) -> (r: Result<AlbumListRequest, ApiError>)
    ensures
        params.list_type is None ==> (r matches Err(ApiError::MissingParameter(m)) && m@
            == "type"@),
        params.list_type is Some && list_type_index(params.list_type->0@) == -1 ==> (r matches Err(
            ApiError::Generic(m),
        ) && m@ == "Unknown list type: "@ + params.list_type->0@),
        params.list_type is Some && list_type_index(params.list_type->0@) == 7 && params.genre is None
            ==> (r matches Err(ApiError::MissingParameter(m)) && m@ == "genre"@),
        params.list_type is Some && list_type_index(params.list_type->0@) >= 0 && !(list_type_index(
            params.list_type->0@,
        ) == 7 && params.genre is None) ==> (r matches Ok(q) && kind_index(q.kind)
            == list_type_index(params.list_type->0@) && q.size == clamp(or_default(params.size, 10), 1, 500) && q.offset == clamp(
            or_default(params.offset, 0),
            0,
            i64::MAX as int,
        )),
        r matches Ok(q) ==> (q.kind matches AlbumListKind::ByYear { from_year, to_year } ==> (
        from_year == (match params.from_year {
            Some(y) => y,
            None => 0i32,
        }) && to_year == (match params.to_year {
            Some(y) => y,
            None => 9999i32,
        }))),
        r matches Ok(q) ==> (q.kind matches AlbumListKind::ByGenre(g) ==> opt_view(params.genre)
            == Some(g@)),
{
    let t = match &params.list_type {
        Some(t) => t,
        None => {
            return Err(ApiError::MissingParameter("type".to_string()));
        },
    };
    let size = bounded_count(params.size, 10, 1, 500);
    let offset = list_offset(params.offset);
    match list_kind(t.as_str(), params) {
        Some(kind) => Ok(AlbumListRequest { kind, offset, size }),
        None => {
            proof {
                reveal_strlit("byGenre");
            }
            if str_eq(t.as_str(), "byGenre") {
                Err(ApiError::MissingParameter("genre".to_string()))
            } else {
                let mut m = "Unknown list type: ".to_string();
                m.append(t.as_str());
                Err(ApiError::Generic(m))
            }
        },
    }
}

/// Query parameters of `search3`.
#[derive(Clone, Debug)]
pub struct Search3Params {
    /// Search query.
    pub query: Option<String>,
    /// Maximum number of artists. Default 20.
    pub artist_count: Option<i64>,
    /// Artist result offset. Default 0.
    pub artist_offset: Option<i64>,
    /// Maximum number of albums. Default 20.
    pub album_count: Option<i64>,
    /// Album result offset. Default 0.
    pub album_offset: Option<i64>,
    /// Maximum number of songs. Default 20.
    pub song_count: Option<i64>,
    /// Song result offset. Default 0.
    pub song_offset: Option<i64>,
    /// Only results from this music folder.
    pub music_folder_id: Option<i32>,
}

/// Query parameters of `search2`.
#[derive(Clone, Debug)]
pub struct Search2Params {
    /// Search query.
    pub query: Option<String>,
    /// Maximum number of artists. Default 20.
    pub artist_count: Option<i64>,
    /// Artist result offset. Default 0.
    pub artist_offset: Option<i64>,
    /// Maximum number of albums. Default 20.
    pub album_count: Option<i64>,
    /// Album result offset. Default 0.
    pub album_offset: Option<i64>,
    /// Maximum number of songs. Default 20.
    pub song_count: Option<i64>,
    /// Song result offset. Default 0.
    pub song_offset: Option<i64>,
    /// Only results from this music folder.
    pub music_folder_id: Option<i32>,
}

/// A search to run: the query and a page of each kind of result.
pub struct SearchRequest {
    pub query: String,
    pub artist_count: i64,
    pub artist_offset: i64,
    pub album_count: i64,
    pub album_offset: i64,
    pub song_count: i64,
    pub song_offset: i64,
}

/// The text searched for: the query without surrounding double quotes and
/// whitespace; an absent query searches for everything.
pub open spec fn spec_search_text(raw: Option<Seq<char>>) -> Seq<char> {
    match raw {
        Some(s) => trim(strip_char(s, '"')),
        None => Seq::empty(),
    }
}

/// The text searched for: the query without surrounding double quotes
/// (clients send `""` for an empty query) and whitespace.
pub fn search_text(raw: Option<&str>) -> (r: String)
    ensures
        r@ == spec_search_text(
            match raw {
                Some(s) => Some(s@),
                None => None,
            },
        ),
{
    match raw {
        Some(s) => {
            let v = to_chars(s);
            let (a, b) = strip_char_bounds(v.as_slice(), '"');
            let mut inner: Vec<char> = Vec::new();
            let mut i = a;
            while i < b
                invariant
                    a <= i <= b <= v@.len(),
                    inner@ == v@.subrange(a as int, i as int),
                decreases b - i,
            {
                inner.push(v[i]);
                i = i + 1;
                assert(inner@ =~= v@.subrange(a as int, i as int));
            }
            let t = trim_chars(inner.as_slice());
            string_of(t.as_slice())
        },
        None => String::new(),
    }
}

/// Whether a search request holds the given query text and the pages that
/// the count and offset parameters ask for: counts of 0 to 500 (20 by
/// default), offsets of 0 or more (0 by default).
pub open spec fn is_search_request(
    r: SearchRequest,
    query: Option<String>,
    artist_count: Option<i64>,
    artist_offset: Option<i64>,
    album_count: Option<i64>,
    album_offset: Option<i64>,
    song_count: Option<i64>,
    song_offset: Option<i64>,
) -> bool {
    &&& r.query@ == spec_search_text(opt_view(query))
    &&& r.artist_count == clamp(or_default(artist_count, 20), 0, 500)
    &&& r.artist_offset == clamp(or_default(artist_offset, 0), 0, i64::MAX as int)
    &&& r.album_count == clamp(or_default(album_count, 20), 0, 500)
    &&& r.album_offset == clamp(or_default(album_offset, 0), 0, i64::MAX as int)
    &&& r.song_count == clamp(or_default(song_count, 20), 0, 500)
    &&& r.song_offset == clamp(or_default(song_offset, 0), 0, i64::MAX as int)
}

fn search_request(
    query: &Option<String>,
    artist_count: Option<i64>,
    artist_offset: Option<i64>,
    album_count: Option<i64>,
    album_offset: Option<i64>,
    song_count: Option<i64>,
    song_offset: Option<i64>,
) -> (r: SearchRequest)
    ensures
        is_search_request(
            r,
            *query,
            artist_count,
            artist_offset,
            album_count,
            album_offset,
            song_count,
            song_offset,
        ),
{
    let q = match query {
        Some(s) => search_text(Some(s.as_str())),
        None => search_text(None),
    };
    SearchRequest {
        query: q,
        artist_count: bounded_count(artist_count, 20, 0, 500),
        artist_offset: list_offset(artist_offset),
        album_count: bounded_count(album_count, 20, 0, 500),
        album_offset: list_offset(album_offset),
        song_count: bounded_count(song_count, 20, 0, 500),
        song_offset: list_offset(song_offset),
    }
}

/// The search that a `search3` request asks for.
pub fn search3_request(params: &Search3Params) -> (r: SearchRequest)
    ensures
        is_search_request(
            r,
            params.query,
            params.artist_count,
            params.artist_offset,
            params.album_count,
            params.album_offset,
            params.song_count,
            params.song_offset,
        ),
{
    search_request(
        &params.query,
        params.artist_count,
        params.artist_offset,
        params.album_count,
        params.album_offset,
        params.song_count,
        params.song_offset,
    )
}

/// The search that a `search2` request asks for.
pub fn search2_request(params: &Search2Params) -> (r: SearchRequest)
    ensures
        is_search_request(
            r,
            params.query,
            params.artist_count,
            params.artist_offset,
            params.album_count,
            params.album_offset,
            params.song_count,
            params.song_offset,
        ),
{
    search_request(
        &params.query,
        params.artist_count,
        params.artist_offset,
        params.album_count,
        params.album_offset,
        params.song_count,
        params.song_offset,
    )
}

/// Query parameters of the legacy `search`.
#[derive(Clone, Debug)]
pub struct SearchParams {
    /// Artist to search for.
    pub artist: Option<String>,
    /// Album to search for.
    pub album: Option<String>,
    /// Song title to search for.
    pub title: Option<String>,
    /// Searches all fields.
    pub any: Option<String>,
    /// Maximum number of results. Default 20.
    pub count: Option<i64>,
    /// Result offset. Default 0.
    pub offset: Option<i64>,
    /// Only matches newer than this timestamp.
    pub newer_than: Option<i64>,
}

/// The first of the given texts that is present.
pub open spec fn first_present(
    a: Option<Seq<char>>,
    b: Option<Seq<char>>,
    c: Option<Seq<char>>,
    d: Option<Seq<char>>,
) -> Seq<char> {
    if a is Some {
        a->0
    } else if b is Some {
        b->0
    } else if c is Some {
        c->0
    } else if d is Some {
        d->0
    } else {
        Seq::empty()
    }
}

/// A legacy song search: the query, the count and the offset.
pub struct LegacySearch {
    pub query: String,
    pub count: i64,
    pub offset: i64,
}

/// The song search that a legacy `search` request asks for: the first of
/// `any`, `title`, `album` and `artist` that is given, trimmed, with 0 to
/// 500 results (20 by default) from a non-negative offset.
pub fn legacy_search_request(params: &SearchParams) -> (r: LegacySearch)
    ensures
        r.query@ == trim(
            first_present(
                opt_view(params.any),
                opt_view(params.title),
                opt_view(params.album),
                opt_view(params.artist),
            ),
        ),
        r.count == clamp(or_default(params.count, 20), 0, 500),
        r.offset == clamp(or_default(params.offset, 0), 0, i64::MAX as int),
{
    let chosen: &str = match &params.any {
        Some(s) => s.as_str(),
        None => match &params.title {
            Some(s) => s.as_str(),
            None => match &params.album {
                Some(s) => s.as_str(),
                None => match &params.artist {
                    Some(s) => s.as_str(),
                    None => "",
                },
            },
        },
    };
    proof {
        reveal_strlit("");
    }
    let v = to_chars(chosen);
    let t = trim_chars(v.as_slice());
    LegacySearch {
        query: string_of(t.as_slice()),
        count: bounded_count(params.count, 20, 0, 500),
        offset: list_offset(params.offset),
    }
}

/// Query parameters of `getRandomSongs`.
#[derive(Clone, Debug)]
pub struct RandomSongsParams {
    /// The number of songs. Default 10, at most 500.
    pub size: Option<i64>,
    /// Only songs of this genre.
    pub genre: Option<String>,
    /// Only songs from this year on.
    pub from_year: Option<i32>,
    /// Only songs up to this year.
    pub to_year: Option<i32>,
    /// Only songs in this music folder.
    pub music_folder_id: Option<i32>,
}

/// The number of random songs asked for: 1 to 500, 10 by default.
pub fn random_songs_size(params: &RandomSongsParams) -> (r: i64)
    ensures
        r == clamp(or_default(params.size, 10), 1, 500),
{
    bounded_count(params.size, 10, 1, 500)
}

/// Query parameters of `getSongsByGenre`.
#[derive(Clone, Debug)]
pub struct SongsByGenreParams {
    /// The genre. Required.
    pub genre: Option<String>,
    /// The number of songs. Default 10, at most 500.
    pub count: Option<i64>,
    /// The offset. Default 0.
    pub offset: Option<i64>,
    /// Only songs in this music folder.
    pub music_folder_id: Option<i32>,
}

/// A page of the songs of a genre.
pub struct GenreSongsRequest {
    pub genre: String,
    pub count: i64,
    pub offset: i64,
}

/// The songs that a `getSongsByGenre` request asks for: the genre is
/// required; 1 to 500 songs (10 by default) from a non-negative offset.
pub fn songs_by_genre_request(params: &SongsByGenreParams) -> (r: Result<
    GenreSongsRequest,
    ApiError,
>)
    ensures
        params.genre is None ==> (r matches Err(ApiError::MissingParameter(m)) && m@ == "genre"@),
        params.genre is Some ==> (r matches Ok(q) && q.genre@ == params.genre->0@ && q.count
            == clamp(or_default(params.count, 10), 1, 500) && q.offset == clamp(
            or_default(params.offset, 0),
            0,
            i64::MAX as int,
        )),
{
    match &params.genre {
        Some(g) => Ok(
            GenreSongsRequest {
                genre: g.clone(),
                count: bounded_count(params.count, 10, 1, 500),
                offset: list_offset(params.offset),
            },
        ),
        None => Err(ApiError::MissingParameter("genre".to_string())),
    }
}

/// Query parameters of `getArtistInfo2` (and `getArtistInfo`).
#[derive(Clone, Debug)]
pub struct ArtistInfo2Params {
    /// The artist identifier.
    pub id: Option<String>,
    /// Maximum number of similar artists.
    pub count: Option<i32>,
    /// Whether to include artists not in the library.
    pub include_not_present: Option<bool>,
}

/// Query parameters of `getAlbumInfo2` (and `getAlbumInfo`).
#[derive(Clone, Debug)]
pub struct AlbumInfo2Params {
    /// The album identifier.
    pub id: Option<String>,
}

/// Query parameters of `getSimilarSongs2` (and `getSimilarSongs`).
#[derive(Clone, Debug)]
pub struct SimilarSongs2Params {
    /// The song, album or artist identifier.
    pub id: Option<String>,
    /// Maximum number of songs. Default 50.
    pub count: Option<i64>,
}

/// What `getSimilarSongs2` asks for: an item and a number of songs.
pub struct SimilarSongsRequest {
    pub id: i32,
    pub count: i64,
}

/// The item and count of a `getSimilarSongs2` request: the identifier is
/// required; 1 to 500 songs, 50 by default.
pub fn similar_songs_request(params: &SimilarSongs2Params) -> (r: Result<
    SimilarSongsRequest,
    ApiError,
>)
    ensures
        spec_id(opt_view(params.id)) is None ==> (r matches Err(ApiError::MissingParameter(m))
            && m@ == "id"@),
        spec_id(opt_view(params.id)) is Some ==> (r matches Ok(q) && q.id == spec_id(
            opt_view(params.id),
        )->0 && q.count == clamp(or_default(params.count, 50), 1, 500)),
{
    let id = required_id(&params.id)?;
    Ok(SimilarSongsRequest { id, count: bounded_count(params.count, 50, 1, 500) })
}

/// Where similar songs come from.
pub enum SimilarSource {
    /// Songs by this artist, leaving out one song (or none, for -1).
    Artist { artist_id: i32, exclude_song: i32 },
    /// Songs of this genre.
    Genre(String),
    /// No songs.
    Nothing,
}

/// The similar songs of a song: its artist's other songs, else the songs of
/// its genre, else none.
pub fn similar_to_song(song: &Song) -> (r: SimilarSource)
    ensures
        song.artist_id is Some ==> r == (SimilarSource::Artist {
            artist_id: song.artist_id->0,
            exclude_song: song.id,
        }),
        song.artist_id is None && song.genre is Some ==> (r matches SimilarSource::Genre(g) && g@
            == song.genre->0@),
        song.artist_id is None && song.genre is None ==> r is Nothing,
{
    match song.artist_id {
        Some(artist_id) => SimilarSource::Artist { artist_id, exclude_song: song.id },
        None => match &song.genre {
            Some(g) => SimilarSource::Genre(g.clone()),
            None => SimilarSource::Nothing,
        },
    }
}

/// The similar songs of an album: its artist's songs, else none.
pub fn similar_to_album(album: &Album) -> (r: SimilarSource)
    ensures
        album.artist_id is Some ==> r == (SimilarSource::Artist {
            artist_id: album.artist_id->0,
            exclude_song: -1i32,
        }),
        album.artist_id is None ==> r is Nothing,
{
    match album.artist_id {
        Some(artist_id) => SimilarSource::Artist { artist_id, exclude_song: -1 },
        None => SimilarSource::Nothing,
    }
}

/// Where the similar songs of the item `id` come from (`getSimilarSongs`,
/// `getSimilarSongs2`): `song`, `album` and `artist_found` are what looking
/// up `id` as a song, an album and an artist gave, tried in that order. A
/// song or an album gives its similar songs; an artist its own songs, none
/// left out; an id that is none of these is not found (`Item`).
pub fn similar_source(id: i32, song: Option<&Song>, album: Option<&Album>, artist_found: bool) -> (r:
    Result<SimilarSource, ApiError>)
    ensures
        song is Some ==> (r matches Ok(src) && (match song->0.artist_id {
            Some(a) => src == (SimilarSource::Artist { artist_id: a, exclude_song: song->0.id }),
            None => match song->0.genre {
                Some(g) => src matches SimilarSource::Genre(h) && h@ == g@,
                None => src is Nothing,
            },
        })),
        song is None && album is Some ==> (r matches Ok(src) && (match album->0.artist_id {
            Some(a) => src == (SimilarSource::Artist { artist_id: a, exclude_song: -1i32 }),
            None => src is Nothing,
        })),
        song is None && album is None && artist_found ==> r == Ok::<SimilarSource, ApiError>(
            SimilarSource::Artist { artist_id: id, exclude_song: -1i32 },
        ),
        song is None && album is None && !artist_found ==> (r matches Err(ApiError::NotFound(m))
            && m@ == "Item"@),
{
    match song {
        Some(s) => Ok(similar_to_song(s)),
        None => match album {
            Some(a) => Ok(similar_to_album(a)),
            None => if artist_found {
                Ok(SimilarSource::Artist { artist_id: id, exclude_song: -1 })
            } else {
                Err(ApiError::NotFound("Item".to_string()))
            },
        },
    }
}

/// Query parameters of `getTopSongs`.
#[derive(Clone, Debug)]
pub struct TopSongsParams {
    /// The artist name.
    pub artist: Option<String>,
    /// Maximum number of songs. Default 50.
    pub count: Option<i64>,
}

/// What `getTopSongs` asks for: an artist's name and a number of songs.
pub struct TopSongsRequest {
    pub artist: String,
    pub count: i64,
}

/// The artist and count of a `getTopSongs` request: a non-empty artist name
/// is required; 1 to 500 songs, 50 by default.
pub fn top_songs_request(params: &TopSongsParams) -> (r: Result<TopSongsRequest, ApiError>)
    ensures
        (params.artist is None || params.artist->0@.len() == 0) ==> (r matches Err(
            ApiError::MissingParameter(m),
        ) && m@ == "artist"@),
        params.artist is Some && params.artist->0@.len() > 0 ==> (r matches Ok(q) && q.artist@
            == params.artist->0@ && q.count == clamp(or_default(params.count, 50), 1, 500)),
{
    match &params.artist {
        Some(a) => if a.as_str().is_empty() {
            Err(ApiError::MissingParameter("artist".to_string()))
        } else {
            Ok(TopSongsRequest { artist: a.clone(), count: bounded_count(params.count, 50, 1, 500) })
        },
        None => Err(ApiError::MissingParameter("artist".to_string())),
    }
}

/// Query parameters of `getLyrics`.
#[derive(Clone, Debug)]
pub struct LyricsParams {
    /// The artist name.
    pub artist: Option<String>,
    /// The song title.
    pub title: Option<String>,
}

/// The articles that clients ignore when they sort artists by name.
pub const IGNORED_ARTICLES: &'static str = "The El La Los Las Le Les";

/// The first character of the uppercase mapping of `c`.
pub uninterp spec fn uppercase_first(c: char) -> char;

/// The Unicode `Alphabetic` property.
pub uninterp spec fn is_alphabetic(c: char) -> bool;

/// The first character of `c.to_uppercase()`: the mapping is named
/// `uppercase_first`; std documents that it yields one or more characters,
/// so there is a first one.
#[verifier::external_body]
fn to_uppercase_first(c: char) -> (r: Option<char>)
    ensures
        r == Some(uppercase_first(c)),
{
    c.to_uppercase().next()
}

/// Whether `c` is alphabetic (`char::is_alphabetic`), named `is_alphabetic`.
#[verifier::external_body]
fn alphabetic(c: char) -> (r: bool)
    ensures
        r == is_alphabetic(c),
{
    c.is_alphabetic()
}

/// The index that an artist is listed under: the first letter of its sort
/// name (else its name) in uppercase, or `#` when that is no letter or the
/// name is empty.
pub open spec fn spec_index_key(name: Seq<char>) -> char {
    let first = if name.len() > 0 {
        name[0]
    } else {
        '#'
    };
    let upper = uppercase_first(first);
    if is_alphabetic(upper) {
        upper
    } else {
        '#'
    }
}

/// An artist is listed under the uppercase of the first character of its
/// (sort) name when that is a letter, whether or not it was written in
/// uppercase, and under `#` when it is not; so the index depends on the
/// first character alone, and is `#` or a letter.
pub proof fn lemma_index_key_first_letter(name: Seq<char>, other: Seq<char>)
    ensures
        name.len() > 0 && is_alphabetic(uppercase_first(name[0])) ==> spec_index_key(name)
            == uppercase_first(name[0]),
        name.len() > 0 && !is_alphabetic(uppercase_first(name[0])) ==> spec_index_key(name)
            == '#',
        spec_index_key(name) == '#' || is_alphabetic(spec_index_key(name)),
        name.len() > 0 && other.len() > 0 && name[0] == other[0] ==> spec_index_key(name)
            == spec_index_key(other),
{
}

/// The index that an artist with this sort name and name is listed under.
pub fn index_key(sort_name: &Option<String>, name: &str) -> (r: char)
    ensures
        r == spec_index_key(
            match sort_name {
                Some(s) => s@,
                None => name@,
            },
        ),
{
    let text: &str = match sort_name {
        Some(s) => s.as_str(),
        None => name,
    };
    let first = if text.unicode_len() > 0 {
        text.get_char(0)
    } else {
        '#'
    };
    let upper = match to_uppercase_first(first) {
        Some(u) => u,
        None => '#',
    };
    if alphabetic(upper) {
        upper
    } else {
        '#'
    }
}

/// The artists listed under one index: their positions in the artist list.
pub struct IndexGroup {
    pub key: char,
    pub members: Vec<usize>,
}

/// The positions among the first `n` keys that hold `k`, in order.
pub open spec fn positions(keys: Seq<char>, k: char, n: int) -> Seq<usize>
    decreases n,
{
    if n <= 0 {
        Seq::empty()
    } else {
        let p = positions(keys, k, n - 1);
        if keys[n - 1] == k {
            p.push((n - 1) as usize)
        } else {
            p
        }
    }
}

/// Whether `g` groups the first `n` keys by key: one group per key that
/// occurs, in increasing order of keys, each listing the positions of its
/// key in order.
pub open spec fn is_grouping(keys: Seq<char>, n: int, g: Seq<IndexGroup>) -> bool {
    &&& forall|a: int, b: int|
        0 <= a < b < g.len() ==> (#[trigger] g[a].key as u32) < (#[trigger] g[b].key as u32)
    &&& forall|a: int|
        0 <= a < g.len() ==> (#[trigger] g[a]).members@ == positions(keys, g[a].key, n)
            && positions(keys, g[a].key, n).len() > 0
    &&& forall|i: int|
        0 <= i < n ==> exists|a: int| 0 <= a < g.len() && (#[trigger] g[a]).key == #[trigger] keys[i]
}

/// A key that none of the first `n` keys equals has no positions.
proof fn lemma_positions_absent(keys: Seq<char>, k: char, n: int)
    requires
        0 <= n <= keys.len(),
        forall|i: int| 0 <= i < n ==> keys[i] != k,
    ensures
        positions(keys, k, n).len() == 0,
    decreases n,
{
    if n > 0 {
        lemma_positions_absent(keys, k, n - 1);
    }
}

/// Groups artists by their index keys: the groups come in increasing order
/// of keys, and each lists, in order, the positions of the artists under
/// its key.
pub fn index_groups(keys: &Vec<char>) -> (r: Vec<IndexGroup>)
    ensures
        is_grouping(keys@, keys@.len() as int, r@),
{
    let mut groups: Vec<IndexGroup> = Vec::new();
    let n = keys.len();
    let mut i: usize = 0;
    while i < n
        invariant
            n == keys@.len(),
            i <= n,
            is_grouping(keys@, i as int, groups@),
        decreases n - i,
    {
        let k = keys[i];
        let mut j: usize = 0;
        while j < groups.len() && (groups[j].key as u32) < (k as u32)
            invariant
                j <= groups@.len(),
                forall|a: int| 0 <= a < j ==> (groups@[a].key as u32) < (k as u32),
            decreases groups@.len() - j,
        {
            j = j + 1;
        }
        let ghost old_groups = groups@;
        assert forall|a: int| 0 <= a < old_groups.len() && old_groups[a].key != k implies positions(
            keys@,
            old_groups[a].key,
            i + 1,
        ) == positions(keys@, old_groups[a].key, i as int) by {}
        if j < groups.len() && groups[j].key == k {
            let mut members = groups[j].members.clone();
            assert(members@ =~= old_groups[j as int].members@);
            members.push(i);
            assert(members@ == positions(keys@, k, i + 1));
            groups.set(j, IndexGroup { key: k, members });
            assert forall|a: int| 0 <= a < groups@.len() implies (#[trigger] groups@[a]).members@
                == positions(keys@, groups@[a].key, i + 1) && positions(
                keys@,
                groups@[a].key,
                i + 1,
            ).len() > 0 by {
                if a != j {
                    assert(old_groups[a].key != k) by {
                        if a < j {
                        } else {
                            assert((old_groups[j as int].key as u32) < (old_groups[a].key as u32));
                        }
                    }
                }
            }
            assert forall|x: int| 0 <= x < i + 1 implies exists|a: int|
                0 <= a < groups@.len() && (#[trigger] groups@[a]).key == #[trigger] keys@[x] by {
                if x < i {
                    let a = choose|a: int| 0 <= a < old_groups.len() && old_groups[a].key == keys@[x];
                    assert(groups@[a].key == keys@[x]);
                } else {
                    assert(groups@[j as int].key == keys@[x]);
                }
            }
        } else {
            assert forall|a: int| 0 <= a < old_groups.len() implies old_groups[a].key != k by {
                if a >= j {
                    if a > j {
                        assert((old_groups[j as int].key as u32) < (old_groups[a].key as u32));
                    }
                }
            }
            assert forall|x: int| 0 <= x < i implies keys@[x] != k by {
                let a = choose|a: int| 0 <= a < old_groups.len() && old_groups[a].key == keys@[x];
                assert(old_groups[a].key != k);
            }
            proof {
                lemma_positions_absent(keys@, k, i as int);
            }
            let mut members: Vec<usize> = Vec::new();
            members.push(i);
            assert(members@ =~= positions(keys@, k, i + 1));
            let g = IndexGroup { key: k, members };
            let ghost new_group = g;
            groups.insert(j, g);
            proof {
                old_groups.insert_ensures(j as int, new_group);
            }
            assert(groups@ == old_groups.insert(j as int, new_group));
            assert(groups@.len() == old_groups.len() + 1);
            assert forall|b: int| j < b < groups@.len() implies groups@[b] == old_groups[b - 1] by {
                lemma_insert_shift(old_groups, j as int, new_group, b);
            }
            assert forall|b: int| 0 <= b < j implies groups@[b] == old_groups[b] by {}
            assert forall|a: int, b: int| 0 <= a < b < groups@.len() implies (
            #[trigger] groups@[a].key as u32) < (#[trigger] groups@[b].key as u32) by {
                if b < j {
                } else if b == j {
                } else if a < j {
                    assert(groups@[b] == old_groups[b - 1]);
                } else if a == j {
                    assert(groups@[b] == old_groups[b - 1]);
                } else {
                    assert(groups@[a] == old_groups[a - 1]);
                    assert(groups@[b] == old_groups[b - 1]);
                }
            }
            assert forall|a: int| 0 <= a < groups@.len() implies (#[trigger] groups@[a]).members@
                == positions(keys@, groups@[a].key, i + 1) && positions(
                keys@,
                groups@[a].key,
                i + 1,
            ).len() > 0 by {
                if a < j {
                } else if a > j {
                    assert(groups@[a] == old_groups[a - 1]);
                }
            }
            assert forall|x: int| 0 <= x < i + 1 implies exists|a: int|
                0 <= a < groups@.len() && (#[trigger] groups@[a]).key == #[trigger] keys@[x] by {
                if x < i {
                    let a = choose|a: int| 0 <= a < old_groups.len() && old_groups[a].key == keys@[x];
                    if a < j {
                        assert(groups@[a].key == keys@[x]);
                    } else {
                        assert(groups@[a + 1] == old_groups[a]);
                        assert(groups@[a + 1].key == keys@[x]);
                    }
                } else {
                    assert(groups@[j as int].key == keys@[x]);
                }
            }
        }
        i = i + 1;
    }
    groups
}

/// The items at the given positions, in the order of the positions.
pub open spec fn pick<T>(items: Seq<T>, idx: Seq<usize>) -> Seq<T> {
    Seq::new(idx.len(), |k: int| items[idx[k] as int])
}

/// The group of a grouping that holds key `k`.
fn group_of(groups: &Vec<IndexGroup>, k: char) -> (r: usize)
    requires
        exists|a: int| 0 <= a < groups@.len() && (#[trigger] groups@[a]).key == k,
    ensures
        r < groups@.len(),
        groups@[r as int].key == k,
{
    let mut a: usize = 0;
    while a < groups.len() && groups[a].key != k
        invariant
            a <= groups@.len(),
            exists|b: int| a <= b < groups@.len() && (#[trigger] groups@[b]).key == k,
        decreases groups@.len() - a,
    {
        a = a + 1;
    }
    a
}

/// The items sorted into the groups of their keys: each group's items in
/// the order of its positions.
fn bucket_by_groups<T>(items: Vec<T>, keys: &Vec<char>, groups: &Vec<IndexGroup>) -> (r: Vec<
    Vec<T>,
>)
    requires
        items@.len() == keys@.len(),
        is_grouping(keys@, keys@.len() as int, groups@),
    ensures
        r@.len() == groups@.len(),
        forall|a: int| 0 <= a < r@.len() ==> (#[trigger] r@[a])@ == pick(items@, groups@[a].members@),
{
    let ghost iv = items@;
    let n = keys.len();
    let g = groups.len();
    let mut buckets: Vec<Vec<T>> = Vec::new();
    let mut b: usize = 0;
    while b < g
        invariant
            b <= g,
            g == groups@.len(),
            buckets@.len() == b,
            forall|a: int| 0 <= a < b ==> (#[trigger] buckets@[a])@ == Seq::<T>::empty(),
        decreases g - b,
    {
        buckets.push(Vec::new());
        b = b + 1;
    }
    assert forall|a: int| 0 <= a < g implies (#[trigger] buckets@[a])@ == pick(
        iv,
        positions(keys@, groups@[a].key, 0),
    ) by {
        assert(pick(iv, positions(keys@, groups@[a].key, 0)) =~= Seq::<T>::empty());
    }
    let mut rest = items;
    let mut rev: Vec<T> = Vec::new();
    while rest.len() > 0
        invariant
            rest@ + rev@.reverse() == iv,
        decreases rest@.len(),
    {
        let ghost before = rev@;
        let x = rest.pop().unwrap();
        rev.push(x);
        assert(rev@.reverse() =~= seq![x] + before.reverse());
        assert(rest@ + rev@.reverse() =~= iv);
    }
    assert(rev@.reverse() =~= iv);
    let mut i: usize = 0;
    while i < n
        invariant
            n == keys@.len() == iv.len(),
            i <= n,
            rev@.len() == n - i,
            rev@.reverse() == iv.skip(i as int),
            g == groups@.len(),
            buckets@.len() == g,
            is_grouping(keys@, n as int, groups@),
            forall|a: int|
                0 <= a < g ==> (#[trigger] buckets@[a])@ == pick(
                    iv,
                    positions(keys@, groups@[a].key, i as int),
                ),
        decreases n - i,
    {
        let ghost before = rev@;
        let x = rev.pop().unwrap();
        assert(before =~= rev@.push(x));
        assert(before.reverse() =~= seq![x] + rev@.reverse());
        assert(iv.skip(i as int)[0] == x);
        assert(iv.skip(i as int).drop_first() =~= iv.skip(i + 1));
        assert(x == iv[i as int]);
        let k = keys[i];
        assert(exists|a: int| 0 <= a < groups@.len() && (#[trigger] groups@[a]).key == keys@[i as int]);
        let a = group_of(groups, k);
        let ghost old_buckets = buckets@;
        let mut tmp: Vec<T> = Vec::new();
        buckets.set_and_swap(a, &mut tmp);
        tmp.push(x);
        buckets.set_and_swap(a, &mut tmp);
        assert forall|c: int| 0 <= c < g implies (#[trigger] buckets@[c])@ == pick(
            iv,
            positions(keys@, groups@[c].key, i + 1),
        ) by {
            if c == a {
                assert(pick(iv, positions(keys@, k, i + 1)) =~= pick(iv, positions(keys@, k, i as int)).push(
                    x,
                ));
            } else {
                assert(groups@[c].key != k) by {
                    if c < a {
                        assert((groups@[c].key as u32) < (groups@[a as int].key as u32));
                    } else {
                        assert((groups@[a as int].key as u32) < (groups@[c].key as u32));
                    }
                }
                assert(buckets@[c] == old_buckets[c]);
            }
        }
        i = i + 1;
    }
    buckets
}

/// The index of `getArtists`: the artists grouped under the keys given for
/// them (one per artist), the groups in increasing order of keys, each named
/// by its key and listing its artists in their order.
pub fn artists_index(artists: Vec<ArtistID3Response>, keys: &Vec<char>) -> (r: ArtistsID3Response)
    requires
        artists@.len() == keys@.len(),
    ensures
        r.ignored_articles@ == IGNORED_ARTICLES@,
        exists|g: Seq<IndexGroup>|
            is_grouping(keys@, keys@.len() as int, g) && r.indexes@.len() == g.len() && forall|
                a: int,
            |
                0 <= a < g.len() ==> (#[trigger] r.indexes@[a]).name@ == seq![g[a].key]
                    && r.indexes@[a].artists@ == pick(artists@, g[a].members@),
{
    let ghost av = artists@;
    let groups = index_groups(keys);
    let buckets = bucket_by_groups(artists, keys, &groups);
    let ghost bv = buckets@;
    let mut rev = Vec::new();
    let mut rest = buckets;
    while rest.len() > 0
        invariant
            rest@ + rev@.reverse() == bv,
        decreases rest@.len(),
    {
        let ghost before = rev@;
        let x = rest.pop().unwrap();
        rev.push(x);
        assert(rev@.reverse() =~= seq![x] + before.reverse());
        assert(rest@ + rev@.reverse() =~= bv);
    }
    assert(rev@.reverse() =~= bv);
    let mut indexes: Vec<IndexID3Response> = Vec::new();
    let g = groups.len();
    let mut a: usize = 0;
    while a < g
        invariant
            g == groups@.len() == bv.len(),
            a <= g,
            rev@.len() == g - a,
            rev@.reverse() == bv.skip(a as int),
            indexes@.len() == a,
            forall|c: int| 0 <= c < g ==> (#[trigger] bv[c])@ == pick(av, groups@[c].members@),
            forall|c: int|
                0 <= c < a ==> (#[trigger] indexes@[c]).name@ == seq![groups@[c].key]
                    && indexes@[c].artists@ == pick(av, groups@[c].members@),
        decreases g - a,
    {
        let ghost before = rev@;
        let members = rev.pop().unwrap();
        assert(before =~= rev@.push(members));
        assert(before.reverse() =~= seq![members] + rev@.reverse());
        assert(bv.skip(a as int)[0] == members);
        assert(bv.skip(a as int).drop_first() =~= bv.skip(a + 1));
        let mut name = String::new();
        push_char(&mut name, groups[a].key);
        assert(name@ =~= seq![groups@[a as int].key]);
        indexes.push(IndexID3Response { name, artists: members });
        a = a + 1;
    }
    ArtistsID3Response { ignored_articles: IGNORED_ARTICLES.to_string(), indexes }
}

/// The last position of `id` among `ids`.
pub open spec fn last_position(ids: Seq<i32>, id: i32) -> Option<int>
    decreases ids.len(),
{
    if ids.len() == 0 {
        None
    } else if ids.last() == id {
        Some(ids.len() - 1)
    } else {
        last_position(ids.drop_last(), id)
    }
}

/// The albums (by position among `album_ids`) in the order of `rated`: for
/// each rated identifier not seen before, the last album with it, if any.
pub open spec fn rated_order(album_ids: Seq<i32>, rated: Seq<i32>) -> Seq<usize>
    decreases rated.len(),
{
    if rated.len() == 0 {
        Seq::empty()
    } else {
        let prev = rated_order(album_ids, rated.drop_last());
        let id = rated.last();
        if !rated.drop_last().contains(id) && last_position(album_ids, id) is Some {
            prev.push(last_position(album_ids, id)->0 as usize)
        } else {
            prev
        }
    }
}

/// The last position of `id` among `ids`.
fn find_last(ids: &Vec<i32>, id: i32) -> (r: Option<usize>)
    ensures
        match r {
            Some(j) => last_position(ids@, id) == Some(j as int),
            None => last_position(ids@, id) is None,
        },
{
    let mut j = ids.len();
    assert(ids@.take(j as int) =~= ids@);
    while j > 0
        invariant
            j <= ids@.len(),
            last_position(ids@, id) == last_position(ids@.take(j as int), id),
        decreases j,
    {
        assert(ids@.take(j as int).drop_last() =~= ids@.take(j - 1));
        if ids[j - 1] == id {
            return Some(j - 1);
        }
        j = j - 1;
    }
    None
}

/// The order of the highest rated albums: the positions (among the fetched
/// albums' identifiers) of the album of each rated identifier, in rating
/// order, each identifier once; identifiers whose album was not fetched are
/// skipped, and of two albums with one identifier the later counts.
pub fn highest_rated_order(album_ids: &Vec<i32>, rated: &Vec<i32>) -> (r: Vec<usize>)
    ensures
        r@ == rated_order(album_ids@, rated@),
{
    let mut r: Vec<usize> = Vec::new();
    let mut i: usize = 0;
    while i < rated.len()
        invariant
            i <= rated@.len(),
            r@ == rated_order(album_ids@, rated@.take(i as int)),
        decreases rated@.len() - i,
    {
        let ghost t = rated@.take(i + 1);
        assert(t.drop_last() =~= rated@.take(i as int));
        let id = rated[i];
        let mut seen = false;
        let mut k: usize = 0;
        while k < i
            invariant
                k <= i < rated@.len(),
                seen == rated@.take(k as int).contains(id),
            decreases i - k,
        {
            if rated[k] == id {
                seen = true;
                assert(rated@.take(k + 1)[k as int] == id);
            }
            assert(seen == rated@.take(k + 1).contains(id)) by {
                if seen && !rated@.take(k as int).contains(id) {
                    assert(rated@.take(k + 1)[k as int] == id);
                }
                if rated@.take(k + 1).contains(id) {
                    let x = choose|x: int| 0 <= x < k + 1 && #[trigger] rated@.take(k + 1)[x] == id;
                    if x < k {
                        assert(rated@.take(k as int)[x] == id);
                    }
                }
            }
            k = k + 1;
        }
        if !seen {
            match find_last(album_ids, id) {
                Some(j) => {
                    r.push(j);
                },
                None => {},
            }
        }
        i = i + 1;
    }
    assert(rated@.take(rated@.len() as int) =~= rated@);
    r
}

} // verus!
