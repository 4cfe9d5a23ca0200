//! The music library's records and the Subsonic response records built from
//! them.
use vstd::prelude::*;
use crate::number::{i32_to_string, signed_decimal};

verus! {

// ---------------------------------------------------------------------------
// Timestamps
// ---------------------------------------------------------------------------
/// The text that `chrono` gives for the UTC instant `secs` seconds and
/// `nanos` nanoseconds after the Unix epoch in the format
/// `%Y-%m-%dT%H:%M:%S%.3fZ`, or `None` where `chrono` cannot represent that
/// instant.
pub uninterp spec fn iso_datetime(secs: i64, nanos: u32) -> Option<Seq<char>>;

/// Formats an instant with `chrono::DateTime::from_timestamp` and
/// `format("%Y-%m-%dT%H:%M:%S%.3fZ")`. The text is named, not stated: it is
/// `iso_datetime(secs, nanos)`.
#[verifier::external_body]
fn format_iso_datetime(secs: i64, nanos: u32) -> (r: Option<String>)
    ensures
        r is Some <==> iso_datetime(secs, nanos) is Some,
        r is Some ==> iso_datetime(secs, nanos) == Some(r->0@),
{
    match chrono::DateTime::from_timestamp(secs, nanos) {
        Some(t) => Some(t.naive_utc().format("%Y-%m-%dT%H:%M:%S%.3fZ").to_string()),
        None => None,
    }
}

/// A date and time (UTC) that the library stores, as seconds and
/// nanoseconds since the Unix epoch.
pub struct Timestamp {
    secs: i64,
    nanos: u32,
}

impl Timestamp {
    /// Only instants that can be formatted are held.
    #[verifier::type_invariant]
    spec fn representable(self) -> bool {
        iso_datetime(self.secs, self.nanos) is Some
    }

    /// Seconds since the epoch.
    pub closed spec fn secs(self) -> i64 {
        self.secs
    }

    /// Nanoseconds within the second.
    pub closed spec fn nanos(self) -> u32 {
        self.nanos
    }

    /// The timestamp as `%Y-%m-%dT%H:%M:%S%.3fZ`.
    pub closed spec fn iso(self) -> Seq<char> {
        iso_datetime(self.secs, self.nanos)->0
    }

    /// The instant `secs` seconds and `nanos` nanoseconds after the epoch,
    /// where it can be represented.
    pub fn from_unix(secs: i64, nanos: u32) -> (r: Option<Timestamp>)
        ensures
            r is Some <==> iso_datetime(secs, nanos) is Some,
            r matches Some(t) ==> t.secs() == secs && t.nanos() == nanos && Some(t.iso())
                == iso_datetime(secs, nanos),
    {
        match format_iso_datetime(secs, nanos) {
            Some(_) => Some(Timestamp { secs, nanos }),
            None => None,
        }
    }

    /// Seconds since the epoch.
    pub fn unix_seconds(&self) -> (r: i64)
        ensures
            r == self.secs(),
    {
        self.secs
    }

    /// Nanoseconds within the second.
    pub fn subsec_nanos(&self) -> (r: u32)
        ensures
            r == self.nanos(),
    {
        self.nanos
    }

    /// The timestamp formatted as `%Y-%m-%dT%H:%M:%S%.3fZ`.
    pub fn iso_string(&self) -> (r: String)
        ensures
            r@ == self.iso(),
    {
        proof {
            use_type_invariant(self);
        }
        match format_iso_datetime(self.secs, self.nanos) {
            Some(s) => s,
            None => String::new(),
        }
    }

    /// A copy of the timestamp.
    pub fn copy(&self) -> (r: Timestamp)
        ensures
            r.secs() == self.secs(),
            r.nanos() == self.nanos(),
            r.iso() == self.iso(),
    {
        proof {
            use_type_invariant(self);
        }
        Timestamp { secs: self.secs, nanos: self.nanos }
    }
}

/// The formatted text of an optional timestamp.
pub open spec fn opt_iso(t: Option<&Timestamp>) -> Option<Seq<char>> {
    match t {
        Some(t) => Some(t.iso()),
        None => None,
    }
}

/// Formats an optional timestamp.
pub fn format_opt(t: Option<&Timestamp>) -> (r: Option<String>)
    ensures
        opt_view(r) == opt_iso(t),
{
    match t {
        Some(t) => Some(t.iso_string()),
        None => None,
    }
}

// ---------------------------------------------------------------------------
// Small helpers
// ---------------------------------------------------------------------------
/// The text of an optional string.
pub open spec fn opt_view(o: Option<String>) -> Option<Seq<char>> {
    match o {
        Some(s) => Some(s@),
        None => None,
    }
}

/// The decimal text of an optional identifier.
pub open spec fn opt_id_text(o: Option<i32>) -> Option<Seq<char>> {
    match o {
        Some(id) => Some(signed_decimal(id as int)),
        None => None,
    }
}

/// A copy of an optional string.
pub fn clone_opt(o: &Option<String>) -> (r: Option<String>)
    ensures
        opt_view(r) == opt_view(*o),
{
    match o {
        Some(s) => Some(s.clone()),
        None => None,
    }
}

/// The decimal text of an optional identifier.
pub fn opt_id_string(o: Option<i32>) -> (r: Option<String>)
    ensures
        opt_view(r) == opt_id_text(o),
{
    match o {
        Some(id) => Some(i32_to_string(id)),
        None => None,
    }
}

// ---------------------------------------------------------------------------
// Library records
// ---------------------------------------------------------------------------
/// A music folder (library root directory).
pub struct MusicFolder {
    pub id: i32,
    pub name: String,
    pub path: String,
    pub enabled: bool,
    pub created_at: Timestamp,
    pub updated_at: Timestamp,
}

/// An artist in the music library.
pub struct Artist {
    pub id: i32,
    pub name: String,
    pub sort_name: Option<String>,
    pub musicbrainz_id: Option<String>,
    pub cover_art: Option<String>,
    pub artist_image_url: Option<String>,
    pub created_at: Timestamp,
    pub updated_at: Timestamp,
}

/// An album in the music library.
pub struct Album {
    pub id: i32,
    pub name: String,
    pub sort_name: Option<String>,
    pub artist_id: Option<i32>,
    pub artist_name: Option<String>,
    pub year: Option<i32>,
    pub genre: Option<String>,
    pub cover_art: Option<String>,
    pub musicbrainz_id: Option<String>,
    pub duration: i32,
    pub song_count: i32,
    pub play_count: i32,
    pub created_at: Timestamp,
    pub updated_at: Timestamp,
}

/// A song/track in the music library.
pub struct Song {
    pub id: i32,
    pub title: String,
    pub sort_name: Option<String>,
    pub album_id: Option<i32>,
    pub artist_id: Option<i32>,
    pub artist_name: Option<String>,
    pub album_name: Option<String>,
    pub music_folder_id: i32,
    pub path: String,
    pub parent_path: String,
    pub file_size: i64,
    pub content_type: String,
    pub suffix: String,
    pub duration: i32,
    pub bit_rate: Option<i32>,
    pub bit_depth: Option<i32>,
    pub sampling_rate: Option<i32>,
    pub channel_count: Option<i32>,
    pub track_number: Option<i32>,
    pub disc_number: Option<i32>,
    pub year: Option<i32>,
    pub genre: Option<String>,
    pub cover_art: Option<String>,
    pub musicbrainz_id: Option<String>,
    pub play_count: i32,
    pub created_at: Timestamp,
    pub updated_at: Timestamp,
}

/// New music folder for insertion.
pub struct NewMusicFolder {
    pub name: String,
    pub path: String,
    pub enabled: bool,
}

impl NewMusicFolder {
    /// An enabled folder with the given name and path.
    pub fn new(name: String, path: String) -> (r: Self)
        ensures
            r.name@ == name@,
            r.path@ == path@,
            r.enabled,
    {
        NewMusicFolder { name, path, enabled: true }
    }
}

/// New artist for insertion.
pub struct NewArtist {
    pub name: String,
    pub sort_name: Option<String>,
    pub musicbrainz_id: Option<String>,
    pub cover_art: Option<String>,
    pub artist_image_url: Option<String>,
}

impl NewArtist {
    /// An artist with the given name and nothing else set.
    pub fn new(name: String) -> (r: Self)
        ensures
            r.name@ == name@,
            r.sort_name is None,
            r.musicbrainz_id is None,
            r.cover_art is None,
            r.artist_image_url is None,
    {
        NewArtist {
            name,
            sort_name: None,
            musicbrainz_id: None,
            cover_art: None,
            artist_image_url: None,
        }
    }
}

/// New album for insertion.
pub struct NewAlbum {
    pub name: String,
    pub sort_name: Option<String>,
    pub artist_id: Option<i32>,
    pub artist_name: Option<String>,
    pub year: Option<i32>,
    pub genre: Option<String>,
    pub cover_art: Option<String>,
    pub musicbrainz_id: Option<String>,
    pub duration: i32,
    pub song_count: i32,
}

impl NewAlbum {
    /// An album with the given name, no songs and nothing else set.
    pub fn new(name: String) -> (r: Self)
        ensures
            r.name@ == name@,
            r.sort_name is None,
            r.artist_id is None,
            r.artist_name is None,
            r.year is None,
            r.genre is None,
            r.cover_art is None,
            r.musicbrainz_id is None,
            r.duration == 0,
            r.song_count == 0,
    {
        NewAlbum {
            name,
            sort_name: None,
            artist_id: None,
            artist_name: None,
            year: None,
            genre: None,
            cover_art: None,
            musicbrainz_id: None,
            duration: 0,
            song_count: 0,
        }
    }
}

/// New song for insertion.
pub struct NewSong {
    pub title: String,
    pub sort_name: Option<String>,
    pub album_id: Option<i32>,
    pub artist_id: Option<i32>,
    pub artist_name: Option<String>,
    pub album_name: Option<String>,
    pub music_folder_id: i32,
    pub path: String,
    pub parent_path: String,
    pub file_size: i64,
    pub content_type: String,
    pub suffix: String,
    pub duration: i32,
    pub bit_rate: Option<i32>,
    pub bit_depth: Option<i32>,
    pub sampling_rate: Option<i32>,
    pub channel_count: Option<i32>,
    pub track_number: Option<i32>,
    pub disc_number: Option<i32>,
    pub year: Option<i32>,
    pub genre: Option<String>,
    pub cover_art: Option<String>,
    pub musicbrainz_id: Option<String>,
}

// ---------------------------------------------------------------------------
// Response records
// ---------------------------------------------------------------------------
/// Subsonic API music folder response format.
pub struct MusicFolderResponse {
    pub id: i32,
    pub name: Option<String>,
}

impl MusicFolderResponse {
    /// The response record of a music folder.
    pub fn from_folder(folder: &MusicFolder) -> (r: Self)
        ensures
            r.id == folder.id,
            opt_view(r.name) == Some(folder.name@),
    {
        MusicFolderResponse { id: folder.id, name: Some(folder.name.clone()) }
    }
}

/// Subsonic API artist ID3 response format (for getArtists).
pub struct ArtistID3Response {
    pub id: String,
    pub name: String,
    pub cover_art: Option<String>,
    pub artist_image_url: Option<String>,
    pub album_count: Option<i32>,
    pub starred: Option<String>,
    pub musicbrainz_id: Option<String>,
    pub sort_name: Option<String>,
}

impl ArtistID3Response {
    /// The response record of an artist, starred when `starred_at` is given.
    pub fn from_artist_with_starred(
        artist: &Artist,
        album_count: Option<i32>,
        starred_at: Option<&Timestamp>,
    ) -> (r: Self)
        ensures
            r.id@ == signed_decimal(artist.id as int),
            r.name@ == artist.name@,
            opt_view(r.cover_art) == opt_view(artist.cover_art),
            opt_view(r.artist_image_url) == opt_view(artist.artist_image_url),
            r.album_count == album_count,
            opt_view(r.starred) == opt_iso(starred_at),
            opt_view(r.musicbrainz_id) == opt_view(artist.musicbrainz_id),
            opt_view(r.sort_name) == opt_view(artist.sort_name),
    {
        ArtistID3Response {
            id: i32_to_string(artist.id),
            name: artist.name.clone(),
            cover_art: clone_opt(&artist.cover_art),
            artist_image_url: clone_opt(&artist.artist_image_url),
            album_count,
            starred: format_opt(starred_at),
            musicbrainz_id: clone_opt(&artist.musicbrainz_id),
            sort_name: clone_opt(&artist.sort_name),
        }
    }

    /// The response record of an artist, not starred.
    pub fn from_artist(artist: &Artist, album_count: Option<i32>) -> (r: Self)
        ensures
            r.id@ == signed_decimal(artist.id as int),
            r.name@ == artist.name@,
            opt_view(r.cover_art) == opt_view(artist.cover_art),
            opt_view(r.artist_image_url) == opt_view(artist.artist_image_url),
            r.album_count == album_count,
            r.starred is None,
            opt_view(r.musicbrainz_id) == opt_view(artist.musicbrainz_id),
            opt_view(r.sort_name) == opt_view(artist.sort_name),
    {
        Self::from_artist_with_starred(artist, album_count, None)
    }
}

/// Subsonic API album ID3 response format.
pub struct AlbumID3Response {
    pub id: String,
    pub name: String,
    pub artist: Option<String>,
    pub artist_id: Option<String>,
    pub cover_art: Option<String>,
    pub song_count: i32,
    pub duration: i32,
    pub play_count: Option<i32>,
    pub created: String,
    pub starred: Option<String>,
    pub year: Option<i32>,
    pub genre: Option<String>,
}

impl AlbumID3Response {
    /// The response record of an album, starred when `starred_at` is given.
    pub fn from_album_with_starred(album: &Album, starred_at: Option<&Timestamp>) -> (r: Self)
        ensures
            r.id@ == signed_decimal(album.id as int),
            r.name@ == album.name@,
            opt_view(r.artist) == opt_view(album.artist_name),
            opt_view(r.artist_id) == opt_id_text(album.artist_id),
            opt_view(r.cover_art) == opt_view(album.cover_art),
            r.song_count == album.song_count,
            r.duration == album.duration,
            r.play_count == Some(album.play_count),
            r.created@ == album.created_at.iso(),
            opt_view(r.starred) == opt_iso(starred_at),
            r.year == album.year,
            opt_view(r.genre) == opt_view(album.genre),
    {
        AlbumID3Response {
            id: i32_to_string(album.id),
            name: album.name.clone(),
            artist: clone_opt(&album.artist_name),
            artist_id: opt_id_string(album.artist_id),
            cover_art: clone_opt(&album.cover_art),
            song_count: album.song_count,
            duration: album.duration,
            play_count: Some(album.play_count),
            created: album.created_at.iso_string(),
            starred: format_opt(starred_at),
            year: album.year,
            genre: clone_opt(&album.genre),
        }
    }

    /// The response record of an album, not starred.
    pub fn from_album(album: &Album) -> (r: Self)
        ensures
            r.id@ == signed_decimal(album.id as int),
            r.name@ == album.name@,
            opt_view(r.artist) == opt_view(album.artist_name),
            opt_view(r.artist_id) == opt_id_text(album.artist_id),
            opt_view(r.cover_art) == opt_view(album.cover_art),
            r.song_count == album.song_count,
            r.duration == album.duration,
            r.play_count == Some(album.play_count),
            r.created@ == album.created_at.iso(),
            r.starred is None,
            r.year == album.year,
            opt_view(r.genre) == opt_view(album.genre),
    {
        Self::from_album_with_starred(album, None)
    }
}

/// Subsonic API child (song) response format.
pub struct ChildResponse {
    pub id: String,
    pub parent: Option<String>,
    pub is_dir: bool,
    pub title: String,
    pub album: Option<String>,
    pub artist: Option<String>,
    pub track: Option<i32>,
    pub year: Option<i32>,
    pub genre: Option<String>,
    pub cover_art: Option<String>,
    pub size: Option<i64>,
    pub content_type: Option<String>,
    pub suffix: Option<String>,
    pub duration: Option<i32>,
    pub bit_rate: Option<i32>,
    pub bit_depth: Option<i32>,
    pub sampling_rate: Option<i32>,
    pub channel_count: Option<i32>,
    pub path: Option<String>,
    pub play_count: Option<i32>,
    pub disc_number: Option<i32>,
    pub created: Option<String>,
    pub album_id: Option<String>,
    pub artist_id: Option<String>,
    pub media_type: Option<String>,
    pub starred: Option<String>,
}

/// The fields that every song record of the responses carries over from
/// the song.
pub open spec fn child_of_song(r: ChildResponse, song: Song) -> bool {
    &&& r.id@ == signed_decimal(song.id as int)
    &&& opt_view(r.parent) == opt_id_text(song.album_id)
    &&& !r.is_dir
    &&& r.title@ == song.title@
    &&& opt_view(r.album) == opt_view(song.album_name)
    &&& opt_view(r.artist) == opt_view(song.artist_name)
    &&& r.track == song.track_number
    &&& r.year == song.year
    &&& opt_view(r.genre) == opt_view(song.genre)
    &&& opt_view(r.cover_art) == opt_view(song.cover_art)
    &&& r.size == Some(song.file_size)
    &&& opt_view(r.content_type) == Some(song.content_type@)
    &&& opt_view(r.suffix) == Some(song.suffix@)
    &&& r.duration == Some(song.duration)
    &&& r.bit_rate == song.bit_rate
    &&& r.bit_depth == song.bit_depth
    &&& r.sampling_rate == song.sampling_rate
    &&& r.channel_count == song.channel_count
    &&& opt_view(r.path) == Some(song.path@)
    &&& r.play_count == Some(song.play_count)
    &&& r.disc_number == song.disc_number
    &&& opt_view(r.created) == Some(song.created_at.iso())
    &&& opt_view(r.album_id) == opt_id_text(song.album_id)
    &&& opt_view(r.artist_id) == opt_id_text(song.artist_id)
    &&& opt_view(r.media_type) == Some("music"@)
}

impl ChildResponse {
    /// The response record of a song, starred when `starred_at` is given.
    pub fn from_song_with_starred(song: &Song, starred_at: Option<&Timestamp>) -> (r: Self)
        ensures
            child_of_song(r, *song),
            opt_view(r.starred) == opt_iso(starred_at),
    {
        ChildResponse {
            id: i32_to_string(song.id),
            parent: opt_id_string(song.album_id),
            is_dir: false,
            title: song.title.clone(),
            album: clone_opt(&song.album_name),
            artist: clone_opt(&song.artist_name),
            track: song.track_number,
            year: song.year,
            genre: clone_opt(&song.genre),
            cover_art: clone_opt(&song.cover_art),
            size: Some(song.file_size),
            content_type: Some(song.content_type.clone()),
            suffix: Some(song.suffix.clone()),
            duration: Some(song.duration),
            bit_rate: song.bit_rate,
            bit_depth: song.bit_depth,
            sampling_rate: song.sampling_rate,
            channel_count: song.channel_count,
            path: Some(song.path.clone()),
            play_count: Some(song.play_count),
            disc_number: song.disc_number,
            created: Some(song.created_at.iso_string()),
            album_id: opt_id_string(song.album_id),
            artist_id: opt_id_string(song.artist_id),
            media_type: Some("music".to_string()),
            starred: format_opt(starred_at),
        }
    }

    /// The response record of a song, not starred.
    pub fn from_song(song: &Song) -> (r: Self)
        ensures
            child_of_song(r, *song),
            r.starred is None,
    {
        Self::from_song_with_starred(song, None)
    }
}

/// Index entry for getArtists response (ID3 version).
pub struct IndexID3Response {
    pub name: String,
    pub artists: Vec<ArtistID3Response>,
}

/// Artists response for getArtists (ID3 version).
pub struct ArtistsID3Response {
    pub ignored_articles: String,
    pub indexes: Vec<IndexID3Response>,
}

/// Album with songs response for getAlbum.
pub struct AlbumWithSongsID3Response {
    pub id: String,
    pub name: String,
    pub artist: Option<String>,
    pub artist_id: Option<String>,
    pub cover_art: Option<String>,
    pub song_count: i32,
    pub duration: i32,
    pub play_count: Option<i32>,
    pub created: String,
    pub starred: Option<String>,
    pub year: Option<i32>,
    pub genre: Option<String>,
    pub songs: Vec<ChildResponse>,
}

impl AlbumWithSongsID3Response {
    /// The album record with its songs, starred when `starred_at` is given.
    pub fn from_album_and_songs_with_starred(
        album: &Album,
        songs: Vec<ChildResponse>,
        starred_at: Option<&Timestamp>,
    ) -> (r: Self)
        ensures
            r.id@ == signed_decimal(album.id as int),
            r.name@ == album.name@,
            opt_view(r.artist) == opt_view(album.artist_name),
            opt_view(r.artist_id) == opt_id_text(album.artist_id),
            opt_view(r.cover_art) == opt_view(album.cover_art),
            r.song_count == album.song_count,
            r.duration == album.duration,
            r.play_count == Some(album.play_count),
            r.created@ == album.created_at.iso(),
            opt_view(r.starred) == opt_iso(starred_at),
            r.year == album.year,
            opt_view(r.genre) == opt_view(album.genre),
            r.songs == songs,
    {
        AlbumWithSongsID3Response {
            id: i32_to_string(album.id),
            name: album.name.clone(),
            artist: clone_opt(&album.artist_name),
            artist_id: opt_id_string(album.artist_id),
            cover_art: clone_opt(&album.cover_art),
            song_count: album.song_count,
            duration: album.duration,
            play_count: Some(album.play_count),
            created: album.created_at.iso_string(),
            starred: format_opt(starred_at),
            year: album.year,
            genre: clone_opt(&album.genre),
            songs,
        }
    }

    /// The album record with its songs, not starred.
    pub fn from_album_and_songs(album: &Album, songs: Vec<ChildResponse>) -> (r: Self)
        ensures
            r.id@ == signed_decimal(album.id as int),
            r.name@ == album.name@,
            opt_view(r.artist) == opt_view(album.artist_name),
            opt_view(r.artist_id) == opt_id_text(album.artist_id),
            opt_view(r.cover_art) == opt_view(album.cover_art),
            r.song_count == album.song_count,
            r.duration == album.duration,
            r.play_count == Some(album.play_count),
            r.created@ == album.created_at.iso(),
            r.starred is None,
            r.year == album.year,
            opt_view(r.genre) == opt_view(album.genre),
            r.songs == songs,
    {
        Self::from_album_and_songs_with_starred(album, songs, None)
    }
}

/// Artist with albums response for getArtist.
pub struct ArtistWithAlbumsID3Response {
    pub id: String,
    pub name: String,
    pub cover_art: Option<String>,
    pub artist_image_url: Option<String>,
    pub album_count: Option<i32>,
    pub starred: Option<String>,
    pub musicbrainz_id: Option<String>,
    pub sort_name: Option<String>,
    pub albums: Vec<AlbumID3Response>,
}

impl ArtistWithAlbumsID3Response {
    /// The artist record with its albums, starred when `starred_at` is
    /// given; the album count is the number of albums, cast to `i32`.
    pub fn from_artist_and_albums_with_starred(
        artist: &Artist,
        albums: Vec<AlbumID3Response>,
        starred_at: Option<&Timestamp>,
    ) -> (r: Self)
        ensures
            r.id@ == signed_decimal(artist.id as int),
            r.name@ == artist.name@,
            opt_view(r.cover_art) == opt_view(artist.cover_art),
            opt_view(r.artist_image_url) == opt_view(artist.artist_image_url),
            r.album_count == Some(albums@.len() as i32),
            opt_view(r.starred) == opt_iso(starred_at),
            opt_view(r.musicbrainz_id) == opt_view(artist.musicbrainz_id),
            opt_view(r.sort_name) == opt_view(artist.sort_name),
            r.albums == albums,
    {
        let count = albums.len() as i32;
        ArtistWithAlbumsID3Response {
            id: i32_to_string(artist.id),
            name: artist.name.clone(),
            cover_art: clone_opt(&artist.cover_art),
            artist_image_url: clone_opt(&artist.artist_image_url),
            album_count: Some(count),
            starred: format_opt(starred_at),
            musicbrainz_id: clone_opt(&artist.musicbrainz_id),
            sort_name: clone_opt(&artist.sort_name),
            albums,
        }
    }

    /// The artist record with its albums, not starred.
    pub fn from_artist_and_albums(artist: &Artist, albums: Vec<AlbumID3Response>) -> (r: Self)
        ensures
            r.id@ == signed_decimal(artist.id as int),
            r.name@ == artist.name@,
            opt_view(r.cover_art) == opt_view(artist.cover_art),
            opt_view(r.artist_image_url) == opt_view(artist.artist_image_url),
            r.album_count == Some(albums@.len() as i32),
            r.starred is None,
            opt_view(r.musicbrainz_id) == opt_view(artist.musicbrainz_id),
            opt_view(r.sort_name) == opt_view(artist.sort_name),
            r.albums == albums,
    {
        Self::from_artist_and_albums_with_starred(artist, albums, None)
    }
}

/// Album list response for getAlbumList2.
pub struct AlbumList2Response {
    pub albums: Vec<AlbumID3Response>,
}

/// Genre response for getGenres.
pub struct GenreResponse {
    pub song_count: i64,
    pub album_count: i64,
    pub value: String,
}

/// Genres response for getGenres.
pub struct GenresResponse {
    pub genres: Vec<GenreResponse>,
}

/// Search result response for search3.
pub struct SearchResult3Response {
    pub artists: Vec<ArtistID3Response>,
    pub albums: Vec<AlbumID3Response>,
    pub songs: Vec<ChildResponse>,
}

/// A song record with the time it was starred, for getStarred2.
pub struct StarredChildResponse {
    pub id: String,
    pub parent: Option<String>,
    pub is_dir: bool,
    pub title: String,
    pub album: Option<String>,
    pub artist: Option<String>,
    pub track: Option<i32>,
    pub year: Option<i32>,
    pub genre: Option<String>,
    pub cover_art: Option<String>,
    pub size: Option<i64>,
    pub content_type: Option<String>,
    pub suffix: Option<String>,
    pub duration: Option<i32>,
    pub bit_rate: Option<i32>,
    pub bit_depth: Option<i32>,
    pub sampling_rate: Option<i32>,
    pub channel_count: Option<i32>,
    pub path: Option<String>,
    pub play_count: Option<i32>,
    pub disc_number: Option<i32>,
    pub created: Option<String>,
    pub album_id: Option<String>,
    pub artist_id: Option<String>,
    pub media_type: Option<String>,
    pub starred: String,
}

impl StarredChildResponse {
    /// The starred record of a song, starred at `starred_at`.
    pub fn from_song_and_starred(song: &Song, starred_at: &Timestamp) -> (r: Self)
        ensures
            r.id@ == signed_decimal(song.id as int),
            opt_view(r.parent) == opt_id_text(song.album_id),
            !r.is_dir,
            r.title@ == song.title@,
            opt_view(r.album) == opt_view(song.album_name),
            opt_view(r.artist) == opt_view(song.artist_name),
            r.track == song.track_number,
            r.year == song.year,
            opt_view(r.genre) == opt_view(song.genre),
            opt_view(r.cover_art) == opt_view(song.cover_art),
            r.size == Some(song.file_size),
            opt_view(r.content_type) == Some(song.content_type@),
            opt_view(r.suffix) == Some(song.suffix@),
            r.duration == Some(song.duration),
            r.bit_rate == song.bit_rate,
            r.bit_depth == song.bit_depth,
            r.sampling_rate == song.sampling_rate,
            r.channel_count == song.channel_count,
            opt_view(r.path) == Some(song.path@),
            r.play_count == Some(song.play_count),
            r.disc_number == song.disc_number,
            opt_view(r.created) == Some(song.created_at.iso()),
            opt_view(r.album_id) == opt_id_text(song.album_id),
            opt_view(r.artist_id) == opt_id_text(song.artist_id),
            opt_view(r.media_type) == Some("music"@),
            r.starred@ == starred_at.iso(),
    {
        let c = ChildResponse::from_song(song);
        StarredChildResponse {
            id: c.id,
            parent: c.parent,
            is_dir: c.is_dir,
            title: c.title,
            album: c.album,
            artist: c.artist,
            track: c.track,
            year: c.year,
            genre: c.genre,
            cover_art: c.cover_art,
            size: c.size,
            content_type: c.content_type,
            suffix: c.suffix,
            duration: c.duration,
            bit_rate: c.bit_rate,
            bit_depth: c.bit_depth,
            sampling_rate: c.sampling_rate,
            channel_count: c.channel_count,
            path: c.path,
            play_count: c.play_count,
            disc_number: c.disc_number,
            created: c.created,
            album_id: c.album_id,
            artist_id: c.artist_id,
            media_type: c.media_type,
            starred: starred_at.iso_string(),
        }
    }
}

/// An artist record with the time it was starred, for getStarred2.
pub struct StarredArtistID3Response {
    pub id: String,
    pub name: String,
    pub cover_art: Option<String>,
    pub artist_image_url: Option<String>,
    pub album_count: Option<i32>,
    pub starred: String,
    pub musicbrainz_id: Option<String>,
    pub sort_name: Option<String>,
}

impl StarredArtistID3Response {
    /// The starred record of an artist, starred at `starred_at`.
    pub fn from_artist_and_starred(
        artist: &Artist,
        album_count: Option<i32>,
        starred_at: &Timestamp,
    ) -> (r: Self)
        ensures
            r.id@ == signed_decimal(artist.id as int),
            r.name@ == artist.name@,
            opt_view(r.cover_art) == opt_view(artist.cover_art),
            opt_view(r.artist_image_url) == opt_view(artist.artist_image_url),
            r.album_count == album_count,
            r.starred@ == starred_at.iso(),
            opt_view(r.musicbrainz_id) == opt_view(artist.musicbrainz_id),
            opt_view(r.sort_name) == opt_view(artist.sort_name),
    {
        StarredArtistID3Response {
            id: i32_to_string(artist.id),
            name: artist.name.clone(),
            cover_art: clone_opt(&artist.cover_art),
            artist_image_url: clone_opt(&artist.artist_image_url),
            album_count,
            starred: starred_at.iso_string(),
            musicbrainz_id: clone_opt(&artist.musicbrainz_id),
            sort_name: clone_opt(&artist.sort_name),
        }
    }
}

/// An album record with the time it was starred, for getStarred2.
pub struct StarredAlbumID3Response {
    pub id: String,
    pub name: String,
    pub artist: Option<String>,
    pub artist_id: Option<String>,
    pub cover_art: Option<String>,
    pub song_count: i32,
    pub duration: i32,
    pub play_count: Option<i32>,
    pub created: String,
    pub starred: String,
    pub year: Option<i32>,
    pub genre: Option<String>,
}

impl StarredAlbumID3Response {
    /// The starred record of an album, starred at `starred_at`.
    pub fn from_album_and_starred(album: &Album, starred_at: &Timestamp) -> (r: Self)
        ensures
            r.id@ == signed_decimal(album.id as int),
            r.name@ == album.name@,
            opt_view(r.artist) == opt_view(album.artist_name),
            opt_view(r.artist_id) == opt_id_text(album.artist_id),
            opt_view(r.cover_art) == opt_view(album.cover_art),
            r.song_count == album.song_count,
            r.duration == album.duration,
            r.play_count == Some(album.play_count),
            r.created@ == album.created_at.iso(),
            r.starred@ == starred_at.iso(),
            r.year == album.year,
            opt_view(r.genre) == opt_view(album.genre),
    {
        StarredAlbumID3Response {
            id: i32_to_string(album.id),
            name: album.name.clone(),
            artist: clone_opt(&album.artist_name),
            artist_id: opt_id_string(album.artist_id),
            cover_art: clone_opt(&album.cover_art),
            song_count: album.song_count,
            duration: album.duration,
            play_count: Some(album.play_count),
            created: album.created_at.iso_string(),
            starred: starred_at.iso_string(),
            year: album.year,
            genre: clone_opt(&album.genre),
        }
    }
}

/// Starred2 response for getStarred2.
pub struct Starred2Response {
    pub artists: Vec<StarredArtistID3Response>,
    pub albums: Vec<StarredAlbumID3Response>,
    pub songs: Vec<StarredChildResponse>,
}

/// Now playing entry response for getNowPlaying.
pub struct NowPlayingEntryResponse {
    pub id: String,
    pub parent: Option<String>,
    pub is_dir: bool,
    pub title: String,
    pub album: Option<String>,
    pub artist: Option<String>,
    pub track: Option<i32>,
    pub year: Option<i32>,
    pub genre: Option<String>,
    pub cover_art: Option<String>,
    pub size: Option<i64>,
    pub content_type: Option<String>,
    pub suffix: Option<String>,
    pub duration: Option<i32>,
    pub bit_rate: Option<i32>,
    pub path: Option<String>,
    pub album_id: Option<String>,
    pub artist_id: Option<String>,
    pub media_type: Option<String>,
    pub username: String,
    pub minutes_ago: i32,
    pub player_id: Option<String>,
}

impl NowPlayingEntryResponse {
    /// The now-playing record of a song played by `username`.
    pub fn from_now_playing(
        song: &Song,
        username: String,
        minutes_ago: i32,
        player_id: Option<String>,
    ) -> (r: Self)
        ensures
            r.id@ == signed_decimal(song.id as int),
            opt_view(r.parent) == opt_id_text(song.album_id),
            !r.is_dir,
            r.title@ == song.title@,
            opt_view(r.album) == opt_view(song.album_name),
            opt_view(r.artist) == opt_view(song.artist_name),
            r.track == song.track_number,
            r.year == song.year,
            opt_view(r.genre) == opt_view(song.genre),
            opt_view(r.cover_art) == opt_view(song.cover_art),
            r.size == Some(song.file_size),
            opt_view(r.content_type) == Some(song.content_type@),
            opt_view(r.suffix) == Some(song.suffix@),
            r.duration == Some(song.duration),
            r.bit_rate == song.bit_rate,
            opt_view(r.path) == Some(song.path@),
            opt_view(r.album_id) == opt_id_text(song.album_id),
            opt_view(r.artist_id) == opt_id_text(song.artist_id),
            opt_view(r.media_type) == Some("music"@),
            r.username@ == username@,
            r.minutes_ago == minutes_ago,
            opt_view(r.player_id) == opt_view(player_id),
    {
        NowPlayingEntryResponse {
            id: i32_to_string(song.id),
            parent: opt_id_string(song.album_id),
            is_dir: false,
            title: song.title.clone(),
            album: clone_opt(&song.album_name),
            artist: clone_opt(&song.artist_name),
            track: song.track_number,
            year: song.year,
            genre: clone_opt(&song.genre),
            cover_art: clone_opt(&song.cover_art),
            size: Some(song.file_size),
            content_type: Some(song.content_type.clone()),
            suffix: Some(song.suffix.clone()),
            duration: Some(song.duration),
            bit_rate: song.bit_rate,
            path: Some(song.path.clone()),
            album_id: opt_id_string(song.album_id),
            artist_id: opt_id_string(song.artist_id),
            media_type: Some("music".to_string()),
            username,
            minutes_ago,
            player_id,
        }
    }
}

/// Now playing response for getNowPlaying.
pub struct NowPlayingResponse {
    pub entries: Vec<NowPlayingEntryResponse>,
}

/// Random songs (getRandomSongs).
pub struct RandomSongsResponse {
    pub songs: Vec<ChildResponse>,
}

/// Songs of a genre (getSongsByGenre).
pub struct SongsByGenreResponse {
    pub songs: Vec<ChildResponse>,
}

/// Songs similar to an item (getSimilarSongs2).
pub struct SimilarSongs2Response {
    pub songs: Vec<ChildResponse>,
}

/// Songs similar to an item (getSimilarSongs).
pub struct SimilarSongsResponse {
    pub songs: Vec<ChildResponse>,
}

/// An artist's most played songs (getTopSongs).
pub struct TopSongsResponse {
    pub songs: Vec<ChildResponse>,
}

/// Albums as directory entries (getAlbumList).
pub struct AlbumListResponse {
    pub albums: Vec<ChildResponse>,
}

} // verus!
