//! The XML shapes of the Subsonic responses: the root `subsonic-response`
//! element with its attributes and the payload of each kind of response.
use vstd::prelude::*;
use super::{ResponseStatus, API_VERSION, SERVER_NAME, SERVER_VERSION, XMLNS};
use crate::error::{code_number, error_code, error_message, ApiError};

verus! {

/// A successful response without payload.
pub struct EmptyResponse {
    pub xmlns: &'static str,
    pub status: ResponseStatus,
    pub version: &'static str,
    pub server_type: &'static str,
    pub server_version: &'static str,
    pub open_subsonic: bool,
}

impl EmptyResponse {
    /// The successful empty response.
    pub fn ok() -> (r: Self)
        ensures
            r.xmlns@ == XMLNS@,
            r.status == ResponseStatus::Success,
            r.version@ == API_VERSION@,
            r.server_type@ == SERVER_NAME@,
            r.server_version@ == SERVER_VERSION@,
            r.open_subsonic,
    {
        EmptyResponse {
            xmlns: XMLNS,
            status: ResponseStatus::Success,
            version: API_VERSION,
            server_type: SERVER_NAME,
            server_version: SERVER_VERSION,
            open_subsonic: true,
        }
    }
}

/// The code and message of a failed request.
pub struct ErrorDetail {
    pub code: u32,
    pub message: String,
}

/// A failed response.
pub struct ErrorResponse {
    pub xmlns: &'static str,
    pub status: ResponseStatus,
    pub version: &'static str,
    pub server_type: &'static str,
    pub server_version: &'static str,
    pub open_subsonic: bool,
    pub error: ErrorDetail,
}

impl ErrorResponse {
    /// The failed response with the given code and message.
    pub fn new(code: u32, message: String) -> (r: Self)
        ensures
            r.xmlns@ == XMLNS@,
            r.status == ResponseStatus::Failed,
            r.version@ == API_VERSION@,
            r.server_type@ == SERVER_NAME@,
            r.server_version@ == SERVER_VERSION@,
            r.open_subsonic,
            r.error.code == code,
            r.error.message@ == message@,
    {
        ErrorResponse {
            xmlns: XMLNS,
            status: ResponseStatus::Failed,
            version: API_VERSION,
            server_type: SERVER_NAME,
            server_version: SERVER_VERSION,
            open_subsonic: true,
            error: ErrorDetail { code, message },
        }
    }

    /// The failed response that answers an API error: its code and message.
    pub fn from_api_error(e: &ApiError) -> (r: Self)
        ensures
            r.status == ResponseStatus::Failed,
            r.open_subsonic,
            r.error.code == code_number(error_code(*e)),
            r.error.message@ == error_message(*e),
            r.xmlns@ == XMLNS@,
            r.version@ == API_VERSION@,
            r.server_type@ == SERVER_NAME@,
            r.server_version@ == SERVER_VERSION@,
    {
        ErrorResponse::new(e.code(), e.message())
    }
}

/// The license element.
pub struct License {
    pub valid: bool,
}

/// The response of getLicense.
pub struct LicenseResponse {
    pub xmlns: &'static str,
    pub status: ResponseStatus,
    pub version: &'static str,
    pub server_type: &'static str,
    pub server_version: &'static str,
    pub open_subsonic: bool,
    pub license: License,
}

impl LicenseResponse {
    /// The response stating a valid license.
    pub fn ok() -> (r: Self)
        ensures
            r.xmlns@ == XMLNS@,
            r.status == ResponseStatus::Success,
            r.version@ == API_VERSION@,
            r.server_type@ == SERVER_NAME@,
            r.server_version@ == SERVER_VERSION@,
            r.open_subsonic,
            r.license.valid,
    {
        LicenseResponse {
            xmlns: XMLNS,
            status: ResponseStatus::Success,
            version: API_VERSION,
            server_type: SERVER_NAME,
            server_version: SERVER_VERSION,
            open_subsonic: true,
            license: License { valid: true },
        }
    }
}

/// One OpenSubsonic extension as the XML response lists it.
pub struct OpenSubsonicExtensionXml {
    pub name: String,
    pub versions: Vec<i32>,
}

/// The response of getOpenSubsonicExtensions.
pub struct OpenSubsonicExtensionsResponse {
    pub xmlns: &'static str,
    pub status: ResponseStatus,
    pub version: &'static str,
    pub server_type: &'static str,
    pub server_version: &'static str,
    pub open_subsonic: bool,
    pub extensions: Vec<OpenSubsonicExtensionXml>,
}

impl OpenSubsonicExtensionsResponse {
    /// The response listing the given extensions.
    pub fn new(extensions: Vec<OpenSubsonicExtensionXml>) -> (r: Self)
        ensures
            r.xmlns@ == XMLNS@,
            r.status == ResponseStatus::Success,
            r.version@ == API_VERSION@,
            r.server_type@ == SERVER_NAME@,
            r.server_version@ == SERVER_VERSION@,
            r.open_subsonic,
            r.extensions == extensions,
    {
        OpenSubsonicExtensionsResponse {
            xmlns: XMLNS,
            status: ResponseStatus::Success,
            version: API_VERSION,
            server_type: SERVER_NAME,
            server_version: SERVER_VERSION,
            open_subsonic: true,
            extensions,
        }
    }
}

/// The musicFolders element.
pub struct MusicFolders {
    pub folders: Vec<crate::models::MusicFolderResponse>,
}

/// The response of getMusicFolders.
pub struct MusicFoldersResponse {
    pub xmlns: &'static str,
    pub status: ResponseStatus,
    pub version: &'static str,
    pub server_type: &'static str,
    pub server_version: &'static str,
    pub open_subsonic: bool,
    pub music_folders: MusicFolders,
}

impl MusicFoldersResponse {
    /// The response listing the given folders.
    pub fn new(folders: Vec<crate::models::MusicFolderResponse>) -> (r: Self)
        ensures
            r.xmlns@ == XMLNS@,
            r.status == ResponseStatus::Success,
            r.version@ == API_VERSION@,
            r.server_type@ == SERVER_NAME@,
            r.server_version@ == SERVER_VERSION@,
            r.open_subsonic,
            r.music_folders.folders == folders,
    {
        MusicFoldersResponse {
            xmlns: XMLNS,
            status: ResponseStatus::Success,
            version: API_VERSION,
            server_type: SERVER_NAME,
            server_version: SERVER_VERSION,
            open_subsonic: true,
            music_folders: MusicFolders { folders },
        }
    }
}

/// The response of getArtists.
pub struct ArtistsResponse {
    pub xmlns: &'static str,
    pub status: ResponseStatus,
    pub version: &'static str,
    pub server_type: &'static str,
    pub server_version: &'static str,
    pub open_subsonic: bool,
    pub artists: crate::models::ArtistsID3Response,
}

impl ArtistsResponse {
    /// The successful response carrying `artists`.
    pub fn new(artists: crate::models::ArtistsID3Response) -> (r: Self)
        ensures
            r.xmlns@ == XMLNS@,
            r.status == ResponseStatus::Success,
            r.version@ == API_VERSION@,
            r.server_type@ == SERVER_NAME@,
            r.server_version@ == SERVER_VERSION@,
            r.open_subsonic,
            r.artists == artists,
    {
        ArtistsResponse {
            xmlns: XMLNS,
            status: ResponseStatus::Success,
            version: API_VERSION,
            server_type: SERVER_NAME,
            server_version: SERVER_VERSION,
            open_subsonic: true,
            artists,
        }
    }
}

/// The response of getAlbum.
pub struct AlbumResponse {
    pub xmlns: &'static str,
    pub status: ResponseStatus,
    pub version: &'static str,
    pub server_type: &'static str,
    pub server_version: &'static str,
    pub open_subsonic: bool,
    pub album: crate::models::AlbumWithSongsID3Response,
}

impl AlbumResponse {
    /// The successful response carrying `album`.
    pub fn new(album: crate::models::AlbumWithSongsID3Response) -> (r: Self)
        ensures
            r.xmlns@ == XMLNS@,
            r.status == ResponseStatus::Success,
            r.version@ == API_VERSION@,
            r.server_type@ == SERVER_NAME@,
            r.server_version@ == SERVER_VERSION@,
            r.open_subsonic,
            r.album == album,
    {
        AlbumResponse {
            xmlns: XMLNS,
            status: ResponseStatus::Success,
            version: API_VERSION,
            server_type: SERVER_NAME,
            server_version: SERVER_VERSION,
            open_subsonic: true,
            album,
        }
    }
}

/// The response of getSong.
pub struct SongResponse {
    pub xmlns: &'static str,
    pub status: ResponseStatus,
    pub version: &'static str,
    pub server_type: &'static str,
    pub server_version: &'static str,
    pub open_subsonic: bool,
    pub song: crate::models::ChildResponse,
}

impl SongResponse {
    /// The successful response carrying `song`.
    pub fn new(song: crate::models::ChildResponse) -> (r: Self)
        ensures
            r.xmlns@ == XMLNS@,
            r.status == ResponseStatus::Success,
            r.version@ == API_VERSION@,
            r.server_type@ == SERVER_NAME@,
            r.server_version@ == SERVER_VERSION@,
            r.open_subsonic,
            r.song == song,
    {
        SongResponse {
            xmlns: XMLNS,
            status: ResponseStatus::Success,
            version: API_VERSION,
            server_type: SERVER_NAME,
            server_version: SERVER_VERSION,
            open_subsonic: true,
            song,
        }
    }
}

/// The response of getAlbumList2.
pub struct AlbumList2Response {
    pub xmlns: &'static str,
    pub status: ResponseStatus,
    pub version: &'static str,
    pub server_type: &'static str,
    pub server_version: &'static str,
    pub open_subsonic: bool,
    pub album_list2: crate::models::AlbumList2Response,
}

impl AlbumList2Response {
    /// The successful response carrying `album_list2`.
    pub fn new(album_list2: crate::models::AlbumList2Response) -> (r: Self)
        ensures
            r.xmlns@ == XMLNS@,
            r.status == ResponseStatus::Success,
            r.version@ == API_VERSION@,
            r.server_type@ == SERVER_NAME@,
            r.server_version@ == SERVER_VERSION@,
            r.open_subsonic,
            r.album_list2 == album_list2,
    {
        AlbumList2Response {
            xmlns: XMLNS,
            status: ResponseStatus::Success,
            version: API_VERSION,
            server_type: SERVER_NAME,
            server_version: SERVER_VERSION,
            open_subsonic: true,
            album_list2,
        }
    }
}

/// The response of getGenres.
pub struct GenresResponse {
    pub xmlns: &'static str,
    pub status: ResponseStatus,
    pub version: &'static str,
    pub server_type: &'static str,
    pub server_version: &'static str,
    pub open_subsonic: bool,
    pub genres: crate::models::GenresResponse,
}

impl GenresResponse {
    /// The successful response carrying `genres`.
    pub fn new(genres: crate::models::GenresResponse) -> (r: Self)
        ensures
            r.xmlns@ == XMLNS@,
            r.status == ResponseStatus::Success,
            r.version@ == API_VERSION@,
            r.server_type@ == SERVER_NAME@,
            r.server_version@ == SERVER_VERSION@,
            r.open_subsonic,
            r.genres == genres,
    {
        GenresResponse {
            xmlns: XMLNS,
            status: ResponseStatus::Success,
            version: API_VERSION,
            server_type: SERVER_NAME,
            server_version: SERVER_VERSION,
            open_subsonic: true,
            genres,
        }
    }
}

/// The response of search3.
pub struct SearchResult3Response {
    pub xmlns: &'static str,
    pub status: ResponseStatus,
    pub version: &'static str,
    pub server_type: &'static str,
    pub server_version: &'static str,
    pub open_subsonic: bool,
    pub search_result3: crate::models::SearchResult3Response,
}

impl SearchResult3Response {
    /// The successful response carrying `search_result3`.
    pub fn new(search_result3: crate::models::SearchResult3Response) -> (r: Self)
        ensures
            r.xmlns@ == XMLNS@,
            r.status == ResponseStatus::Success,
            r.version@ == API_VERSION@,
            r.server_type@ == SERVER_NAME@,
            r.server_version@ == SERVER_VERSION@,
            r.open_subsonic,
            r.search_result3 == search_result3,
    {
        SearchResult3Response {
            xmlns: XMLNS,
            status: ResponseStatus::Success,
            version: API_VERSION,
            server_type: SERVER_NAME,
            server_version: SERVER_VERSION,
            open_subsonic: true,
            search_result3,
        }
    }
}

/// The response of getStarred2.
pub struct Starred2Response {
    pub xmlns: &'static str,
    pub status: ResponseStatus,
    pub version: &'static str,
    pub server_type: &'static str,
    pub server_version: &'static str,
    pub open_subsonic: bool,
    pub starred2: crate::models::Starred2Response,
}

impl Starred2Response {
    /// The successful response carrying `starred2`.
    pub fn new(starred2: crate::models::Starred2Response) -> (r: Self)
        ensures
            r.xmlns@ == XMLNS@,
            r.status == ResponseStatus::Success,
            r.version@ == API_VERSION@,
            r.server_type@ == SERVER_NAME@,
            r.server_version@ == SERVER_VERSION@,
            r.open_subsonic,
            r.starred2 == starred2,
    {
        Starred2Response {
            xmlns: XMLNS,
            status: ResponseStatus::Success,
            version: API_VERSION,
            server_type: SERVER_NAME,
            server_version: SERVER_VERSION,
            open_subsonic: true,
            starred2,
        }
    }
}

/// The response of getNowPlaying.
pub struct NowPlayingResponse {
    pub xmlns: &'static str,
    pub status: ResponseStatus,
    pub version: &'static str,
    pub server_type: &'static str,
    pub server_version: &'static str,
    pub open_subsonic: bool,
    pub now_playing: crate::models::NowPlayingResponse,
}

impl NowPlayingResponse {
    /// The successful response carrying `now_playing`.
    pub fn new(now_playing: crate::models::NowPlayingResponse) -> (r: Self)
        ensures
            r.xmlns@ == XMLNS@,
            r.status == ResponseStatus::Success,
            r.version@ == API_VERSION@,
            r.server_type@ == SERVER_NAME@,
            r.server_version@ == SERVER_VERSION@,
            r.open_subsonic,
            r.now_playing == now_playing,
    {
        NowPlayingResponse {
            xmlns: XMLNS,
            status: ResponseStatus::Success,
            version: API_VERSION,
            server_type: SERVER_NAME,
            server_version: SERVER_VERSION,
            open_subsonic: true,
            now_playing,
        }
    }
}

/// The scanStatus element.
pub struct ScanStatus {
    pub scanning: bool,
    pub count: u64,
}

/// The response of startScan and getScanStatus.
pub struct ScanStatusResponse {
    pub xmlns: &'static str,
    pub status: ResponseStatus,
    pub version: &'static str,
    pub server_type: &'static str,
    pub server_version: &'static str,
    pub open_subsonic: bool,
    pub scan_status: ScanStatus,
}

impl ScanStatusResponse {
    /// The response reporting whether a scan runs and how many items it has
    /// counted.
    pub fn new(scanning: bool, count: u64) -> (r: Self)
        ensures
            r.xmlns@ == XMLNS@,
            r.status == ResponseStatus::Success,
            r.version@ == API_VERSION@,
            r.server_type@ == SERVER_NAME@,
            r.server_version@ == SERVER_VERSION@,
            r.open_subsonic,
            r.scan_status.scanning == scanning,
            r.scan_status.count == count,
    {
        ScanStatusResponse {
            xmlns: XMLNS,
            status: ResponseStatus::Success,
            version: API_VERSION,
            server_type: SERVER_NAME,
            server_version: SERVER_VERSION,
            open_subsonic: true,
            scan_status: ScanStatus { scanning, count },
        }
    }
}

/// The (empty) bookmarks element.
pub struct Bookmarks {}

/// The response of getBookmarks.
pub struct BookmarksResponse {
    pub xmlns: &'static str,
    pub status: ResponseStatus,
    pub version: &'static str,
    pub server_type: &'static str,
    pub server_version: &'static str,
    pub open_subsonic: bool,
    pub bookmarks: Bookmarks,
}

impl BookmarksResponse {
    /// The response with no bookmarks.
    pub fn new() -> (r: Self)
        ensures
            r.xmlns@ == XMLNS@,
            r.status == ResponseStatus::Success,
            r.version@ == API_VERSION@,
            r.server_type@ == SERVER_NAME@,
            r.server_version@ == SERVER_VERSION@,
            r.open_subsonic,
    {
        BookmarksResponse {
            xmlns: XMLNS,
            status: ResponseStatus::Success,
            version: API_VERSION,
            server_type: SERVER_NAME,
            server_version: SERVER_VERSION,
            open_subsonic: true,
            bookmarks: Bookmarks {},
        }
    }
}

/// The response of getArtist.
pub struct ArtistResponse {
    pub xmlns: &'static str,
    pub status: ResponseStatus,
    pub version: &'static str,
    pub server_type: &'static str,
    pub server_version: &'static str,
    pub open_subsonic: bool,
    pub artist: crate::models::ArtistWithAlbumsID3Response,
}

impl ArtistResponse {
    /// The successful response carrying `artist`.
    pub fn new(artist: crate::models::ArtistWithAlbumsID3Response) -> (r: Self)
        ensures
            r.xmlns@ == XMLNS@,
            r.status == ResponseStatus::Success,
            r.version@ == API_VERSION@,
            r.server_type@ == SERVER_NAME@,
            r.server_version@ == SERVER_VERSION@,
            r.open_subsonic,
            r.artist == artist,
    {
        ArtistResponse {
            xmlns: XMLNS,
            status: ResponseStatus::Success,
            version: API_VERSION,
            server_type: SERVER_NAME,
            server_version: SERVER_VERSION,
            open_subsonic: true,
            artist,
        }
    }
}

/// The response of getRandomSongs.
pub struct RandomSongsResponse {
    pub xmlns: &'static str,
    pub status: ResponseStatus,
    pub version: &'static str,
    pub server_type: &'static str,
    pub server_version: &'static str,
    pub open_subsonic: bool,
    pub random_songs: crate::models::RandomSongsResponse,
}

impl RandomSongsResponse {
    /// The successful response carrying `random_songs`.
    pub fn new(random_songs: crate::models::RandomSongsResponse) -> (r: Self)
        ensures
            r.xmlns@ == XMLNS@,
            r.status == ResponseStatus::Success,
            r.version@ == API_VERSION@,
            r.server_type@ == SERVER_NAME@,
            r.server_version@ == SERVER_VERSION@,
            r.open_subsonic,
            r.random_songs == random_songs,
    {
        RandomSongsResponse {
            xmlns: XMLNS,
            status: ResponseStatus::Success,
            version: API_VERSION,
            server_type: SERVER_NAME,
            server_version: SERVER_VERSION,
            open_subsonic: true,
            random_songs,
        }
    }
}

/// The response of getSongsByGenre.
pub struct SongsByGenreResponse {
    pub xmlns: &'static str,
    pub status: ResponseStatus,
    pub version: &'static str,
    pub server_type: &'static str,
    pub server_version: &'static str,
    pub open_subsonic: bool,
    pub songs_by_genre: crate::models::SongsByGenreResponse,
}

impl SongsByGenreResponse {
    /// The successful response carrying `songs_by_genre`.
    pub fn new(songs_by_genre: crate::models::SongsByGenreResponse) -> (r: Self)
        ensures
            r.xmlns@ == XMLNS@,
            r.status == ResponseStatus::Success,
            r.version@ == API_VERSION@,
            r.server_type@ == SERVER_NAME@,
            r.server_version@ == SERVER_VERSION@,
            r.open_subsonic,
            r.songs_by_genre == songs_by_genre,
    {
        SongsByGenreResponse {
            xmlns: XMLNS,
            status: ResponseStatus::Success,
            version: API_VERSION,
            server_type: SERVER_NAME,
            server_version: SERVER_VERSION,
            open_subsonic: true,
            songs_by_genre,
        }
    }
}

/// The response of getSimilarSongs2.
pub struct SimilarSongs2Response {
    pub xmlns: &'static str,
    pub status: ResponseStatus,
    pub version: &'static str,
    pub server_type: &'static str,
    pub server_version: &'static str,
    pub open_subsonic: bool,
    pub similar_songs2: crate::models::SimilarSongs2Response,
}

impl SimilarSongs2Response {
    /// The successful response carrying `similar_songs2`.
    pub fn new(similar_songs2: crate::models::SimilarSongs2Response) -> (r: Self)
        ensures
            r.xmlns@ == XMLNS@,
            r.status == ResponseStatus::Success,
            r.version@ == API_VERSION@,
            r.server_type@ == SERVER_NAME@,
            r.server_version@ == SERVER_VERSION@,
            r.open_subsonic,
            r.similar_songs2 == similar_songs2,
    {
        SimilarSongs2Response {
            xmlns: XMLNS,
            status: ResponseStatus::Success,
            version: API_VERSION,
            server_type: SERVER_NAME,
            server_version: SERVER_VERSION,
            open_subsonic: true,
            similar_songs2,
        }
    }
}

/// The response of getTopSongs.
pub struct TopSongsResponse {
    pub xmlns: &'static str,
    pub status: ResponseStatus,
    pub version: &'static str,
    pub server_type: &'static str,
    pub server_version: &'static str,
    pub open_subsonic: bool,
    pub top_songs: crate::models::TopSongsResponse,
}

impl TopSongsResponse {
    /// The successful response carrying `top_songs`.
    pub fn new(top_songs: crate::models::TopSongsResponse) -> (r: Self)
        ensures
            r.xmlns@ == XMLNS@,
            r.status == ResponseStatus::Success,
            r.version@ == API_VERSION@,
            r.server_type@ == SERVER_NAME@,
            r.server_version@ == SERVER_VERSION@,
            r.open_subsonic,
            r.top_songs == top_songs,
    {
        TopSongsResponse {
            xmlns: XMLNS,
            status: ResponseStatus::Success,
            version: API_VERSION,
            server_type: SERVER_NAME,
            server_version: SERVER_VERSION,
            open_subsonic: true,
            top_songs,
        }
    }
}

/// The response of getAlbumList.
pub struct AlbumListResponse {
    pub xmlns: &'static str,
    pub status: ResponseStatus,
    pub version: &'static str,
    pub server_type: &'static str,
    pub server_version: &'static str,
    pub open_subsonic: bool,
    pub album_list: crate::models::AlbumListResponse,
}

impl AlbumListResponse {
    /// The successful response carrying `album_list`.
    pub fn new(album_list: crate::models::AlbumListResponse) -> (r: Self)
        ensures
            r.xmlns@ == XMLNS@,
            r.status == ResponseStatus::Success,
            r.version@ == API_VERSION@,
            r.server_type@ == SERVER_NAME@,
            r.server_version@ == SERVER_VERSION@,
            r.open_subsonic,
            r.album_list == album_list,
    {
        AlbumListResponse {
            xmlns: XMLNS,
            status: ResponseStatus::Success,
            version: API_VERSION,
            server_type: SERVER_NAME,
            server_version: SERVER_VERSION,
            open_subsonic: true,
            album_list,
        }
    }
}

/// The response of getSimilarSongs.
pub struct SimilarSongsResponse {
    pub xmlns: &'static str,
    pub status: ResponseStatus,
    pub version: &'static str,
    pub server_type: &'static str,
    pub server_version: &'static str,
    pub open_subsonic: bool,
    pub similar_songs: crate::models::SimilarSongsResponse,
}

impl SimilarSongsResponse {
    /// The successful response carrying `similar_songs`.
    pub fn new(similar_songs: crate::models::SimilarSongsResponse) -> (r: Self)
        ensures
            r.xmlns@ == XMLNS@,
            r.status == ResponseStatus::Success,
            r.version@ == API_VERSION@,
            r.server_type@ == SERVER_NAME@,
            r.server_version@ == SERVER_VERSION@,
            r.open_subsonic,
            r.similar_songs == similar_songs,
    {
        SimilarSongsResponse {
            xmlns: XMLNS,
            status: ResponseStatus::Success,
            version: API_VERSION,
            server_type: SERVER_NAME,
            server_version: SERVER_VERSION,
            open_subsonic: true,
            similar_songs,
        }
    }
}

} // verus!
