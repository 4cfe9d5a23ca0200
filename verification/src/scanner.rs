//! Bookkeeping of the music library scan: which files are audio, what their
//! content type is, how a track is named, when an incremental scan skips a
//! file, how embedded cover art is named, and the progress of a running scan.
use vstd::prelude::*;
use md5::Digest;
use crate::encoding::{hex_encode, hex_text};
use crate::media::str_eq;

verus! {

/// The file extensions (lowercase) that are scanned as audio.
pub open spec fn audio_extensions() -> Seq<Seq<char>> {
    seq![
        "mp3"@,
        "flac"@,
        "ogg"@,
        "opus"@,
        "m4a"@,
        "aac"@,
        "wav"@,
        "wma"@,
        "aiff"@,
        "ape"@,
        "wv"@,
    ]
}

/// Whether `ext` is, as it is written, one of the audio extensions.
pub fn is_audio_extension(ext: &str) -> (r: bool)
    ensures
        r == audio_extensions().contains(ext@),
{
    let names: [&str; 11] = ["mp3", "flac", "ogg", "opus", "m4a", "aac", "wav", "wma", "aiff", "ape", "wv"];
    let mut i: usize = 0;
    while i < 11
        invariant
            0 <= i <= 11,
            forall|j: int| 0 <= j < 11 ==> (#[trigger] names@[j])@ == audio_extensions()[j],
            forall|j: int| 0 <= j < i ==> audio_extensions()[j] != ext@,
        decreases 11 - i,
    {
        if str_eq(names[i], ext) {
            assert(audio_extensions()[i as int] == ext@);
            return true;
        }
        i = i + 1;
    }
    assert(!audio_extensions().contains(ext@)) by {
        if audio_extensions().contains(ext@) {
            let j = choose|j: int| 0 <= j < 11 && audio_extensions()[j] == ext@;
            assert(audio_extensions()[j] != ext@);
        }
    }
    false
}

/// The lowercase form of text, as `str::to_lowercase` gives it.
pub uninterp spec fn lowercase(s: Seq<char>) -> Seq<char>;

/// `s` in lowercase (`str::to_lowercase`): a function of `s` alone, named
/// `lowercase` here; the Unicode case mapping is left unstated.
#[verifier::external_body]
fn to_lowercase(s: &str) -> (r: String)
    ensures
        r@ == lowercase(s@),
{
    s.to_lowercase()
}

/// The extension under which a file is scanned: its extension in lowercase,
/// when that is an audio extension.
pub fn audio_extension(ext: &str) -> (r: Option<String>)
    ensures
        audio_extensions().contains(lowercase(ext@)) ==> r is Some && r->0@ == lowercase(ext@),
        !audio_extensions().contains(lowercase(ext@)) ==> r is None,
{
    let lower = to_lowercase(ext);
    if is_audio_extension(lower.as_str()) {
        Some(lower)
    } else {
        None
    }
}

/// The content type of an audio file with the given (lowercase) extension.
pub open spec fn spec_content_type(ext: Seq<char>) -> Seq<char> {
    if ext == "mp3"@ {
        "audio/mpeg"@
    } else if ext == "flac"@ {
        "audio/flac"@
    } else if ext == "ogg"@ {
        "audio/ogg"@
    } else if ext == "opus"@ {
        "audio/opus"@
    } else if ext == "m4a"@ || ext == "aac"@ {
        "audio/mp4"@
    } else if ext == "wav"@ {
        "audio/wav"@
    } else if ext == "wma"@ {
        "audio/x-ms-wma"@
    } else if ext == "aiff"@ {
        "audio/aiff"@
    } else if ext == "ape"@ {
        "audio/ape"@
    } else if ext == "wv"@ {
        "audio/wavpack"@
    } else {
        "audio/unknown"@
    }
}

/// The content type of an audio file with the given (lowercase) extension.
pub fn content_type_for_extension(ext: &str) -> (r: &'static str)
    ensures
        r@ == spec_content_type(ext@),
{
    if str_eq(ext, "mp3") {
        "audio/mpeg"
    } else if str_eq(ext, "flac") {
        "audio/flac"
    } else if str_eq(ext, "ogg") {
        "audio/ogg"
    } else if str_eq(ext, "opus") {
        "audio/opus"
    } else if str_eq(ext, "m4a") || str_eq(ext, "aac") {
        "audio/mp4"
    } else if str_eq(ext, "wav") {
        "audio/wav"
    } else if str_eq(ext, "wma") {
        "audio/x-ms-wma"
    } else if str_eq(ext, "aiff") {
        "audio/aiff"
    } else if str_eq(ext, "ape") {
        "audio/ape"
    } else if str_eq(ext, "wv") {
        "audio/wavpack"
    } else {
        "audio/unknown"
    }
}

/// The title of a track: its tag's title, else the file name without its
/// extension, else `Unknown`.
pub fn track_title(tag_title: Option<String>, file_stem: Option<&str>) -> (r: String)
    ensures
        tag_title is Some ==> r@ == tag_title->0@,
        tag_title is None && file_stem is Some ==> r@ == file_stem->0@,
        tag_title is None && file_stem is None ==> r@ == "Unknown"@,
{
    match tag_title {
        Some(t) => t,
        None => match file_stem {
            Some(s) => s.to_string(),
            None => "Unknown".to_string(),
        },
    }
}

/// The artist under whom a track is filed: its album artist, else its
/// artist.
pub fn track_artist_name(album_artist: &Option<String>, artist: &Option<String>) -> (r: Option<
    String,
>)
    ensures
        album_artist is Some ==> r is Some && r->0@ == album_artist->0@,
        album_artist is None && artist is Some ==> r is Some && r->0@ == artist->0@,
        album_artist is None && artist is None ==> r is None,
{
    match album_artist {
        Some(a) => Some(a.clone()),
        None => match artist {
            Some(a) => Some(a.clone()),
            None => None,
        },
    }
}

/// How files are scanned.
#[derive(PartialEq, Eq, Structural, Clone, Copy, Debug)]
pub enum ScanMode {
    /// Re-scan all files regardless of modification time.
    Full,
    /// Only scan new or modified files.
    Incremental,
}

impl Default for ScanMode {
    fn default() -> (r: Self)
        ensures
            r == ScanMode::Incremental,
    {
        ScanMode::Incremental
    }
}

/// Whether a scan skips a file: only an incremental scan does, for a file
/// already known whose stored and current modification times are both
/// known and equal.
pub fn should_skip_track(mode: ScanMode, stored: Option<Option<i64>>, current: Option<i64>) -> (r:
    bool)
    ensures
        r <==> (mode == ScanMode::Incremental && (stored matches Some(Some(s)) && current
            == Some(s))),
{
    match mode {
        ScanMode::Full => false,
        ScanMode::Incremental => match (stored, current) {
            (Some(Some(s)), Some(c)) => s == c,
            _ => false,
        },
    }
}

/// The picture formats that embedded cover art is recognised in.
#[derive(PartialEq, Eq, Structural, Clone, Copy, Debug)]
pub enum PictureFormat {
    Png,
    Jpeg,
    Gif,
    Bmp,
    Tiff,
    /// Any other or unknown format.
    Other,
}

/// The MIME type under which embedded cover art is stored; JPEG for any
/// other or unknown format.
pub fn picture_mime_type(format: Option<PictureFormat>) -> (r: &'static str)
    ensures
        format == Some(PictureFormat::Png) ==> r@ == "image/png"@,
        format == Some(PictureFormat::Gif) ==> r@ == "image/gif"@,
        format == Some(PictureFormat::Bmp) ==> r@ == "image/bmp"@,
        format == Some(PictureFormat::Tiff) ==> r@ == "image/tiff"@,
        !(format == Some(PictureFormat::Png) || format == Some(PictureFormat::Gif) || format
            == Some(PictureFormat::Bmp) || format == Some(PictureFormat::Tiff)) ==> r@
            == "image/jpeg"@,
{
    match format {
        Some(PictureFormat::Png) => "image/png",
        Some(PictureFormat::Jpeg) => "image/jpeg",
        Some(PictureFormat::Gif) => "image/gif",
        Some(PictureFormat::Bmp) => "image/bmp",
        Some(PictureFormat::Tiff) => "image/tiff",
        _ => "image/jpeg",
    }
}

/// The file extension under which cover art of a MIME type is cached; `jpg`
/// for any type other than PNG, GIF, BMP and TIFF.
pub open spec fn spec_cover_art_extension(mime: Seq<char>) -> Seq<char> {
    if mime == "image/png"@ {
        "png"@
    } else if mime == "image/gif"@ {
        "gif"@
    } else if mime == "image/bmp"@ {
        "bmp"@
    } else if mime == "image/tiff"@ {
        "tiff"@
    } else {
        "jpg"@
    }
}

/// The file extension under which cover art of a MIME type is cached.
pub fn cover_art_extension(mime: &str) -> (r: &'static str)
    ensures
        r@ == spec_cover_art_extension(mime@),
{
    if str_eq(mime, "image/png") {
        "png"
    } else if str_eq(mime, "image/gif") {
        "gif"
    } else if str_eq(mime, "image/bmp") {
        "bmp"
    } else if str_eq(mime, "image/tiff") {
        "tiff"
    } else {
        "jpg"
    }
}

/// The MD5 digest of some bytes.
pub uninterp spec fn md5(data: Seq<u8>) -> Seq<u8>;

/// The MD5 digest of `data` (`md5::Md5`): a function of `data` alone,
/// named `md5` here, sixteen bytes long as the algorithm fixes.
#[verifier::external_body]
pub(crate) fn md5_digest(data: &[u8]) -> (r: Vec<u8>)
    ensures
        r@ == md5(data@),
        r@.len() == 16,
{
    let mut hasher = md5::Md5::new();
    hasher.update(data);
    hasher.finalize().to_vec()
}

/// The identifier of cover art whose MD5 digest is `digest`: the digest in
/// lowercase hexadecimal.
pub fn cover_art_id_of_digest(digest: &[u8]) -> (r: String)
    ensures
        r@ == hex_text(digest@),
{
    hex_encode(digest)
}

/// The cached file of a piece of cover art.
pub struct CoverArtFile {
    /// The content hash that names the art.
    pub id: String,
    /// The file name in the cover art cache: the hash and the extension.
    pub file_name: String,
}

/// The cache file of embedded cover art: named by the MD5 digest of its
/// bytes, in lowercase hex, with the extension of its MIME type.
pub fn cover_art_file(data: &[u8], mime: &str) -> (r: CoverArtFile)
    ensures
        r.id@ == hex_text(md5(data@)),
        r.id@.len() == 32,
        r.file_name@ == hex_text(md5(data@)) + "."@ + spec_cover_art_extension(mime@),
{
    let digest = md5_digest(data);
    let id = cover_art_id_of_digest(digest.as_slice());
    let ext = cover_art_extension(mime);
    let mut file_name = id.clone();
    file_name.append(".");
    file_name.append(ext);
    CoverArtFile { id, file_name }
}

/// What a scanned track does about its album's cover art.
pub enum CoverArtStep {
    /// Save the track's embedded art as the album's.
    Save,
    /// Keep the album's art, with this identifier.
    Keep(String),
    /// The track gets no cover art.
    NoArt,
}

/// What a track does about cover art: a track of an album that has no art
/// yet saves its embedded art; otherwise the album's art, if any, is kept.
pub fn cover_art_step(in_album: bool, has_embedded_art: bool, album_art: Option<String>) -> (r:
    CoverArtStep)
    ensures
        in_album && has_embedded_art && album_art is None ==> r is Save,
        in_album && album_art is Some ==> (r matches CoverArtStep::Keep(id) && id@
            == album_art->0@),
        !in_album || (!has_embedded_art && album_art is None) ==> r is NoArt,
{
    if !in_album {
        return CoverArtStep::NoArt;
    }
    match album_art {
        Some(id) => CoverArtStep::Keep(id),
        None => if has_embedded_art {
            CoverArtStep::Save
        } else {
            CoverArtStep::NoArt
        },
    }
}

/// An album as a scan finds it again: its name and its artist.
#[derive(Clone, Debug)]
pub struct AlbumKey {
    pub name: String,
    pub artist_id: Option<i32>,
}

/// Whether the album `a` is the one a scan looks for under `name` and
/// `artist_id`: the names are equal and, where an artist is given, so are
/// the artists (without one, any album of that name is it).
pub open spec fn album_is(a: AlbumKey, name: Seq<char>, artist_id: Option<i32>) -> bool {
    a.name@ == name && (artist_id is Some ==> a.artist_id == artist_id)
}

/// The album a scan files a track under, among the known `albums`: the
/// first that `album_is` the one named, or `None` where there is none and
/// the album is created.
pub fn find_album(albums: &Vec<AlbumKey>, name: &str, artist_id: Option<i32>) -> (r: Option<usize>)
    ensures
        r is None <==> forall|i: int| 0 <= i < albums@.len() ==> !album_is(#[trigger] albums@[i], name@, artist_id),
        r matches Some(i) ==> i < albums@.len() && album_is(albums@[i as int], name@, artist_id)
            && forall|j: int| 0 <= j < i ==> !album_is(#[trigger] albums@[j], name@, artist_id),
{
    let mut i: usize = 0;
    while i < albums.len()
        invariant
            i <= albums@.len(),
            forall|j: int| 0 <= j < i ==> !album_is(#[trigger] albums@[j], name@, artist_id),
        decreases albums@.len() - i,
    {
        let a = &albums[i];
        let artist_ok = match artist_id {
            Some(id) => a.artist_id == Some(id),
            None => true,
        };
        if artist_ok && str_eq(a.name.as_str(), name) {
            return Some(i);
        }
        i = i + 1;
    }
    None
}

/// The artist a scan files a track under, among the known artist `names`:
/// the first of that name, or `None` where there is none and the artist is
/// created.
pub fn find_artist(names: &Vec<String>, name: &str) -> (r: Option<usize>)
    ensures
        r is None <==> forall|i: int| 0 <= i < names@.len() ==> (#[trigger] names@[i])@ != name@,
        r matches Some(i) ==> i < names@.len() && names@[i as int]@ == name@ && forall|j: int|
            0 <= j < i ==> (#[trigger] names@[j])@ != name@,
{
    let mut i: usize = 0;
    while i < names.len()
        invariant
            i <= names@.len(),
            forall|j: int| 0 <= j < i ==> (#[trigger] names@[j])@ != name@,
        decreases names@.len() - i,
    {
        if str_eq(names[i].as_str(), name) {
            return Some(i);
        }
        i = i + 1;
    }
    None
}

/// Metadata read from an audio file.
#[derive(Clone, Debug)]
pub struct ScannedTrack {
    /// The file's path.
    pub path: String,
    /// The directory of the file, relative to its music folder.
    pub parent_path: String,
    pub file_size: u64,
    pub content_type: String,
    pub suffix: String,
    pub title: String,
    pub artist: Option<String>,
    pub album: Option<String>,
    pub album_artist: Option<String>,
    pub track_number: Option<u32>,
    pub disc_number: Option<u32>,
    pub year: Option<u32>,
    pub genre: Option<String>,
    pub duration_secs: u32,
    pub bit_rate: Option<u32>,
    pub bit_depth: Option<u8>,
    pub sample_rate: Option<u32>,
    pub channels: Option<u8>,
    /// Embedded cover art.
    pub cover_art_data: Option<Vec<u8>>,
    /// MIME type of the embedded cover art.
    pub cover_art_mime: Option<String>,
    /// File modification time (Unix seconds).
    pub file_modified_at: Option<i64>,
}

/// What a scan found and did.
#[derive(Clone, Copy, Debug)]
pub struct ScanResult {
    pub tracks_found: usize,
    pub tracks_added: usize,
    pub tracks_updated: usize,
    pub tracks_skipped: usize,
    pub tracks_removed: usize,
    pub tracks_failed: usize,
    pub artists_added: usize,
    pub albums_added: usize,
    pub cover_art_saved: usize,
}

/// A scan result with every count zero.
pub open spec fn zero_result(r: ScanResult) -> bool {
    &&& r.tracks_found == 0
    &&& r.tracks_added == 0
    &&& r.tracks_updated == 0
    &&& r.tracks_skipped == 0
    &&& r.tracks_removed == 0
    &&& r.tracks_failed == 0
    &&& r.artists_added == 0
    &&& r.albums_added == 0
    &&& r.cover_art_saved == 0
}

/// Whether adding the counts of `b` to those of `a` stays within `usize`.
pub open spec fn sums_fit(a: ScanResult, b: ScanResult) -> bool {
    &&& a.tracks_found + b.tracks_found <= usize::MAX
    &&& a.tracks_added + b.tracks_added <= usize::MAX
    &&& a.tracks_updated + b.tracks_updated <= usize::MAX
    &&& a.tracks_skipped + b.tracks_skipped <= usize::MAX
    &&& a.tracks_removed + b.tracks_removed <= usize::MAX
    &&& a.tracks_failed + b.tracks_failed <= usize::MAX
    &&& a.artists_added + b.artists_added <= usize::MAX
    &&& a.albums_added + b.albums_added <= usize::MAX
    &&& a.cover_art_saved + b.cover_art_saved <= usize::MAX
}

/// Each count of `r` is the sum of those of `a` and `b`.
pub open spec fn is_sum(r: ScanResult, a: ScanResult, b: ScanResult) -> bool {
    &&& r.tracks_found == a.tracks_found + b.tracks_found
    &&& r.tracks_added == a.tracks_added + b.tracks_added
    &&& r.tracks_updated == a.tracks_updated + b.tracks_updated
    &&& r.tracks_skipped == a.tracks_skipped + b.tracks_skipped
    &&& r.tracks_removed == a.tracks_removed + b.tracks_removed
    &&& r.tracks_failed == a.tracks_failed + b.tracks_failed
    &&& r.artists_added == a.artists_added + b.artists_added
    &&& r.albums_added == a.albums_added + b.albums_added
    &&& r.cover_art_saved == a.cover_art_saved + b.cover_art_saved
}

impl Default for ScanResult {
    fn default() -> (r: Self)
        ensures
            zero_result(r),
    {
        ScanResult {
            tracks_found: 0,
            tracks_added: 0,
            tracks_updated: 0,
            tracks_skipped: 0,
            tracks_removed: 0,
            tracks_failed: 0,
            artists_added: 0,
            albums_added: 0,
            cover_art_saved: 0,
        }
    }
}

impl ScanResult {
    /// Adds the counts of the scan of one more folder.
    pub fn accumulate(&mut self, other: &ScanResult)
        requires
            sums_fit(*old(self), *other),
        ensures
            is_sum(*final(self), *old(self), *other),
    {
        self.tracks_found = self.tracks_found + other.tracks_found;
        self.tracks_added = self.tracks_added + other.tracks_added;
        self.tracks_updated = self.tracks_updated + other.tracks_updated;
        self.tracks_skipped = self.tracks_skipped + other.tracks_skipped;
        self.tracks_removed = self.tracks_removed + other.tracks_removed;
        self.tracks_failed = self.tracks_failed + other.tracks_failed;
        self.artists_added = self.artists_added + other.artists_added;
        self.albums_added = self.albums_added + other.albums_added;
        self.cover_art_saved = self.cover_art_saved + other.cover_art_saved;
    }

    /// Counts what the scan did with one track: a skipped track counts as
    /// skipped and nothing else; a processed one counts the artist and album
    /// it created, the cover art it saved, and then an update (the song was
    /// stored before), an addition, or a failure where the write failed.
    pub fn count_track(&mut self, step: TrackStep)
        requires
            counts_below_max(*old(self)),
        ensures
            step.skipped ==> *final(self) == (ScanResult {
                tracks_skipped: (old(self).tracks_skipped + 1) as usize,
                ..*old(self)
            }),
            !step.skipped ==> *final(self) == (ScanResult {
                artists_added: (old(self).artists_added + if step.new_artist {
                    1int
                } else {
                    0
                }) as usize,
                albums_added: (old(self).albums_added + if step.new_album {
                    1int
                } else {
                    0
                }) as usize,
                cover_art_saved: (old(self).cover_art_saved + if step.art_saved {
                    1int
                } else {
                    0
                }) as usize,
                tracks_updated: (old(self).tracks_updated + if step.written && step.existed {
                    1int
                } else {
                    0
                }) as usize,
                tracks_added: (old(self).tracks_added + if step.written && !step.existed {
                    1int
                } else {
                    0
                }) as usize,
                tracks_failed: (old(self).tracks_failed + if step.written {
                    0int
                } else {
                    1
                }) as usize,
                ..*old(self)
            }),
    {
        if step.skipped {
            self.tracks_skipped = self.tracks_skipped + 1;
            return;
        }
        if step.new_artist {
            self.artists_added = self.artists_added + 1;
        }
        if step.new_album {
            self.albums_added = self.albums_added + 1;
        }
        if step.art_saved {
            self.cover_art_saved = self.cover_art_saved + 1;
        }
        if step.written {
            if step.existed {
                self.tracks_updated = self.tracks_updated + 1;
            } else {
                self.tracks_added = self.tracks_added + 1;
            }
        } else {
            self.tracks_failed = self.tracks_failed + 1;
        }
    }
}

/// Every count that one track can raise is below `usize::MAX`.
pub open spec fn counts_below_max(r: ScanResult) -> bool {
    &&& r.tracks_added < usize::MAX
    &&& r.tracks_updated < usize::MAX
    &&& r.tracks_skipped < usize::MAX
    &&& r.tracks_failed < usize::MAX
    &&& r.artists_added < usize::MAX
    &&& r.albums_added < usize::MAX
    &&& r.cover_art_saved < usize::MAX
}

/// What processing one track did.
#[derive(Clone, Copy, Debug)]
pub struct TrackStep {
    /// An incremental scan skipped the unchanged file.
    pub skipped: bool,
    /// The track's artist was created.
    pub new_artist: bool,
    /// The track's album was created.
    pub new_album: bool,
    /// The track's cover art was saved for its album.
    pub art_saved: bool,
    /// The song was stored before (so it is updated, not added).
    pub existed: bool,
    /// Writing the song succeeded.
    pub written: bool,
}

/// Progress of a library scan: whether one runs, and how many files it has
/// handled.
pub struct ScanState {
    scanning: bool,
    count: u64,
}

impl View for ScanState {
    type V = (bool, u64);

    closed spec fn view(&self) -> (bool, u64) {
        (self.scanning, self.count)
    }
}

/// The state after an attempt to start a scan: a scan runs.
pub open spec fn after_start(s: (bool, u64)) -> (bool, u64) {
    (true, s.1)
}

/// Whether an attempt to start a scan succeeds: only when none runs.
pub open spec fn start_succeeds(s: (bool, u64)) -> bool {
    !s.0
}

/// The state after a scan finished.
pub open spec fn after_finish(s: (bool, u64)) -> (bool, u64) {
    (false, s.1)
}

/// The state after one more file is counted.
pub open spec fn after_increment(s: (bool, u64)) -> (bool, u64) {
    (s.0, (s.1 + 1) as u64)
}

/// The state after `k` more files are counted one by one.
pub open spec fn after_increments(s: (bool, u64), k: nat) -> (bool, u64)
    decreases k,
{
    if k == 0 {
        s
    } else {
        after_increment(after_increments(s, (k - 1) as nat))
    }
}

impl Default for ScanState {
    fn default() -> (r: Self)
        ensures
            r@ == (false, 0u64),
    {
        ScanState { scanning: false, count: 0 }
    }
}

impl ScanState {
    /// No scan runs and nothing is counted.
    pub fn new() -> (r: Self)
        ensures
            r@ == (false, 0u64),
    {
        ScanState { scanning: false, count: 0 }
    }

    /// Whether a scan runs.
    pub fn is_scanning(&self) -> (r: bool)
        ensures
            r == self@.0,
    {
        self.scanning
    }

    /// The number of files handled.
    pub fn get_count(&self) -> (r: u64)
        ensures
            r == self@.1,
    {
        self.count
    }

    /// Starts a scan; fails, changing nothing, when one already runs.
    pub fn try_start(&mut self) -> (r: bool)
        ensures
            r == start_succeeds(old(self)@),
            final(self)@ == after_start(old(self)@),
    {
        if self.scanning {
            false
        } else {
            self.scanning = true;
            true
        }
    }

    /// Marks the scan as finished.
    pub fn finish(&mut self)
        ensures
            final(self)@ == after_finish(old(self)@),
    {
        self.scanning = false;
    }

    /// Sets the count back to zero.
    pub fn reset_count(&mut self)
        ensures
            final(self)@ == (old(self)@.0, 0u64),
    {
        self.count = 0;
    }

    /// Counts one more file and returns the new count.
    pub fn increment_count(&mut self) -> (r: u64)
        requires
            old(self)@.1 < u64::MAX,
        ensures
            r == old(self)@.1 + 1,
            final(self)@ == (old(self)@.0, r),
            final(self)@ == after_increment(old(self)@),
    {
        self.count = self.count + 1;
        self.count
    }

    /// Sets the count.
    pub fn set_count(&mut self, value: u64)
        ensures
            final(self)@ == (old(self)@.0, value),
    {
        self.count = value;
    }
}

/// While a scan runs no second one starts, and the refused attempt changes
/// nothing.
pub proof fn lemma_no_second_scan(s: (bool, u64))
    ensures
        !start_succeeds(after_start(s)),
        after_start(after_start(s)) == after_start(s),
{
}

/// Once a scan has finished, the next one starts.
pub proof fn lemma_start_after_finish(s: (bool, u64))
    ensures
        start_succeeds(after_finish(s)),
{
}

/// The texts of a list of strings.
pub open spec fn texts(v: Seq<String>) -> Seq<Seq<char>> {
    v.map_values(|s: String| s@)
}

/// The known paths that were not found again, in the order they are known.
pub open spec fn spec_deleted_paths(known: Seq<Seq<char>>, discovered: Seq<Seq<char>>) -> Seq<
    Seq<char>,
>
    decreases known.len(),
{
    if known.len() == 0 {
        seq![]
    } else {
        let rest = spec_deleted_paths(known.drop_last(), discovered);
        if discovered.contains(known.last()) {
            rest
        } else {
            rest.push(known.last())
        }
    }
}

/// Whether `paths` holds `p`.
fn holds_path(paths: &Vec<String>, p: &str) -> (r: bool)
    ensures
        r == texts(paths@).contains(p@),
{
    let mut i: usize = 0;
    while i < paths.len()
        invariant
            i <= paths@.len(),
            forall|j: int| 0 <= j < i ==> paths@[j]@ != p@,
        decreases paths@.len() - i,
    {
        if str_eq(paths[i].as_str(), p) {
            assert(texts(paths@)[i as int] == p@);
            return true;
        }
        i = i + 1;
    }
    assert(!texts(paths@).contains(p@)) by {
        if texts(paths@).contains(p@) {
            let j = choose|j: int| 0 <= j < texts(paths@).len() && texts(paths@)[j] == p@;
            assert(paths@[j]@ == p@);
        }
    }
    false
}

/// The songs of a folder that a scan removes: the paths known from the last
/// scan that were not found on disk this time, in the order they are known.
pub fn deleted_paths(known: &Vec<String>, discovered: &Vec<String>) -> (r: Vec<String>)
    ensures
        texts(r@) == spec_deleted_paths(texts(known@), texts(discovered@)),
{
    let mut r: Vec<String> = Vec::new();
    let mut i: usize = 0;
    while i < known.len()
        invariant
            i <= known@.len(),
            texts(r@) == spec_deleted_paths(texts(known@).take(i as int), texts(discovered@)),
        decreases known@.len() - i,
    {
        let ghost before = texts(known@).take(i as int);
        let ghost after = texts(known@).take(i + 1);
        assert(after.drop_last() =~= before);
        assert(after.last() == known@[i as int]@);
        if !holds_path(discovered, known[i].as_str()) {
            r.push(known[i].clone());
            assert(texts(r@) =~= spec_deleted_paths(before, texts(discovered@)).push(known@[i as int]@));
        }
        i = i + 1;
    }
    assert(texts(known@).take(known@.len() as int) =~= texts(known@));
    r
}

/// A path is removed by a scan exactly when it was known and was not found
/// again.
pub proof fn lemma_deleted_paths(known: Seq<Seq<char>>, discovered: Seq<Seq<char>>, p: Seq<char>)
    ensures
        spec_deleted_paths(known, discovered).contains(p) <==> (known.contains(p)
            && !discovered.contains(p)),
    decreases known.len(),
{
    if known.len() > 0 {
        lemma_deleted_paths(known.drop_last(), discovered, p);
        let rest = spec_deleted_paths(known.drop_last(), discovered);
        assert(known =~= known.drop_last().push(known.last()));
        if known.contains(p) && !discovered.contains(p) && !known.drop_last().contains(p) {
            let j = choose|j: int| 0 <= j < known.len() && known[j] == p;
            if j < known.len() - 1 {
                assert(known.drop_last()[j] == p);
            }
            assert(rest.push(known.last())[rest.len() as int] == p);
        }
        if known.drop_last().contains(p) {
            let j = choose|j: int| 0 <= j < known.drop_last().len() && known.drop_last()[j] == p;
            assert(known[j] == p);
        }
        if !discovered.contains(known.last()) {
            if rest.contains(p) {
                let j = choose|j: int| 0 <= j < rest.len() && rest[j] == p;
                assert(rest.push(known.last())[j] == p);
            }
            if rest.push(known.last()).contains(p) && p != known.last() {
                let j = choose|j: int| 0 <= j < rest.len() + 1 && rest.push(known.last())[j] == p;
                assert(rest[j] == p);
            }
            if p == known.last() {
                assert(known[known.len() - 1] == p);
            }
        }
    }
}

/// Counting `k` files one by one from a count `c` (with `c + k` within
/// `u64`): the `j`-th call returns `c + j`, so the answers are exactly
/// `c + 1`, ..., `c + k`, each once; the count ends at `c + k`, and whether
/// a scan is running does not change.
pub proof fn lemma_increments(s: (bool, u64), k: nat)
    requires
        s.1 + k <= u64::MAX,
    ensures
        after_increments(s, k) == (s.0, (s.1 + k) as u64),
        forall|j: nat| 1 <= j <= k ==> #[trigger] after_increments(s, j).1 == s.1 + j,
    decreases k,
{
    if k > 0 {
        lemma_increments(s, (k - 1) as nat);
    }
    assert forall|j: nat| 1 <= j <= k implies #[trigger] after_increments(s, j).1 == s.1 + j by {
        if j < k {
            lemma_increments(s, j);
        }
    }
}

} // verus!
