# subsonic

The verified core of a Subsonic/OpenSubsonic music server, written in Verus.
Every function in `src/` carries a `requires`/`ensures` contract that Verus
proves; calls into outside crates (argon2, hex, md-5, chrono, urlencoding,
image) stand behind small trusted wrappers whose contracts state what those
crates do.

## Layout

- `src/auth.rs`: request parameters, their merging (query over form), `enc:`
  password decoding, and the decisions of authentication.
- `src/browsing.rs`: browsing parameters, album list kinds, search paging,
  the artist index (grouping by first letter).
- `src/annotation.rs`: repeated query parameters, star/scrobble requests,
  starting a scan.
- `src/media.rs`: HTTP byte ranges, safe cover art and avatar names,
  download file names, cover art resizing and the body served for it, and the
  check that a song's path lies inside a music folder.
- `src/download.rs`: zip entry names and the M3U index of archive downloads,
  what a download or stream identifier names, and the role checks.
- `src/lyrics.rs`: LRC parsing (sorted by time), plain lyrics, lyrics found in
  tags.
- `src/catalog.rs`: the per-track decisions of a library scan: incremental
  skip, artists and albums found again or created, cover art, update or add,
  and what each track counts.
- `src/scanner.rs`: audio file recognition, content types, cover art naming,
  scan progress.
- `src/playlist.rs`: the songs of a playlist as it is created and updated
  (removal by position, renumbering, appending).
- `src/genres.rs`: the genre list, song and album counts merged by name.
- `src/crypto.rs`: Argon2id password hashing and verification.
- `src/models.rs`, `src/response.rs`, `src/response/`: library records and the
  shapes of API responses.
- `src/text.rs`, `src/number.rs`, `src/encoding.rs`, `src/order.rs`: text,
  decimal numbers, hex/percent/UTF-8 encodings and stable sorting, with their
  specifications.
- `tests/`: executable tests of the library.
- `app/`: a command-line program around the library: scanning folders with
  walkdir and lofty, reading embedded lyrics, hashing passwords, and printing
  responses as XML (quick-xml) or JSON (serde_json).

Laws of the library are public proof functions named `lemma_*`, such as
`auth::lemma_enc_password_round_trip`, `lyrics::lemma_lrc_lines_in_time_order`
and `scanner::lemma_no_second_scan`.
