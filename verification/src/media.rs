//! Rules of the media endpoints: HTTP byte ranges, cover-art and avatar
//! identifiers, download file names and zip entry names.
use vstd::prelude::*;
use image::GenericImageView;
use crate::error::ApiError;
use crate::number::{decimal, lemma_decimal_parses, parse_u64, parsed_u64, u64_to_string};
use crate::text::{find_char, is_ascii_alphanumeric, is_first_index, string_of, sub_chars, to_chars};

verus! {

/// Whether two strings are equal.
pub fn str_eq(a: &str, b: &str) -> (r: bool)
    ensures
        r == (a@ == b@),
{
    let x: String = a.to_owned();
    let y: String = b.to_owned();
    x == y
}

/// `s` without the prefix `p`, if it starts with `p`.
#[verifier::external_body]
pub fn strip_prefix<'a>(s: &'a str, p: &str) -> (r: Option<&'a str>)
    ensures
        match r {
            Some(rest) => s@ == p@ + rest@,
            None => !p@.is_prefix_of(s@),
        },
{
    s.strip_prefix(p)
}

// ---------------------------------------------------------------------------
// Byte ranges
// ---------------------------------------------------------------------------
/// An inclusive range of bytes of a file.
pub struct ByteRange {
    pub start: u64,
    pub end: u64,
}

impl ByteRange {
    /// The number of bytes in the range.
    pub fn len(&self) -> (r: u64)
        requires
            self.start <= self.end,
            self.end - self.start < u64::MAX,
        ensures
            r == self.end - self.start + 1,
    {
        self.end - self.start + 1
    }
}

/// The range that the `Range` header value `range` asks of a file of
/// `file_size` bytes: `bytes=start-end` or `bytes=start-`, where the end is
/// capped at the last byte; `None` where the value is malformed, the start
/// lies beyond the file or the end before the start.
pub open spec fn spec_byte_range(range: Seq<char>, file_size: int) -> Option<(int, int)> {
    let unit = "bytes="@;
    if unit.is_prefix_of(range) {
        let rs = range.skip(unit.len() as int);
        if rs.contains('-') {
            let d = choose|i: int| is_first_index(rs, '-', i);
            match parsed_u64(rs.take(d)) {
                Some(start) => if start >= file_size {
                    None
                } else {
                    let end_text = rs.skip(d + 1);
                    let end = if end_text.len() == 0 {
                        Some(file_size - 1)
                    } else {
                        match parsed_u64(end_text) {
                            Some(e) => Some(
                                if e < file_size - 1 {
                                    e
                                } else {
                                    file_size - 1
                                },
                            ),
                            None => None,
                        }
                    };
                    match end {
                        Some(e) => if e < start {
                            None
                        } else {
                            Some((start, e))
                        },
                        None => None,
                    }
                },
                None => None,
            }
        } else {
            None
        }
    } else {
        None
    }
}

/// A closed range `bytes=s-e` within a file of `n` bytes gives exactly the
/// bytes `s` to `e`; an open range `bytes=s-` gives `s` to the last byte;
/// and a range that starts at or beyond the end of the file gives nothing.
pub proof fn lemma_byte_range_as_asked(s: nat, e: nat, n: nat)
    requires
        n <= u64::MAX,
        e <= u64::MAX,
        s <= u64::MAX,
    ensures
        s <= e < n ==> spec_byte_range("bytes="@ + decimal(s) + "-"@ + decimal(e), n as int) == Some(
            (s as int, e as int),
        ),
        s < n ==> spec_byte_range("bytes="@ + decimal(s) + "-"@, n as int) == Some(
            (s as int, n - 1),
        ),
        s >= n ==> spec_byte_range("bytes="@ + decimal(s) + "-"@ + decimal(e), n as int) is None,
{
    reveal_strlit("bytes=");
    reveal_strlit("-");
    lemma_decimal_parses(s);
    lemma_decimal_parses(e);
    let ds = decimal(s);
    let de = decimal(e);
    let unit = "bytes="@;
    let closed = unit + ds + "-"@ + de;
    let open = unit + ds + "-"@;
    assert(unit.len() == 6);
    assert(closed.take(6) =~= unit);
    assert(open.take(6) =~= unit);
    assert(unit.is_prefix_of(closed));
    assert(unit.is_prefix_of(open));
    let rc = closed.skip(6);
    let ro = open.skip(6);
    assert(rc =~= ds + seq!['-'] + de);
    assert(ro =~= ds + seq!['-']);
    let k = ds.len() as int;
    assert forall|j: int| 0 <= j < k implies rc[j] != '-' && ro[j] != '-' by {
        assert(rc[j] == ds[j] && ro[j] == ds[j]);
        if ds[j] == '-' {
            assert(ds.contains('-'));
        }
    }
    assert(is_first_index(rc, '-', k));
    assert(is_first_index(ro, '-', k));
    assert(rc.contains('-'));
    assert(ro.contains('-'));
    let dc = choose|i: int| is_first_index(rc, '-', i);
    assert(dc == k) by {
        if dc < k {
            assert(rc[dc] != '-');
        }
        if k < dc {
            assert(rc[k] == '-');
        }
    }
    let dop = choose|i: int| is_first_index(ro, '-', i);
    assert(dop == k) by {
        if dop < k {
            assert(ro[dop] != '-');
        }
        if k < dop {
            assert(ro[k] == '-');
        }
    }
    assert(rc.take(k) =~= ds);
    assert(ro.take(k) =~= ds);
    assert(rc.skip(k + 1) =~= de);
    assert(ro.skip(k + 1).len() == 0);
}

/// Parses an HTTP `Range` header value against a file of `file_size` bytes.
pub fn parse_byte_range(range: &str, file_size: u64) -> (r: Option<ByteRange>)
    ensures
        match r {
            Some(br) => spec_byte_range(range@, file_size as int) == Some(
                (br.start as int, br.end as int),
            ),
            None => spec_byte_range(range@, file_size as int) is None,
        },
        r matches Some(br) ==> br.start <= br.end < file_size,
{
    let spec_text = match strip_prefix(range, "bytes=") {
        Some(rest) => rest,
        None => return None,
    };
    let ghost rs = range@.skip("bytes="@.len() as int);
    assert(spec_text@ =~= rs);
    let v = to_chars(spec_text);
    let d = match find_char(&v, 0, '-') {
        Some(d) => d,
        None => {
            assert(v@.skip(0) =~= v@);
            return None;
        },
    };
    assert(v@.skip(0) =~= v@);
    assert(rs.contains('-'));
    let ghost dd = choose|i: int| is_first_index(rs, '-', i);
    assert(dd == d as int) by {
        assert(is_first_index(rs, '-', dd));
        if dd < d as int {
            assert(rs[dd] == '-');
        }
        if (d as int) < dd {
            assert(rs[d as int] == '-');
        }
    }
    let start_text = sub_chars(&v, 0, d);
    assert(start_text@ =~= rs.take(d as int));
    let start = match parse_u64(&start_text) {
        Some(s) => s,
        None => return None,
    };
    if start >= file_size {
        return None;
    }
    assert(d < v.len());
    let end_text = sub_chars(&v, d + 1, v.len());
    assert(end_text@ =~= rs.skip(d + 1));
    let end = if end_text.len() == 0 {
        file_size - 1
    } else {
        match parse_u64(&end_text) {
            Some(e) => if e < file_size - 1 {
                e
            } else {
                file_size - 1
            },
            None => return None,
        }
    };
    if end < start {
        return None;
    }
    Some(ByteRange { start, end })
}

/// How a stream request answers a `Range` header.
pub enum RangeReply {
    /// No range was asked: the whole file.
    Whole,
    /// The asked range: 206 Partial Content.
    Partial(ByteRange),
    /// The range starts at or beyond the end of the file: 416.
    Unsatisfiable,
    /// The range is malformed.
    Invalid,
}

/// The start of the range that a `bytes=` header value names, where it
/// parses, whatever follows.
pub open spec fn range_start(range: Seq<char>) -> Option<int> {
    let unit = "bytes="@;
    let rs = range.skip(unit.len() as int);
    if unit.is_prefix_of(range) && rs.contains('-') {
        parsed_u64(rs.take(choose|i: int| is_first_index(rs, '-', i)))
    } else {
        None
    }
}

/// The reply that a stream request with optional `Range` header value
/// `range` gets for a file of `file_size` bytes. Values that do not start
/// with `bytes=` are ignored.
pub open spec fn spec_range_reply(range: Option<Seq<char>>, file_size: int) -> int {
    match range {
        None => 0,
        Some(r) => if !"bytes="@.is_prefix_of(r) {
            0
        } else if spec_byte_range(r, file_size) is Some {
            1
        } else if range_start(r) matches Some(s) && s >= file_size {
            2
        } else {
            3
        },
    }
}

/// The kind of a reply, numbered as `spec_range_reply` numbers it.
pub open spec fn reply_kind(r: RangeReply) -> int {
    match r {
        RangeReply::Whole => 0,
        RangeReply::Partial(_) => 1,
        RangeReply::Unsatisfiable => 2,
        RangeReply::Invalid => 3,
    }
}

/// Decides how to answer a stream request for a file of `file_size` bytes,
/// given the request's `Range` header value if it has one.
pub fn range_reply(range: Option<&str>, file_size: u64) -> (r: RangeReply)
    ensures
        reply_kind(r) == spec_range_reply(
            match range {
                Some(s) => Some(s@),
                None => None,
            },
            file_size as int,
        ),
        r matches RangeReply::Partial(br) ==> spec_byte_range(range->0@, file_size as int) == Some(
            (br.start as int, br.end as int),
        ) && br.start <= br.end < file_size,
{
    let range = match range {
        Some(s) => s,
        None => return RangeReply::Whole,
    };
    let spec_text = match strip_prefix(range, "bytes=") {
        Some(rest) => rest,
        None => return RangeReply::Whole,
    };
    if let Some(br) = parse_byte_range(range, file_size) {
        return RangeReply::Partial(br);
    }
    let ghost rs = range@.skip("bytes="@.len() as int);
    assert(spec_text@ =~= rs);
    let v = to_chars(spec_text);
    assert(v@.skip(0) =~= v@);
    if let Some(d) = find_char(&v, 0, '-') {
        assert(rs.contains('-'));
        let ghost dd = choose|i: int| is_first_index(rs, '-', i);
        assert(dd == d as int) by {
            assert(is_first_index(rs, '-', dd));
            if dd < d as int {
                assert(rs[dd] == '-');
            }
            if (d as int) < dd {
                assert(rs[d as int] == '-');
            }
        }
        let start_text = sub_chars(&v, 0, d);
        assert(start_text@ =~= rs.take(d as int));
        if let Some(start) = parse_u64(&start_text) {
            if start >= file_size {
                return RangeReply::Unsatisfiable;
            }
        }
    }
    RangeReply::Invalid
}

// ---------------------------------------------------------------------------
// Identifiers and file names
// ---------------------------------------------------------------------------
/// A character allowed in a cover-art identifier.
pub open spec fn cover_art_char(c: char) -> bool {
    is_ascii_alphanumeric(c) || c == '-' || c == '_'
}

/// A non-empty name of ASCII letters, digits, `-` and `_`.
pub open spec fn is_plain_name(s: Seq<char>) -> bool {
    s.len() > 0 && forall|i: int| 0 <= i < s.len() ==> cover_art_char(#[trigger] s[i])
}

/// The part of `path` after its last `/` (all of it where it has none).
pub open spec fn after_last_slash(path: Seq<char>) -> Seq<char>
    decreases path.len(),
{
    if path.len() == 0 {
        seq![]
    } else if path.last() == '/' {
        seq![]
    } else {
        after_last_slash(path.drop_last()).push(path.last())
    }
}

/// The final component of a path `prefix/n` whose reading is the same on
/// every platform: `n` non-empty, with no `:`, neither `.` nor `..`, the path
/// holding no `\` and not beginning with `//`. `None` for any other path.
pub open spec fn final_component(path: Seq<char>) -> Option<Seq<char>> {
    let n = after_last_slash(path);
    if path.contains('/') && n.len() > 0 && !path.contains('\\') && !n.contains(':') && n
        != seq!['.'] && n != seq!['.', '.'] && !(path.len() >= 2 && path[0] == '/' && path[1]
        == '/') {
        Some(n)
    } else {
        None
    }
}

/// The final component of `path` as `std::path::Path::file_name` reads it,
/// as a string.
///
/// What is stated of it: a name it gives is non-empty and holds no `/`; a
/// path `prefix/n` as `final_component` describes it gives `n`; and a path
/// that is one plain name (letters, digits, `-`, `_`) is its own final
/// component. Paths with `\`, a leading `//` or a `:` in the last part are
/// read differently on different platforms, and nothing more is stated of
/// them.
#[verifier::external_body]
fn file_name_of(path: &str) -> (r: Option<String>)
    ensures
        r is Some ==> r->0@.len() > 0 && !r->0@.contains('/'),
        final_component(path@) is Some ==> r is Some && r->0@ == final_component(path@)->0,
        is_plain_name(path@) ==> r is Some && r->0@ == path@,
{
    std::path::Path::new(path).file_name().and_then(|name| name.to_str()).map(|name| name.to_string())
}

/// Whether `s` holds `..`.
pub open spec fn has_double_dot(s: Seq<char>) -> bool {
    exists|i: int| 0 <= i < s.len() - 1 && s[i] == '.' && #[trigger] s[i + 1] == '.'
}

/// Whether a cover-art identifier is safe to look up on disk: a single path
/// component with no `..`, made of ASCII letters, digits, `-` and `_`.
pub fn is_safe_cover_art_id(id: &str) -> (r: bool)
    ensures
        r == is_plain_name(id@),
{
    let name_ok = match file_name_of(id) {
        Some(n) => str_eq(n.as_str(), id),
        None => false,
    };
    let v = to_chars(id);
    let mut i: usize = 0;
    let mut chars_ok = true;
    let mut dots = false;
    while i < v.len()
        invariant
            v@ == id@,
            i <= v@.len(),
            chars_ok == forall|j: int| 0 <= j < i ==> cover_art_char(#[trigger] v@[j]),
            dots == exists|j: int| 0 <= j < i - 1 && v@[j] == '.' && #[trigger] v@[j + 1] == '.',
        decreases v@.len() - i,
    {
        let c = v[i];
        if !(('0' <= c && c <= '9') || ('a' <= c && c <= 'z') || ('A' <= c && c <= 'Z') || c == '-'
            || c == '_') {
            chars_ok = false;
        }
        let ghost old_dots = dots;
        if i > 0 && v[i - 1] == '.' && c == '.' {
            dots = true;
        }
        proof {
            if dots {
                if old_dots {
                    let j = choose|j: int|
                        0 <= j < i - 1 && v@[j] == '.' && #[trigger] v@[j + 1] == '.';
                    assert(0 <= j < i + 1 - 1 && v@[j] == '.' && v@[j + 1] == '.');
                } else {
                    let j = i - 1;
                    assert(0 <= j < i + 1 - 1 && v@[j] == '.' && v@[j + 1] == '.');
                }
            } else {
                assert forall|j: int| 0 <= j < i + 1 - 1 implies !(v@[j] == '.' && #[trigger] v@[j
                    + 1] == '.') by {
                    if j < i - 1 {
                    }
                }
            }
        }
        i = i + 1;
    }
    proof {
        if is_plain_name(id@) {
            assert(!dots) by {
                if dots {
                    let j = choose|j: int|
                        0 <= j < v@.len() - 1 && v@[j] == '.' && #[trigger] v@[j + 1] == '.';
                    assert(cover_art_char(v@[j]));
                }
            }
        }
    }
    name_ok && !dots && chars_ok
}

/// A character that is replaced inside zip entry names.
pub open spec fn zip_unsafe(c: char) -> bool {
    c == '/' || c == '\\' || c == ':' || c == '*' || c == '?' || c == '"' || c == '<' || c == '>'
        || c == '|'
}

/// `name` with each character that is not allowed in a zip path component
/// replaced by `_`.
pub open spec fn spec_zip_component(name: Seq<char>) -> Seq<char> {
    Seq::new(
        name.len(),
        |i: int|
            if zip_unsafe(name[i]) {
                '_'
            } else {
                name[i]
            },
    )
}

/// A sanitized zip component holds no character that zip paths forbid, has
/// the length of the name, and sanitizing it again changes nothing.
pub proof fn lemma_zip_component_clean(name: Seq<char>)
    ensures
        forall|i: int|
            0 <= i < spec_zip_component(name).len() ==> !zip_unsafe(
                #[trigger] spec_zip_component(name)[i],
            ),
        spec_zip_component(name).len() == name.len(),
        spec_zip_component(spec_zip_component(name)) == spec_zip_component(name),
{
    assert(spec_zip_component(spec_zip_component(name)) =~= spec_zip_component(name));
}

/// A range that a `Range` header gives lies within the file, start first.
pub proof fn lemma_byte_range_within_file(range: Seq<char>, file_size: int)
    ensures
        spec_byte_range(range, file_size) matches Some((start, end)) ==> 0 <= start <= end
            < file_size,
{
    let unit = "bytes="@;
    if unit.is_prefix_of(range) {
        let rs = range.skip(unit.len() as int);
        if rs.contains('-') {
            let d = choose|i: int| is_first_index(rs, '-', i);
            if let Some(start) = parsed_u64(rs.take(d)) {
                crate::number::lemma_parsed_u64_nonneg(rs.take(d));
            }
        }
    }
}

/// Sanitizes a path component for use inside a zip archive.
pub fn sanitize_zip_component(name: &str) -> (r: String)
    ensures
        r@ == spec_zip_component(name@),
{
    let v = to_chars(name);
    let mut out: Vec<char> = Vec::new();
    let mut i: usize = 0;
    while i < v.len()
        invariant
            v@ == name@,
            i <= v@.len(),
            out@ == spec_zip_component(name@).take(i as int),
        decreases v@.len() - i,
    {
        let c = v[i];
        let d = if c == '/' || c == '\\' || c == ':' || c == '*' || c == '?' || c == '"' || c
            == '<' || c == '>' || c == '|' {
            '_'
        } else {
            c
        };
        out.push(d);
        i = i + 1;
        assert(out@ =~= spec_zip_component(name@).take(i as int));
    }
    assert(spec_zip_component(name@).take(v@.len() as int) =~= spec_zip_component(name@));
    string_of(&out)
}

/// A character that could break out of a quoted header value.
pub open spec fn header_breakout(c: char) -> bool {
    c == '"' || c == '\r' || c == '\n'
}

/// `s` without `"`, carriage returns and line feeds.
pub open spec fn without_breakout(s: Seq<char>) -> Seq<char>
    decreases s.len(),
{
    if s.len() == 0 {
        s
    } else if header_breakout(s.last()) {
        without_breakout(s.drop_last())
    } else {
        without_breakout(s.drop_last()).push(s.last())
    }
}

/// Text without breakout characters is kept as it is.
proof fn lemma_without_breakout_keeps(s: Seq<char>)
    requires
        forall|i: int| 0 <= i < s.len() ==> !header_breakout(#[trigger] s[i]),
    ensures
        without_breakout(s) == s,
    decreases s.len(),
{
    if s.len() > 0 {
        assert(!header_breakout(s[s.len() - 1]));
        lemma_without_breakout_keeps(s.drop_last());
        assert(s.drop_last().push(s.last()) =~= s);
    }
}

/// A string without breakout characters has none after removal either.
proof fn lemma_without_breakout_clean(s: Seq<char>)
    ensures
        forall|i: int|
            0 <= i < without_breakout(s).len() ==> !header_breakout(#[trigger] without_breakout(s)[i]),
    decreases s.len(),
{
    if s.len() > 0 {
        lemma_without_breakout_clean(s.drop_last());
        let w = without_breakout(s.drop_last());
        if !header_breakout(s.last()) {
            assert(without_breakout(s) == w.push(s.last()));
            assert forall|i: int| 0 <= i < w.push(s.last()).len() implies !header_breakout(
                #[trigger] w.push(s.last())[i],
            ) by {
                if i < w.len() {
                    assert(w.push(s.last())[i] == w[i]);
                }
            }
        }
    }
}

/// The file name that a download announces for a file whose final path
/// component is `file_name` (`download` where there is none), with the
/// characters that could break out of the `Content-Disposition` header
/// removed.
pub fn download_filename(file_name: Option<&str>) -> (r: String)
    ensures
        r@ == without_breakout(
            match file_name {
                Some(n) => n@,
                None => "download"@,
            },
        ),
{
    let name = match file_name {
        Some(n) => n,
        None => "download",
    };
    let v = to_chars(name);
    let mut out: Vec<char> = Vec::new();
    let mut i: usize = 0;
    while i < v.len()
        invariant
            v@ == name@,
            i <= v@.len(),
            out@ == without_breakout(v@.take(i as int)),
        decreases v@.len() - i,
    {
        let c = v[i];
        assert(v@.take(i + 1).drop_last() =~= v@.take(i as int));
        if !(c == '"' || c == '\r' || c == '\n') {
            out.push(c);
        }
        i = i + 1;
    }
    assert(v@.take(v@.len() as int) =~= v@);
    string_of(&out)
}

/// The download file name for the file at `path`: its final component with
/// `"`, `\r` and `\n` removed, or `download` where the path has none.
pub fn sanitized_filename(path: &str) -> (r: String)
    ensures
        forall|i: int| 0 <= i < r@.len() ==> !header_breakout(#[trigger] r@[i]),
        is_plain_name(path@) ==> r@ == path@,
        final_component(path@) is Some ==> r@ == without_breakout(final_component(path@)->0),
{
    let name = file_name_of(path);
    let r = match &name {
        Some(n) => download_filename(Some(n.as_str())),
        None => download_filename(None),
    };
    proof {
        lemma_without_breakout_clean(
            match name {
                Some(n) => n@,
                None => "download"@,
            },
        );
        if is_plain_name(path@) {
            assert forall|i: int| 0 <= i < path@.len() implies !header_breakout(
                #[trigger] path@[i],
            ) by {
                assert(cover_art_char(path@[i]));
            }
            lemma_without_breakout_keeps(path@);
        }
    }
    r
}

/// The image formats that cover art can be resized in.
#[derive(PartialEq, Eq, Structural, Clone, Copy, Debug)]
pub enum CoverImageFormat {
    Jpeg,
    Png,
    Gif,
    Bmp,
    Tiff,
    WebP,
}

/// The image format of a cover-art file with the given extension.
pub open spec fn spec_cover_art_image_format(ext: Seq<char>) -> Option<CoverImageFormat> {
    if ext == "jpg"@ || ext == "jpeg"@ {
        Some(CoverImageFormat::Jpeg)
    } else if ext == "png"@ {
        Some(CoverImageFormat::Png)
    } else if ext == "gif"@ {
        Some(CoverImageFormat::Gif)
    } else if ext == "bmp"@ {
        Some(CoverImageFormat::Bmp)
    } else if ext == "tiff"@ {
        Some(CoverImageFormat::Tiff)
    } else if ext == "webp"@ {
        Some(CoverImageFormat::WebP)
    } else {
        None
    }
}

/// The image format of a cover-art file with the given extension, if it is
/// one that can be resized.
pub fn cover_art_image_format(extension: &str) -> (r: Option<CoverImageFormat>)
    ensures
        r == spec_cover_art_image_format(extension@),
{
    if str_eq(extension, "jpg") || str_eq(extension, "jpeg") {
        Some(CoverImageFormat::Jpeg)
    } else if str_eq(extension, "png") {
        Some(CoverImageFormat::Png)
    } else if str_eq(extension, "gif") {
        Some(CoverImageFormat::Gif)
    } else if str_eq(extension, "bmp") {
        Some(CoverImageFormat::Bmp)
    } else if str_eq(extension, "tiff") {
        Some(CoverImageFormat::Tiff)
    } else if str_eq(extension, "webp") {
        Some(CoverImageFormat::WebP)
    } else {
        None
    }
}

/// A character allowed in an avatar user name.
pub open spec fn avatar_char(c: char) -> bool {
    is_ascii_alphanumeric(c) || c == '-' || c == '_' || c == '.'
}

/// Whether a user name may be used to look up an avatar file: ASCII letters,
/// digits, `-`, `_` and `.` only.
pub fn is_safe_avatar_name(username: &str) -> (r: bool)
    ensures
        r == forall|i: int| 0 <= i < username@.len() ==> avatar_char(#[trigger] username@[i]),
{
    let v = to_chars(username);
    let mut i: usize = 0;
    while i < v.len()
        invariant
            v@ == username@,
            i <= v@.len(),
            forall|j: int| 0 <= j < i ==> avatar_char(#[trigger] v@[j]),
        decreases v@.len() - i,
    {
        let c = v[i];
        if !(('0' <= c && c <= '9') || ('a' <= c && c <= 'z') || ('A' <= c && c <= 'Z') || c == '-'
            || c == '_' || c == '.') {
            return false;
        }
        i = i + 1;
    }
    true
}

/// The avatar file extensions, in lookup order.
pub fn avatar_extensions() -> (r: Vec<&'static str>)
    ensures
        r@.len() == 4,
        r@[0]@ == "png"@,
        r@[1]@ == "jpg"@,
        r@[2]@ == "jpeg"@,
        r@[3]@ == "webp"@,
{
    let mut r: Vec<&'static str> = Vec::new();
    r.push("png");
    r.push("jpg");
    r.push("jpeg");
    r.push("webp");
    r
}

/// The content type of an avatar file with the given extension.
pub fn avatar_content_type(ext: &str) -> (r: &'static str)
    ensures
        r@ == if ext@ == "png"@ {
            "image/png"@
        } else if ext@ == "webp"@ {
            "image/webp"@
        } else {
            "image/jpeg"@
        },
{
    if str_eq(ext, "png") {
        "image/png"
    } else if str_eq(ext, "webp") {
        "image/webp"
    } else {
        "image/jpeg"
    }
}

// ---------------------------------------------------------------------------
// Request parameters and response headers
// ---------------------------------------------------------------------------
/// Query parameters of `stream` and `download`.
#[derive(Clone, Debug)]
pub struct StreamParams {
    /// The identifier of the song (or archive) to send.
    pub id: Option<String>,
    /// Maximum bit rate (no transcoding is done).
    pub max_bit_rate: Option<i32>,
    /// Preferred format (no transcoding is done).
    pub format: Option<String>,
    /// Time offset in seconds (video only, ignored).
    pub time_offset: Option<i32>,
    /// Video size (ignored).
    pub size: Option<String>,
    /// Whether to estimate the content length (ignored).
    pub estimate_content_length: Option<bool>,
    /// Whether the client takes transcoded content (ignored).
    pub converted: Option<bool>,
}

/// Query parameters of `getCoverArt`.
#[derive(Clone, Debug)]
pub struct CoverArtParams {
    /// The cover art identifier: the content hash stored with albums and songs.
    pub id: Option<String>,
    /// The size of the square the image is scaled to fit, never up.
    pub size: Option<u32>,
}

/// Query parameters of `getAvatar`.
#[derive(Clone, Debug)]
pub struct AvatarParams {
    /// The user whose avatar to send.
    pub username: Option<String>,
}

/// The `Content-Range` value of a partial reply.
pub fn content_range(range: &ByteRange, file_size: u64) -> (r: String)
    ensures
        r@ == "bytes "@ + decimal(range.start as nat) + "-"@ + decimal(range.end as nat) + "/"@
            + decimal(file_size as nat),
{
    let mut r = "bytes ".to_string();
    let s = u64_to_string(range.start);
    r.append(s.as_str());
    r.append("-");
    let e = u64_to_string(range.end);
    r.append(e.as_str());
    r.append("/");
    let n = u64_to_string(file_size);
    r.append(n.as_str());
    r
}

/// The `Content-Range` value of a reply to a range that cannot be served.
pub fn unsatisfiable_content_range(file_size: u64) -> (r: String)
    ensures
        r@ == "bytes */"@ + decimal(file_size as nat),
{
    let mut r = "bytes */".to_string();
    let n = u64_to_string(file_size);
    r.append(n.as_str());
    r
}

/// The `Content-Disposition` value that sends a file under `filename`.
pub fn attachment_disposition(filename: &str) -> (r: String)
    ensures
        r@ == "attachment; filename=\""@ + filename@ + "\""@,
{
    let mut r = "attachment; filename=\"".to_string();
    r.append(filename);
    r.append("\"");
    r
}

/// `s` with every comma made an underscore.
pub open spec fn commas_to_underscores(s: Seq<char>) -> Seq<char> {
    Seq::new(s.len(), |i: int| if s[i] == ',' { '_' } else { s[i] })
}

/// The file name of a zip download of `name`: commas become underscores,
/// characters illegal in paths too, and `.zip` follows.
pub fn zip_download_name(name: &str) -> (r: String)
    ensures
        r@ == spec_zip_component(commas_to_underscores(name@)) + ".zip"@,
{
    let v = to_chars(name);
    let mut w: Vec<char> = Vec::new();
    let mut i: usize = 0;
    while i < v.len()
        invariant
            v@ == name@,
            i <= v@.len(),
            w@ == commas_to_underscores(name@).take(i as int),
        decreases v@.len() - i,
    {
        if v[i] == ',' {
            w.push('_');
        } else {
            w.push(v[i]);
        }
        i = i + 1;
        assert(w@ =~= commas_to_underscores(name@).take(i as int));
    }
    assert(commas_to_underscores(name@).take(v@.len() as int) =~= commas_to_underscores(name@));
    let t = string_of(w.as_slice());
    let mut r = sanitize_zip_component(t.as_str());
    r.append(".zip");
    r
}

/// What a `getCoverArt` request asks for: the art and the size to fit.
pub struct CoverArtRequest {
    pub id: String,
    pub size: Option<u32>,
}

/// The cover art that a `getCoverArt` request asks for: a non-empty
/// identifier is required, an unsafe one is not found, and a size of zero
/// counts as no size.
pub fn cover_art_request(params: &CoverArtParams) -> (r: Result<CoverArtRequest, ApiError>)
    ensures
        (params.id is None || params.id->0@.len() == 0) ==> (r matches Err(
            ApiError::MissingParameter(m),
        ) && m@ == "id"@),
        params.id is Some && params.id->0@.len() > 0 && !is_plain_name(params.id->0@) ==> (
        r matches Err(ApiError::NotFound(m)) && m@ == "Cover art"@),
        params.id is Some && is_plain_name(params.id->0@) ==> (r matches Ok(q) && q.id@
            == params.id->0@ && q.size == (match params.size {
            Some(s) => if s > 0 {
                Some(s)
            } else {
                None
            },
            None => None,
        })),
{
    let id = match &params.id {
        Some(id) => id,
        None => {
            return Err(ApiError::MissingParameter("id".to_string()));
        },
    };
    if id.as_str().is_empty() {
        return Err(ApiError::MissingParameter("id".to_string()));
    }
    if !is_safe_cover_art_id(id.as_str()) {
        return Err(ApiError::NotFound("Cover art".to_string()));
    }
    let size = match params.size {
        Some(s) => if s > 0 {
            Some(s)
        } else {
            None
        },
        None => None,
    };
    Ok(CoverArtRequest { id: id.clone(), size })
}

/// Whether an image of `width` by `height` is scaled down to fit a square
/// of `size`: only when it does not fit already.
pub fn needs_resize(width: u32, height: u32, size: u32) -> (r: bool)
    ensures
        r <==> !(width <= size && height <= size),
{
    !(width <= size && height <= size)
}

/// The avatar files that a user may have, in the order they are looked
/// for: `<username>.png`, `.jpg`, `.jpeg`, `.webp`, each with its extension.
/// A missing or empty username is a missing parameter; one with other
/// characters than ASCII letters, digits, `-`, `_` and `.` has no avatar.
pub fn avatar_candidates(params: &AvatarParams) -> (r: Result<Vec<(String, &'static str)>, ApiError>)
    ensures
        (params.username is None || params.username->0@.len() == 0) ==> (r matches Err(
            ApiError::MissingParameter(m),
        ) && m@ == "username"@),
        params.username is Some && params.username->0@.len() > 0 && !(forall|i: int|
            0 <= i < params.username->0@.len() ==> avatar_char(#[trigger] params.username->0@[i]))
            ==> (r matches Err(ApiError::NotFound(m)) && m@ == "Avatar not found"@),
        params.username is Some && params.username->0@.len() > 0 && (forall|i: int|
            0 <= i < params.username->0@.len() ==> avatar_char(#[trigger] params.username->0@[i]))
            ==> (r matches Ok(v) && v@.len() == 4 && v@[0].1@ == "png"@ && v@[1].1@ == "jpg"@
            && v@[2].1@ == "jpeg"@ && v@[3].1@ == "webp"@ && forall|k: int|
            0 <= k < 4 ==> (#[trigger] v@[k]).0@ == params.username->0@ + "."@ + v@[k].1@),
{
    let name = match &params.username {
        Some(n) => n,
        None => {
            return Err(ApiError::MissingParameter("username".to_string()));
        },
    };
    if name.as_str().is_empty() {
        return Err(ApiError::MissingParameter("username".to_string()));
    }
    if !is_safe_avatar_name(name.as_str()) {
        return Err(ApiError::NotFound("Avatar not found".to_string()));
    }
    let exts = avatar_extensions();
    let mut r: Vec<(String, &'static str)> = Vec::new();
    let mut k: usize = 0;
    while k < 4
        invariant
            exts@.len() == 4,
            k <= 4,
            r@.len() == k,
            forall|j: int| 0 <= j < k ==> (#[trigger] r@[j]).1 == exts@[j],
            forall|j: int| 0 <= j < k ==> (#[trigger] r@[j]).0@ == name@ + "."@ + exts@[j]@,
        decreases 4 - k,
    {
        let ext = exts[k];
        let mut file = name.clone();
        file.append(".");
        file.append(ext);
        r.push((file, ext));
        k = k + 1;
    }
    Ok(r)
}

/// The width and height of the image that encoded bytes hold, where they
/// decode.
pub uninterp spec fn image_dimensions(bytes: Seq<u8>) -> Option<(u32, u32)>;

/// The image that encoded bytes hold, scaled with Lanczos filtering to fit a
/// square of `size` keeping its proportions, and encoded in `format`, where
/// decoding and encoding succeed.
pub uninterp spec fn resized_image(bytes: Seq<u8>, format: CoverImageFormat, size: u32) -> Option<
    Seq<u8>,
>;

/// The dimensions of an encoded image (`image::load_from_memory`, then
/// `dimensions`), named `image_dimensions`.
#[verifier::external_body]
fn decoded_dimensions(bytes: &[u8]) -> (r: Option<(u32, u32)>)
    ensures
        r == image_dimensions(bytes@),
{
    match image::load_from_memory(bytes) {
        Ok(img) => Some(img.dimensions()),
        Err(_) => None,
    }
}

/// Where encoded bytes decode, the image fits a square of `size`.
pub open spec fn decodes_within(bytes: Seq<u8>, size: u32) -> bool {
    match image_dimensions(bytes) {
        Some((w, h)) => w <= size && h <= size,
        None => true,
    }
}

/// Scales an encoded image to fit a square of `size` and encodes it again
/// (`DynamicImage::resize` with `FilterType::Lanczos3`, then `write_to`),
/// named `resized_image`. `resize` scales to the largest size that fits
/// within `size` by `size` (at least one pixel a side) and the encoder
/// writes those dimensions; so where the bytes it gives decode again, the
/// image fits the square. Whether they decode again is not stated:
/// decoding runs under memory limits that a large result can exceed.
#[verifier::external_body]
fn resize_encoded(bytes: &[u8], format: CoverImageFormat, size: u32) -> (r: Option<Vec<u8>>)
    ensures
        r is Some <==> resized_image(bytes@, format, size) is Some,
        r is Some ==> r->0@ == resized_image(bytes@, format, size)->0,
        r is Some && size > 0 ==> decodes_within(r->0@, size),
{
    let fmt = match format {
        CoverImageFormat::Jpeg => image::ImageFormat::Jpeg,
        CoverImageFormat::Png => image::ImageFormat::Png,
        CoverImageFormat::Gif => image::ImageFormat::Gif,
        CoverImageFormat::Bmp => image::ImageFormat::Bmp,
        CoverImageFormat::Tiff => image::ImageFormat::Tiff,
        CoverImageFormat::WebP => image::ImageFormat::WebP,
    };
    let img = image::load_from_memory(bytes).ok()?;
    let mut out = std::io::Cursor::new(Vec::new());
    img.resize(size, size, image::imageops::FilterType::Lanczos3).write_to(&mut out, fmt).ok()?;
    Some(out.into_inner())
}

/// Cover art scaled to fit a square of `size`: bytes that hold no image give
/// nothing; an image that fits already is returned as it is, never scaled
/// up; a larger one is scaled down and encoded in `format`.
pub fn resize_cover_art_bytes(bytes: Vec<u8>, format: CoverImageFormat, size: u32) -> (r: Option<
    Vec<u8>,
>)
    ensures
        image_dimensions(bytes@) is None ==> r is None,
        image_dimensions(bytes@) matches Some((w, h)) && w <= size && h <= size ==> (r is Some
            && r->0@ == bytes@),
        image_dimensions(bytes@) matches Some((w, h)) && !(w <= size && h <= size) ==> (r is Some
            <==> resized_image(bytes@, format, size) is Some) && (r is Some ==> r->0@
            == resized_image(bytes@, format, size)->0),
        r is Some && size > 0 ==> decodes_within(r->0@, size),
{
    match decoded_dimensions(bytes.as_slice()) {
        None => None,
        Some((w, h)) => if needs_resize(w, h, size) {
            resize_encoded(bytes.as_slice(), format, size)
        } else {
            Some(bytes)
        },
    }
}

/// The bytes served for a `getCoverArt` request with a size: the art scaled
/// to fit a square of `size` when its format is known and scaling works,
/// else the original bytes.
pub open spec fn spec_cover_art_body(
    original: Seq<u8>,
    format: Option<CoverImageFormat>,
    size: u32,
) -> Seq<u8> {
    match format {
        None => original,
        Some(f) => match image_dimensions(original) {
            None => original,
            Some((w, h)) => if w <= size && h <= size {
                original
            } else {
                match resized_image(original, f, size) {
                    Some(b) => b,
                    None => original,
                }
            },
        },
    }
}

/// The body served for cover art requested with a positive `size`, whose
/// file has the extension `extension`: the art scaled down to fit the square
/// where the extension names an image format and the image is larger; the
/// original bytes where it fits already, where the format is unknown, or
/// where scaling fails.
pub fn cover_art_body(original: Vec<u8>, extension: &str, size: u32) -> (r: Vec<u8>)
    requires
        size > 0,
    ensures
        r@ == spec_cover_art_body(original@, spec_cover_art_image_format(extension@), size),
        r@ == original@ || decodes_within(r@, size),
{
    match cover_art_image_format(extension) {
        None => original,
        Some(format) => {
            let kept = original.clone();
            match resize_cover_art_bytes(original, format, size) {
                Some(b) => b,
                None => kept,
            }
        },
    }
}

/// The size asked for, a size of zero counting as none.
pub open spec fn requested_size(size: Option<u32>) -> Option<u32> {
    match size {
        Some(s) => if s > 0 {
            Some(s)
        } else {
            None
        },
        None => None,
    }
}

/// The cover art a user may fetch: the request checks of
/// `cover_art_request` come first (a missing identifier, then an unsafe
/// one), then a user without the cover-art role is not authorized.
pub fn cover_art_access(params: &CoverArtParams, cover_art_role: bool) -> (r: Result<
    CoverArtRequest,
    ApiError,
>)
    ensures
        (params.id is None || params.id->0@.len() == 0) ==> (r matches Err(
            ApiError::MissingParameter(m),
        ) && m@ == "id"@),
        params.id is Some && params.id->0@.len() > 0 && !is_plain_name(params.id->0@) ==> (
        r matches Err(ApiError::NotFound(m)) && m@ == "Cover art"@),
        params.id is Some && is_plain_name(params.id->0@) && !cover_art_role ==> r matches Err(
            ApiError::NotAuthorized,
        ),
        params.id is Some && is_plain_name(params.id->0@) && cover_art_role ==> (r matches Ok(q)
            && q.id@ == params.id->0@ && q.size == requested_size(params.size)),
{
    match cover_art_request(params) {
        Err(e) => Err(e),
        Ok(q) => if cover_art_role {
            Ok(q)
        } else {
            Err(ApiError::NotAuthorized)
        },
    }
}

// ---------------------------------------------------------------------------
// Song paths
// ---------------------------------------------------------------------------
/// Whether the path `path` lies in the folder `folder`, both canonical
/// (absolute, with no empty, `.` or `..` component and no trailing `/`): the
/// folder's components are the first components of the path. For such paths
/// that is: the folder is the root and the path is absolute, or the path is
/// the folder, or the path goes on from the folder after a `/`.
pub open spec fn within_folder(path: Seq<char>, folder: Seq<char>) -> bool {
    ||| folder == seq!['/'] && path.len() > 0 && path[0] == '/'
    ||| path == folder
    ||| folder.is_prefix_of(path) && path.len() > folder.len() && path[folder.len() as int] == '/'
}

/// Whether the canonical path `path` lies in the canonical folder `folder`.
pub fn is_within_folder(path: &str, folder: &str) -> (r: bool)
    ensures
        r == within_folder(path@, folder@),
{
    let p = to_chars(path);
    let f = to_chars(folder);
    if f.len() == 1 && f[0] == '/' {
        assert(f@ =~= seq!['/']);
        return p.len() > 0 && p[0] == '/';
    }
    assert(f@ != seq!['/']) by {
        if f@ == seq!['/'] {
            assert(f@.len() == 1 && f@[0] == '/');
        }
    }
    if f.len() > p.len() {
        return false;
    }
    let mut i: usize = 0;
    while i < f.len()
        invariant
            p@ == path@,
            f@ == folder@,
            f@.len() <= p@.len(),
            i <= f@.len(),
            forall|j: int| 0 <= j < i ==> p@[j] == f@[j],
        decreases f@.len() - i,
    {
        if p[i] != f[i] {
            assert(!f@.is_prefix_of(p@));
            assert(p@ != f@);
            return false;
        }
        i = i + 1;
    }
    assert(f@.is_prefix_of(p@)) by {
        assert(p@.subrange(0, f@.len() as int) =~= f@);
    }
    if p.len() == f.len() {
        assert(p@ =~= f@);
        true
    } else {
        assert(p@ != f@);
        p[f.len()] == '/'
    }
}

/// Where a song may be read from. `canonical_song` is the song's path made
/// canonical, `None` where the file is not on disk; `music_folders` are the
/// canonical paths of the music folders (`None` for one that is not on disk),
/// or `None` where the folders could not be looked up.
///
/// The song's canonical path is returned when it lies in one of the folders;
/// any other path is refused, so that a path stored for a song can never name
/// a file outside the music library.
pub fn validate_song_path(canonical_song: Option<String>, music_folders: Option<Vec<Option<String>>>) -> (r: Result<String, &'static str>)
    ensures
        match canonical_song {
            None => r == Err::<String, &'static str>("Audio file not found on disk"),
            Some(p) => match music_folders {
                None => r == Err::<String, &'static str>("Music folder lookup failed"),
                Some(fs) => if exists|i: int|
                    0 <= i < fs@.len() && (#[trigger] fs@[i]) is Some && within_folder(
                        p@,
                        fs@[i]->0@,
                    ) {
                    r matches Ok(s) && s@ == p@
                } else {
                    r == Err::<String, &'static str>("Audio file not found in music library")
                },
            },
        },
{
    let p = match canonical_song {
        None => return Err("Audio file not found on disk"),
        Some(p) => p,
    };
    let fs = match music_folders {
        None => return Err("Music folder lookup failed"),
        Some(fs) => fs,
    };
    let mut i: usize = 0;
    while i < fs.len()
        invariant
            canonical_song == Some(p),
            music_folders == Some(fs),
            i <= fs@.len(),
            forall|j: int|
                0 <= j < i ==> !((#[trigger] fs@[j]) is Some && within_folder(p@, fs@[j]->0@)),
        decreases fs@.len() - i,
    {
        match &fs[i] {
            Some(f) => {
                if is_within_folder(p.as_str(), f.as_str()) {
                    assert(fs@[i as int] is Some && within_folder(p@, fs@[i as int]->0@));
                    return Ok(p);
                }
            },
            None => {},
        }
        i = i + 1;
    }
    Err("Audio file not found in music library")
}

} // verus!
