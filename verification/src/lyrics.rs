//! Lyrics: recognising and parsing LRC-timed lyrics, splitting plain lyrics
//! into lines, and choosing the lyrics entries that an audio file's tags give.
use vstd::prelude::*;
use crate::number::{parse_i64, parsed_i64};
use crate::order::{
    insert_sorted, insertion_sorted, is_ordering, is_sorted_by, lemma_sorted_is_sorted,
    lemma_sorted_permutation,
};
use crate::text::{
    char_rows, is_digit, lines, split_at_any, split_chars, split_lines, string_from, to_chars, trim,
    trim_bounds, trim_chars,
};

verus! {

/// Lyrics found in an audio file's tags.
pub struct ExtractedLyrics {
    /// The lyrics text (may contain LRC timestamps if synced).
    pub text: String,
    /// Whether the lyrics are synchronized (have timestamps).
    pub synced: bool,
    /// Language code if available (e.g., "eng", "jpn").
    pub lang: Option<String>,
    /// Description/type of lyrics if available.
    pub description: Option<String>,
}

/// One timed line of synchronized lyrics.
pub struct SyncedLine {
    /// Start time in milliseconds.
    pub start_ms: i64,
    /// The lyric text.
    pub text: String,
}

impl View for SyncedLine {
    type V = (int, Seq<char>);

    open spec fn view(&self) -> (int, Seq<char>) {
        (self.start_ms as int, self.text@)
    }
}

/// The views of a sequence of timed lines.
pub open spec fn timed_views(v: Seq<SyncedLine>) -> Seq<(int, Seq<char>)> {
    Seq::new(v.len(), |i: int| v[i]@)
}

// ---------------------------------------------------------------------------
// LRC timestamps
// ---------------------------------------------------------------------------
/// Fits in an `i64`.
pub open spec fn in_i64(x: int) -> bool {
    i64::MIN <= x <= i64::MAX
}

/// The milliseconds part of a three-part timestamp: two digits are
/// hundredths of a second, any other width is milliseconds.
pub open spec fn fraction_ms(text: Seq<char>, value: int) -> int {
    if text.len() == 2 {
        value * 10
    } else {
        value
    }
}

/// The time in milliseconds that an LRC timestamp `mm:ss`, `mm:ss.xx` or
/// `mm:ss:xx` (the part between the brackets) denotes.
pub open spec fn lrc_timestamp(s: Seq<char>) -> Option<int> {
    let p = split_at_any(s, ':', '.');
    if p.len() == 2 {
        match (parsed_i64(p[0]), parsed_i64(p[1])) {
            (Some(m), Some(sec)) => Some(m * 60000 + sec * 1000),
            _ => None,
        }
    } else if p.len() == 3 {
        match (parsed_i64(p[0]), parsed_i64(p[1]), parsed_i64(p[2])) {
            (Some(m), Some(sec), Some(f)) => Some(m * 60000 + sec * 1000 + fraction_ms(p[2], f)),
            _ => None,
        }
    } else {
        None
    }
}

/// Every intermediate value of the `i64` arithmetic that computes
/// `lrc_timestamp(s)` is in range, so the computation does not overflow.
pub open spec fn lrc_timestamp_fits(s: Seq<char>) -> bool {
    let p = split_at_any(s, ':', '.');
    if p.len() == 2 {
        match (parsed_i64(p[0]), parsed_i64(p[1])) {
            (Some(m), Some(sec)) => in_i64(m * 60000) && in_i64(sec * 1000) && in_i64(
                m * 60000 + sec * 1000,
            ),
            _ => true,
        }
    } else if p.len() == 3 {
        match (parsed_i64(p[0]), parsed_i64(p[1]), parsed_i64(p[2])) {
            (Some(m), Some(sec), Some(f)) => in_i64(fraction_ms(p[2], f)) && in_i64(m * 60000)
                && in_i64(sec * 1000) && in_i64(m * 60000 + sec * 1000) && in_i64(
                m * 60000 + sec * 1000 + fraction_ms(p[2], f),
            ),
            _ => true,
        }
    } else {
        true
    }
}

/// The number of bytes of the UTF-8 encoding of `c`.
pub open spec fn utf8_width(c: char) -> int {
    if (c as u32) < 0x80 {
        1
    } else if (c as u32) < 0x800 {
        2
    } else if (c as u32) < 0x10000 {
        3
    } else {
        4
    }
}

/// The number of bytes of the UTF-8 encoding of `s`.
pub open spec fn utf8_len(s: Seq<char>) -> int
    decreases s.len(),
{
    if s.len() == 0 {
        0
    } else {
        utf8_len(s.drop_last()) + utf8_width(s.last())
    }
}

/// Parses an LRC timestamp into milliseconds.
pub fn parse_lrc_timestamp(s: &str) -> (r: Option<i64>)
    requires
        lrc_timestamp_fits(s@),
    ensures
        match r {
            Some(ms) => lrc_timestamp(s@) == Some(ms as int),
            None => lrc_timestamp(s@) is None,
        },
{
    let v = to_chars(s);
    assert(v@.subrange(0, v@.len() as int) =~= s@);
    timestamp_of(&v, 0, v.len())
}

/// The timestamp that `v[from..to]` denotes.
fn timestamp_of(v: &[char], from: usize, to: usize) -> (r: Option<i64>)
    requires
        from <= to <= v@.len(),
        lrc_timestamp_fits(v@.subrange(from as int, to as int)),
    ensures
        match r {
            Some(ms) => lrc_timestamp(v@.subrange(from as int, to as int)) == Some(ms as int),
            None => lrc_timestamp(v@.subrange(from as int, to as int)) is None,
        },
{
    let ghost s = v@.subrange(from as int, to as int);
    let mut part: Vec<char> = Vec::new();
    let mut i = from;
    while i < to
        invariant
            from <= i <= to <= v@.len(),
            part@ == v@.subrange(from as int, i as int),
        decreases to - i,
    {
        part.push(v[i]);
        i = i + 1;
        assert(part@ =~= v@.subrange(from as int, i as int));
    }
    let parts = split_chars(&part, part.len(), ':', '.');
    assert(part@.take(part@.len() as int) =~= s);
    let ghost p = split_at_any(s, ':', '.');
    assert(parts@.len() == p.len());
    if parts.len() == 2 {
        assert(parts@[0]@ == p[0] && parts@[1]@ == p[1]);
        let mins = match parse_i64(&parts[0]) {
            Some(x) => x,
            None => return None,
        };
        let secs = match parse_i64(&parts[1]) {
            Some(x) => x,
            None => return None,
        };
        Some(mins * 60000 + secs * 1000)
    } else if parts.len() == 3 {
        assert(parts@[0]@ == p[0] && parts@[1]@ == p[1] && parts@[2]@ == p[2]);
        let mins = match parse_i64(&parts[0]) {
            Some(x) => x,
            None => return None,
        };
        let secs = match parse_i64(&parts[1]) {
            Some(x) => x,
            None => return None,
        };
        let frac = match parse_i64(&parts[2]) {
            Some(x) => x,
            None => return None,
        };
        let ms = if parts[2].len() == 2 {
            frac * 10
        } else {
            frac
        };
        Some(mins * 60000 + secs * 1000 + ms)
    } else {
        None
    }
}

// ---------------------------------------------------------------------------
// LRC lines
// ---------------------------------------------------------------------------
/// `i` is the first position of `']'` in `r`.
pub open spec fn is_first_close(r: Seq<char>, i: int) -> bool {
    0 <= i < r.len() && r[i] == ']' && forall|j: int| 0 <= j < i ==> r[j] != ']'
}

/// The first position of `']'` in `r` (meaningful where there is one).
pub open spec fn first_close(r: Seq<char>) -> int {
    choose|i: int| is_first_close(r, i)
}

/// The timestamps at the start of `r`, each written `[..]`, and the text
/// after them. Reading stops at the first bracketed group that is not a
/// timestamp (such as `[ar:Artist]`), which then stays in the text.
pub open spec fn leading_stamps(r: Seq<char>) -> (Seq<int>, Seq<char>)
    decreases r.len(),
{
    if r.len() > 0 && r[0] == '[' && exists|i: int| is_first_close(r, i) {
        let end = first_close(r);
        if end >= 1 {
            match lrc_timestamp(r.subrange(1, end)) {
                Some(ms) => {
                    let rest = leading_stamps(r.subrange(end + 1, r.len() as int));
                    (seq![ms] + rest.0, rest.1)
                },
                None => (Seq::empty(), r),
            }
        } else {
            (Seq::empty(), r)
        }
    } else {
        (Seq::empty(), r)
    }
}

/// Every timestamp that reading the start of `r` evaluates fits in `i64`.
pub open spec fn leading_stamps_fit(r: Seq<char>) -> bool
    decreases r.len(),
{
    if r.len() > 0 && r[0] == '[' && exists|i: int| is_first_close(r, i) {
        let end = first_close(r);
        if end >= 1 {
            lrc_timestamp_fits(r.subrange(1, end)) && match lrc_timestamp(r.subrange(1, end)) {
                Some(ms) => leading_stamps_fit(r.subrange(end + 1, r.len() as int)),
                None => true,
            }
        } else {
            true
        }
    } else {
        true
    }
}

/// The timed entries of one LRC line: one per leading timestamp, each with
/// the trimmed text that follows the timestamps.
pub open spec fn line_entries(line: Seq<char>) -> Seq<(int, Seq<char>)> {
    let st = leading_stamps(trim(line));
    Seq::new(st.0.len(), |k: int| (st.0[k], trim(st.1)))
}

/// The timed entries of the lines `ls`, in document order.
pub open spec fn entries_of(ls: Seq<Seq<char>>) -> Seq<(int, Seq<char>)>
    decreases ls.len(),
{
    if ls.len() == 0 {
        Seq::empty()
    } else {
        entries_of(ls.drop_last()) + line_entries(ls.last())
    }
}

/// Every line of `text` reads its timestamps without overflow.
pub open spec fn lrc_fits(text: Seq<char>) -> bool {
    forall|i: int| 0 <= i < lines(text).len() ==> leading_stamps_fit(trim(#[trigger] lines(text)[i]))
}

/// `e` inserted into `s` after every element whose time is not later.
pub open spec fn insert_by_time(s: Seq<(int, Seq<char>)>, e: (int, Seq<char>)) -> Seq<
    (int, Seq<char>),
>
    decreases s.len(),
{
    if s.len() == 0 {
        seq![e]
    } else if s.last().0 <= e.0 {
        s.push(e)
    } else {
        insert_by_time(s.drop_last(), e).push(s.last())
    }
}

/// `s` in order of time; entries with equal times keep their order.
pub open spec fn sort_by_time(s: Seq<(int, Seq<char>)>) -> Seq<(int, Seq<char>)>
    decreases s.len(),
{
    if s.len() == 0 {
        s
    } else {
        insert_by_time(sort_by_time(s.drop_last()), s.last())
    }
}

/// The timed lines of LRC `text`, sorted by time.
pub open spec fn lrc_lines(text: Seq<char>) -> Seq<(int, Seq<char>)> {
    sort_by_time(entries_of(lines(text)))
}

/// A timed line belongs after another when it starts later.
pub open spec fn starts_later() -> spec_fn((int, Seq<char>), (int, Seq<char>)) -> bool {
    |a: (int, Seq<char>), b: (int, Seq<char>)| a.0 > b.0
}

/// Inserting by time is sorted insertion by start time.
proof fn lemma_insert_by_time_sorted(s: Seq<(int, Seq<char>)>, e: (int, Seq<char>))
    ensures
        insert_by_time(s, e) == insert_sorted(s, e, starts_later()),
    decreases s.len(),
{
    if s.len() > 0 {
        lemma_insert_by_time_sorted(s.drop_last(), e);
    }
}

/// Sorting by time is stable sorting by start time.
proof fn lemma_sort_by_time_sorted(s: Seq<(int, Seq<char>)>)
    ensures
        sort_by_time(s) == insertion_sorted(s, starts_later()),
    decreases s.len(),
{
    if s.len() > 0 {
        lemma_sort_by_time_sorted(s.drop_last());
        lemma_insert_by_time_sorted(sort_by_time(s.drop_last()), s.last());
    }
}

/// The synchronized lines of LRC text come in order of time, and they are
/// exactly the timed lines of the text: one per timestamp, none lost or
/// added.
pub proof fn lemma_lrc_lines_in_time_order(text: Seq<char>)
    ensures
        forall|i: int, j: int|
            0 <= i < j < lrc_lines(text).len() ==> (#[trigger] lrc_lines(text)[i]).0
                <= (#[trigger] lrc_lines(text)[j]).0,
        lrc_lines(text).to_multiset() == entries_of(lines(text)).to_multiset(),
{
    let s = entries_of(lines(text));
    lemma_sort_by_time_sorted(s);
    assert(is_ordering(starts_later()));
    lemma_sorted_is_sorted(s, starts_later());
    lemma_sorted_permutation(s, starts_later());
    let r = lrc_lines(text);
    assert forall|i: int, j: int| 0 <= i < j < r.len() implies (#[trigger] r[i]).0
        <= (#[trigger] r[j]).0 by {
        assert(!starts_later()(r[i], r[j]));
    }
}

/// Inserting after the last position whose time is not later.
proof fn lemma_insert_at(s: Seq<(int, Seq<char>)>, e: (int, Seq<char>), p: int)
    requires
        0 <= p <= s.len(),
        forall|k: int| p <= k < s.len() ==> s[k].0 > e.0,
        p == 0 || s[p - 1].0 <= e.0,
    ensures
        insert_by_time(s, e) == s.take(p).push(e) + s.skip(p),
    decreases s.len(),
{
    if s.len() == 0 {
        assert(s.take(p).push(e) + s.skip(p) =~= seq![e]);
    } else if p == s.len() {
        assert(s.take(p).push(e) + s.skip(p) =~= s.push(e));
    } else {
        lemma_insert_at(s.drop_last(), e, p);
        assert(s.drop_last().take(p) =~= s.take(p));
        assert(s.drop_last().skip(p).push(s.last()) =~= s.skip(p));
        assert(insert_by_time(s, e) == insert_by_time(s.drop_last(), e).push(s.last()));
        assert((s.take(p).push(e) + s.drop_last().skip(p)).push(s.last()) =~= s.take(p).push(e)
            + s.skip(p));
    }
}

/// Reads the leading timestamps of `t[from..]`: appends one entry per
/// timestamp to `out`, all with the trimmed text after them.
fn push_line_entries(t: &Vec<char>, out: &mut Vec<SyncedLine>)
    requires
        leading_stamps_fit(t@),
    ensures
        timed_views(final(out)@) == timed_views(old(out)@) + ({
            let st = leading_stamps(t@);
            Seq::new(st.0.len(), |k: int| (st.0[k], trim(st.1)))
        }),
{
    let ghost whole = t@;
    let mut stamps: Vec<i64> = Vec::new();
    let mut pos: usize = 0;
    let n = t.len();
    assert(t@.subrange(0, n as int) =~= t@);
    assert(stamps@.map_values(|x: i64| x as int) =~= Seq::<int>::empty());
    // Reading the timestamps; `leading_stamps(whole)` is the stamps read so
    // far followed by `leading_stamps` of what remains.
    loop
        invariant
            n == t@.len(),
            whole == t@,
            pos <= n,
            leading_stamps_fit(t@.subrange(pos as int, n as int)),
            ({
                let rest = leading_stamps(t@.subrange(pos as int, n as int));
                leading_stamps(whole) == (stamps@.map_values(|x: i64| x as int) + rest.0, rest.1)
            }),
        ensures
            pos <= n,
            leading_stamps(whole) == (stamps@.map_values(|x: i64| x as int), t@.subrange(
                pos as int,
                n as int,
            )),
        decreases n - pos,
    {
        let ghost r = t@.subrange(pos as int, n as int);
        if !(pos < n && t[pos] == '[') {
            assert(leading_stamps(r) == (Seq::<int>::empty(), r));
            assert(stamps@.map_values(|x: i64| x as int) + Seq::<int>::empty() =~= stamps@.map_values(
                |x: i64| x as int,
            ));
            break;
        }
        // find the first ']'
        let mut end = pos;
        while end < n && t[end] != ']'
            invariant
                pos <= end <= n,
                n == t@.len(),
                forall|j: int| pos <= j < end ==> t@[j] != ']',
            decreases n - end,
        {
            end = end + 1;
        }
        if end == n {
            assert(!exists|i: int| is_first_close(r, i)) by {
                assert forall|i: int| !is_first_close(r, i) by {
                    if 0 <= i < r.len() {
                        assert(r[i] == t@[pos + i]);
                    }
                }
            }
            assert(leading_stamps(r) == (Seq::<int>::empty(), r));
            assert(stamps@.map_values(|x: i64| x as int) + Seq::<int>::empty() =~= stamps@.map_values(
                |x: i64| x as int,
            ));
            break;
        }
        let ghost rel = end - pos;
        assert(is_first_close(r, rel)) by {
            assert forall|j: int| 0 <= j < rel implies r[j] != ']' by {
                assert(r[j] == t@[pos + j]);
            }
        }
        assert(first_close(r) == rel) by {
            let c = first_close(r);
            assert(is_first_close(r, c));
            if c < rel {
                assert(r[c] == t@[pos + c]);
            }
            if rel < c {
                assert(r[rel] == ']');
            }
        }
        assert(rel >= 1);
        assert(r.subrange(1, rel) =~= t@.subrange(pos + 1, end as int));
        match timestamp_of(t, pos + 1, end) {
            Some(ms) => {
                assert(r.subrange(rel + 1, r.len() as int) =~= t@.subrange(end + 1, n as int));
                let ghost old_stamps = stamps@.map_values(|x: i64| x as int);
                stamps.push(ms);
                assert(stamps@.map_values(|x: i64| x as int) =~= old_stamps.push(ms as int));
                let ghost rest2 = leading_stamps(t@.subrange(end + 1, n as int));
                assert(old_stamps + (seq![ms as int] + rest2.0) =~= old_stamps.push(ms as int)
                    + rest2.0);
                pos = end + 1;
            },
            None => {
                assert(leading_stamps(r) == (Seq::<int>::empty(), r));
                assert(stamps@.map_values(|x: i64| x as int) + Seq::<int>::empty()
                    =~= stamps@.map_values(|x: i64| x as int));
                break;
            },
        }
    }
    // The text after the timestamps, trimmed.
    let (a, b) = trim_bounds_from(t, pos);
    let text = string_from(t, a, b);
    let ghost st = leading_stamps(whole);
    assert(st.1 == t@.subrange(pos as int, n as int));
    assert(st.0 =~= stamps@.map_values(|x: i64| x as int));
    let ghost base = timed_views(out@);
    let mut k: usize = 0;
    while k < stamps.len()
        invariant
            k <= stamps@.len(),
            st.0 == stamps@.map_values(|x: i64| x as int),
            text@ == trim(st.1),
            timed_views(out@) == base + Seq::new(k as nat, |q: int| (st.0[q], trim(st.1))),
        decreases stamps@.len() - k,
    {
        let line = SyncedLine { start_ms: stamps[k], text: text.clone() };
        assert(line@ == (st.0[k as int], trim(st.1)));
        let ghost before = out@;
        out.push(line);
        assert(out@ =~= before.push(line));
        assert(timed_views(out@) =~= timed_views(before).push(line@));
        k = k + 1;
        assert(timed_views(out@) =~= base + Seq::new(k as nat, |q: int| (st.0[q], trim(st.1))));
    }
}

/// The bounds of `t[from..]` without its leading and trailing whitespace.
fn trim_bounds_from(t: &Vec<char>, from: usize) -> (r: (usize, usize))
    requires
        from <= t@.len(),
    ensures
        r.0 <= r.1 <= t@.len(),
        t@.subrange(r.0 as int, r.1 as int) == trim(t@.subrange(from as int, t@.len() as int)),
{
    let mut rest: Vec<char> = Vec::new();
    let mut i = from;
    while i < t.len()
        invariant
            from <= i <= t@.len(),
            rest@ == t@.subrange(from as int, i as int),
        decreases t@.len() - i,
    {
        rest.push(t[i]);
        i = i + 1;
        assert(rest@ =~= t@.subrange(from as int, i as int));
    }
    let (a, b) = trim_bounds(&rest);
    assert(rest@.subrange(a as int, b as int) =~= t@.subrange(from + a, from + b));
    (from + a, from + b)
}

/// Parses LRC formatted lyrics (`[mm:ss.xx]text`, `[mm:ss:xx]text` or
/// `[mm:ss]text`, possibly several timestamps per line) into timed lines,
/// sorted by time.
pub fn parse_lrc(text: &str) -> (r: Vec<SyncedLine>)
    requires
        lrc_fits(text@),
    ensures
        timed_views(r@) == lrc_lines(text@),
{
    let chars = to_chars(text);
    let ls = split_lines(&chars);
    let ghost all = lines(text@);
    let mut entries: Vec<SyncedLine> = Vec::new();
    let mut i: usize = 0;
    while i < ls.len()
        invariant
            i <= ls@.len(),
            char_rows(ls@) == all,
            all == lines(text@),
            lrc_fits(text@),
            timed_views(entries@) == entries_of(all.take(i as int)),
        decreases ls@.len() - i,
    {
        let t = trim_chars(&ls[i]);
        assert(ls@[i as int]@ == all[i as int]);
        assert(leading_stamps_fit(trim(all[i as int])));
        push_line_entries(&t, &mut entries);
        assert(all.take(i + 1).drop_last() =~= all.take(i as int));
        i = i + 1;
    }
    assert(all.take(ls@.len() as int) =~= all);
    sort_lines(entries)
}

/// Whether the arithmetic of the timestamp in `v[from..to]` stays within
/// `i64`, and the timestamp where it does.
fn timestamp_fits(v: &[char], from: usize, to: usize) -> (r: bool)
    requires
        from <= to <= v@.len(),
    ensures
        r == lrc_timestamp_fits(v@.subrange(from as int, to as int)),
{
    let ghost s = v@.subrange(from as int, to as int);
    let mut part: Vec<char> = Vec::new();
    let mut i = from;
    while i < to
        invariant
            from <= i <= to <= v@.len(),
            part@ == v@.subrange(from as int, i as int),
        decreases to - i,
    {
        part.push(v[i]);
        i = i + 1;
        assert(part@ =~= v@.subrange(from as int, i as int));
    }
    let parts = split_chars(&part, part.len(), ':', '.');
    assert(part@.take(part@.len() as int) =~= s);
    let ghost p = split_at_any(s, ':', '.');
    assert(parts@.len() == p.len());
    let lo: i128 = i64::MIN as i128;
    let hi: i128 = i64::MAX as i128;
    if parts.len() == 2 {
        assert(parts@[0]@ == p[0] && parts@[1]@ == p[1]);
        let mins = match parse_i64(&parts[0]) {
            Some(x) => x as i128,
            None => return true,
        };
        let secs = match parse_i64(&parts[1]) {
            Some(x) => x as i128,
            None => return true,
        };
        let a = mins * 60000;
        let b = secs * 1000;
        lo <= a && a <= hi && lo <= b && b <= hi && lo <= a + b && a + b <= hi
    } else if parts.len() == 3 {
        assert(parts@[0]@ == p[0] && parts@[1]@ == p[1] && parts@[2]@ == p[2]);
        let mins = match parse_i64(&parts[0]) {
            Some(x) => x as i128,
            None => return true,
        };
        let secs = match parse_i64(&parts[1]) {
            Some(x) => x as i128,
            None => return true,
        };
        let frac = match parse_i64(&parts[2]) {
            Some(x) => x as i128,
            None => return true,
        };
        let ms = if parts[2].len() == 2 {
            frac * 10
        } else {
            frac
        };
        let a = mins * 60000;
        let b = secs * 1000;
        lo <= ms && ms <= hi && lo <= a && a <= hi && lo <= b && b <= hi && lo <= a + b && a + b
            <= hi && lo <= a + b + ms && a + b + ms <= hi
    } else {
        true
    }
}

/// Whether reading the leading timestamps of `t` stays within `i64`.
fn line_fits(t: &Vec<char>) -> (r: bool)
    ensures
        r == leading_stamps_fit(t@),
{
    let ghost whole = t@;
    let mut pos: usize = 0;
    let n = t.len();
    assert(t@.subrange(0, n as int) =~= t@);
    loop
        invariant
            n == t@.len(),
            whole == t@,
            pos <= n,
            leading_stamps_fit(whole) == leading_stamps_fit(t@.subrange(pos as int, n as int)),
        decreases n - pos,
    {
        let ghost r = t@.subrange(pos as int, n as int);
        if !(pos < n && t[pos] == '[') {
            return true;
        }
        let mut end = pos;
        while end < n && t[end] != ']'
            invariant
                pos <= end <= n,
                n == t@.len(),
                forall|j: int| pos <= j < end ==> t@[j] != ']',
            decreases n - end,
        {
            end = end + 1;
        }
        if end == n {
            assert(!exists|i: int| is_first_close(r, i)) by {
                assert forall|i: int| !is_first_close(r, i) by {
                    if 0 <= i < r.len() {
                        assert(r[i] == t@[pos + i]);
                    }
                }
            }
            return true;
        }
        let ghost rel = end - pos;
        assert(is_first_close(r, rel)) by {
            assert forall|j: int| 0 <= j < rel implies r[j] != ']' by {
                assert(r[j] == t@[pos + j]);
            }
        }
        assert(first_close(r) == rel) by {
            let c = first_close(r);
            assert(is_first_close(r, c));
            if c < rel {
                assert(r[c] == t@[pos + c]);
            }
            if rel < c {
                assert(r[rel] == ']');
            }
        }
        assert(r.subrange(1, rel) =~= t@.subrange(pos + 1, end as int));
        if !timestamp_fits(t.as_slice(), pos + 1, end) {
            return false;
        }
        match timestamp_of(t.as_slice(), pos + 1, end) {
            Some(_) => {
                assert(r.subrange(rel + 1, r.len() as int) =~= t@.subrange(end + 1, n as int));
                pos = end + 1;
            },
            None => {
                return true;
            },
        }
    }
}

/// Whether every line of `text` reads its timestamps within `i64`, so that
/// `parse_lrc` may read it.
pub fn lrc_text_fits(text: &str) -> (r: bool)
    ensures
        r == lrc_fits(text@),
{
    let chars = to_chars(text);
    let ls = split_lines(&chars);
    let ghost all = lines(text@);
    let mut i: usize = 0;
    while i < ls.len()
        invariant
            i <= ls@.len(),
            char_rows(ls@) == all,
            all == lines(text@),
            forall|k: int| 0 <= k < i ==> leading_stamps_fit(trim(#[trigger] all[k])),
        decreases ls@.len() - i,
    {
        let t = trim_chars(&ls[i]);
        assert(ls@[i as int]@ == all[i as int]);
        if !line_fits(&t) {
            return false;
        }
        i = i + 1;
    }
    true
}

/// The timed lines of LRC text, sorted by time; `None` for text whose
/// timestamps do not fit in `i64` milliseconds.
pub fn parse_lrc_checked(text: &str) -> (r: Option<Vec<SyncedLine>>)
    ensures
        r is Some <==> lrc_fits(text@),
        r matches Some(v) ==> timed_views(v@) == lrc_lines(text@),
{
    if lrc_text_fits(text) {
        Some(parse_lrc(text))
    } else {
        None
    }
}

/// The timed lines sorted by time, stably.
fn sort_lines(entries: Vec<SyncedLine>) -> (r: Vec<SyncedLine>)
    ensures
        timed_views(r@) == sort_by_time(timed_views(entries@)),
{
    let ghost src = timed_views(entries@);
    let mut sorted: Vec<SyncedLine> = Vec::new();
    let mut input = entries;
    let mut rev: Vec<SyncedLine> = Vec::new();
    // Reverse first so that popping yields the lines in the order they came.
    while input.len() > 0
        invariant
            timed_views(input@) + timed_views(rev@).reverse() == src,
        decreases input@.len(),
    {
        let e = input.pop().unwrap();
        let ghost before = timed_views(rev@).reverse();
        rev.push(e);
        assert(timed_views(rev@).reverse() =~= seq![e@] + before);
        assert(timed_views(input@) + timed_views(rev@).reverse() =~= src);
    }
    assert(timed_views(rev@).reverse() =~= src);
    let ghost n = src.len();
    while rev.len() > 0
        invariant
            timed_views(rev@).reverse() == src.skip(n - rev@.len()),
            timed_views(sorted@) == sort_by_time(src.take(n - rev@.len())),
            rev@.len() <= n,
            n == src.len(),
        decreases rev@.len(),
    {
        let ghost before = rev@;
        let e = rev.pop().unwrap();
        let ghost done = n - rev@.len() - 1;
        assert(before =~= rev@.push(e));
        assert(timed_views(before).reverse() =~= seq![e@] + timed_views(rev@).reverse());
        assert(src.skip(done)[0] == e@);
        assert(src.skip(done).drop_first() =~= src.skip(done + 1));
        assert(timed_views(rev@).reverse() =~= src.skip(done + 1));
        let ghost s = timed_views(sorted@);
        let mut p = sorted.len();
        while p > 0 && sorted[p - 1].start_ms > e.start_ms
            invariant
                p <= sorted@.len(),
                s == timed_views(sorted@),
                forall|k: int| p <= k < s.len() ==> s[k].0 > e@.0,
            decreases p,
        {
            p = p - 1;
        }
        proof {
            lemma_insert_at(s, e@, p as int);
            assert(src.take(done + 1).drop_last() =~= src.take(done));
            assert(src.take(done + 1).last() == e@);
        }
        sorted.insert(p, e);
        assert(timed_views(sorted@) =~= s.take(p as int).push(e@) + s.skip(p as int));
    }
    assert(src.take(n as int) =~= src);
    sorted
}

// ---------------------------------------------------------------------------
// Recognising LRC and splitting plain lyrics
// ---------------------------------------------------------------------------
/// A line that starts like an LRC timestamp: `[` then a digit, with more
/// than three bytes in all.
pub open spec fn starts_like_lrc(t: Seq<char>) -> bool {
    &&& t.len() > 1
    &&& t[0] == '['
    &&& utf8_len(t) > 3
    &&& is_digit(t[1])
}

/// Whether one of the first ten lines of `text`, trimmed, starts like LRC.
pub open spec fn spec_looks_like_lrc(text: Seq<char>) -> bool {
    exists|i: int| 0 <= i < 10 && 0 <= i < lines(text).len() && starts_like_lrc(trim(#[trigger] lines(text)[i]))
}

/// Lyrics look like LRC exactly when one of their first ten lines, trimmed,
/// starts like an LRC line: any such line among the first ten makes them
/// LRC, and lines after the tenth are never looked at.
pub proof fn lemma_looks_like_lrc_first_ten(text: Seq<char>, i: int)
    ensures
        0 <= i < 10 && i < lines(text).len() && starts_like_lrc(trim(lines(text)[i]))
            ==> spec_looks_like_lrc(text),
        (forall|j: int|
            0 <= j < 10 && j < lines(text).len() ==> !starts_like_lrc(#[trigger] trim(lines(text)[j])))
            ==> !spec_looks_like_lrc(text),
{
}

/// The byte length of `v` in UTF-8.
fn utf8_length(v: &[char]) -> (r: usize)
    requires
        v@.len() <= 0x1000_0000,
    ensures
        r == utf8_len(v@),
{
    let mut total: usize = 0;
    let mut i: usize = 0;
    while i < v.len()
        invariant
            i <= v@.len() <= 0x1000_0000,
            total == utf8_len(v@.take(i as int)),
            total <= 4 * i,
        decreases v@.len() - i,
    {
        let u = v[i] as u32;
        let w: usize = if u < 0x80 {
            1
        } else if u < 0x800 {
            2
        } else if u < 0x10000 {
            3
        } else {
            4
        };
        assert(v@.take(i + 1).drop_last() =~= v@.take(i as int));
        total = total + w;
        i = i + 1;
    }
    assert(v@.take(v@.len() as int) =~= v@);
    total
}

/// The UTF-8 length grows with the number of characters.
proof fn lemma_utf8_len_ge(s: Seq<char>)
    ensures
        utf8_len(s) >= s.len(),
    decreases s.len(),
{
    if s.len() > 0 {
        lemma_utf8_len_ge(s.drop_last());
    }
}

/// Whether the trimmed line `t` starts like an LRC timestamp.
fn line_starts_like_lrc(t: &Vec<char>) -> (r: bool)
    ensures
        r == starts_like_lrc(t@),
{
    if t.len() > 1 && t[0] == '[' && '0' <= t[1] && t[1] <= '9' {
        if t.len() > 3 {
            proof {
                lemma_utf8_len_ge(t@);
            }
            true
        } else {
            let len = utf8_length(t);
            len > 3
        }
    } else {
        false
    }
}

/// Checks if text looks like LRC format: one of its first ten lines starts
/// with a bracketed timestamp such as `[00:00.00]`, `[mm:ss:xx]` or `[mm:ss]`.
pub fn looks_like_lrc(text: &str) -> (r: bool)
    ensures
        r == spec_looks_like_lrc(text@),
{
    let chars = to_chars(text);
    let ls = split_lines(&chars);
    let ghost all = lines(text@);
    let mut i: usize = 0;
    while i < ls.len() && i < 10
        invariant
            i <= ls@.len(),
            i <= 10,
            char_rows(ls@) == all,
            all == lines(text@),
            forall|j: int| 0 <= j < i ==> !starts_like_lrc(trim(#[trigger] all[j])),
        decreases ls@.len() - i,
    {
        let t = trim_chars(&ls[i]);
        assert(ls@[i as int]@ == all[i as int]);
        if line_starts_like_lrc(&t) {
            assert(starts_like_lrc(trim(all[i as int])));
            return true;
        }
        i = i + 1;
    }
    false
}

/// The trimmed, non-empty lines of `ls`.
pub open spec fn nonempty_trimmed(ls: Seq<Seq<char>>) -> Seq<Seq<char>>
    decreases ls.len(),
{
    if ls.len() == 0 {
        Seq::empty()
    } else if trim(ls.last()).len() > 0 {
        nonempty_trimmed(ls.drop_last()).push(trim(ls.last()))
    } else {
        nonempty_trimmed(ls.drop_last())
    }
}

/// The strings of a vector of strings.
pub open spec fn string_views(v: Seq<String>) -> Seq<Seq<char>> {
    Seq::new(v.len(), |i: int| v[i]@)
}

/// Parses unsynchronized lyrics into their lines, trimmed, without the
/// empty ones.
pub fn parse_unsynced(text: &str) -> (r: Vec<String>)
    ensures
        string_views(r@) == nonempty_trimmed(lines(text@)),
{
    let chars = to_chars(text);
    let ls = split_lines(&chars);
    let ghost all = lines(text@);
    let mut out: Vec<String> = Vec::new();
    let mut i: usize = 0;
    while i < ls.len()
        invariant
            i <= ls@.len(),
            char_rows(ls@) == all,
            string_views(out@) == nonempty_trimmed(all.take(i as int)),
        decreases ls@.len() - i,
    {
        let t = trim_chars(&ls[i]);
        assert(ls@[i as int]@ == all[i as int]);
        assert(all.take(i + 1).drop_last() =~= all.take(i as int));
        if t.len() > 0 {
            let s = string_from(&t, 0, t.len());
            assert(t@.subrange(0, t@.len() as int) =~= t@);
            out.push(s);
            assert(string_views(out@) =~= nonempty_trimmed(all.take(i as int)).push(t@));
        }
        i = i + 1;
    }
    assert(all.take(ls@.len() as int) =~= all);
    out
}

/// Text that is present and not blank.
pub open spec fn has_text(t: Option<Seq<char>>) -> bool {
    t is Some && trim(t->0).len() > 0
}

/// Whether text is not blank.
fn not_blank(t: &str) -> (r: bool)
    ensures
        r == (trim(t@).len() > 0),
{
    let v = to_chars(t);
    let (a, b) = trim_bounds(v.as_slice());
    a < b
}

/// Whether an entry holds the given lyrics, not synchronized unless they
/// look like LRC, with no language or description.
pub open spec fn is_plain_entry(e: ExtractedLyrics, text: Seq<char>) -> bool {
    &&& e.text@ == text
    &&& e.synced == spec_looks_like_lrc(text)
    &&& e.lang is None
    &&& e.description is None
}

/// Whether an entry holds the given synchronized lyrics, described as
/// `synced`.
pub open spec fn is_synced_entry(e: ExtractedLyrics, text: Seq<char>) -> bool {
    &&& e.text@ == text
    &&& e.synced
    &&& e.lang is None
    &&& e.description matches Some(d) && d@ == "synced"@
}

/// The lyrics entries that an audio file's tags give: the lyrics tag, when
/// it is not blank, synchronized when it looks like LRC; then the
/// `SYNCEDLYRICS` tag, when it is not blank and not the same text as the
/// first entry.
pub fn lyrics_from_tags(lyrics: Option<&str>, synced: Option<&str>) -> (r: Vec<ExtractedLyrics>)
    ensures
        ({
            let l = match lyrics {
                Some(t) => Some(t@),
                None => None,
            };
            let s = match synced {
                Some(t) => Some(t@),
                None => None,
            };
            let second = has_text(s) && !(has_text(l) && l->0 == s->0);
            &&& r@.len() == (if has_text(l) {
                1int
            } else {
                0
            }) + (if second {
                1int
            } else {
                0
            })
            &&& has_text(l) ==> is_plain_entry(r@[0], l->0)
            &&& second ==> is_synced_entry(r@[r@.len() - 1], s->0)
        }),
{
    let mut results: Vec<ExtractedLyrics> = Vec::new();
    match lyrics {
        Some(t) => {
            if not_blank(t) {
                let synced_flag = looks_like_lrc(t);
                results.push(
                    ExtractedLyrics {
                        text: t.to_string(),
                        synced: synced_flag,
                        lang: None,
                        description: None,
                    },
                );
            }
        },
        None => {},
    }
    match synced {
        Some(t) => {
            if not_blank(t) {
                let duplicate = results.len() > 0 && crate::media::str_eq(
                    results[0].text.as_str(),
                    t,
                );
                if !duplicate {
                    results.push(
                        ExtractedLyrics {
                            text: t.to_string(),
                            synced: true,
                            lang: None,
                            description: Some("synced".to_string()),
                        },
                    );
                }
            }
        },
        None => {},
    }
    results
}

} // verus!
