//! Writing history entries out as text, subtitles, JSON and Markdown.

use vstd::prelude::*;
use crate::clock::now_seconds;
use crate::history::{EntryView, HistoryEntry};
use crate::text::{
    chars_of, digits_of, is_whitespace, is_ws, padded_digits_of, push_chars, push_decimal, push_padded_decimal,
    push_signed_decimal, push_text, signed_digits_of,
};

verus! {

/// The formats an entry can be written in.
#[derive(Clone, Copy, Debug, PartialEq, Eq, Structural)]
pub enum ExportFormat {
    Txt,
    Srt,
    Vtt,
    Json,
    Markdown,
}

impl ExportFormat {
    /// The ending of a file in this format.
    pub open spec fn extension(self) -> Seq<char> {
        match self {
            ExportFormat::Txt => "txt"@,
            ExportFormat::Srt => "srt"@,
            ExportFormat::Vtt => "vtt"@,
            ExportFormat::Json => "json"@,
            ExportFormat::Markdown => "md"@,
        }
    }

    /// The media type of a file in this format.
    pub open spec fn media_type(self) -> Seq<char> {
        match self {
            ExportFormat::Txt => "text/plain"@,
            ExportFormat::Srt => "application/x-subrip"@,
            ExportFormat::Vtt => "text/vtt"@,
            ExportFormat::Json => "application/json"@,
            ExportFormat::Markdown => "text/markdown"@,
        }
    }

    pub fn file_extension(&self) -> (s: &'static str)
        ensures
            s@ == self.extension(),
    {
        match self {
            ExportFormat::Txt => "txt",
            ExportFormat::Srt => "srt",
            ExportFormat::Vtt => "vtt",
            ExportFormat::Json => "json",
            ExportFormat::Markdown => "md",
        }
    }

    pub fn mime_type(&self) -> (s: &'static str)
        ensures
            s@ == self.media_type(),
    {
        match self {
            ExportFormat::Txt => "text/plain",
            ExportFormat::Srt => "application/x-subrip",
            ExportFormat::Vtt => "text/vtt",
            ExportFormat::Json => "application/json",
            ExportFormat::Markdown => "text/markdown",
        }
    }

    /// The format's short name, which is also the ending of its files.
    pub fn to_string(&self) -> (s: String)
        ensures
            s@ == self.extension(),
    {
        self.file_extension().to_owned()
    }
}

/// How a date is written for the reader: month, day, year, and the time by the
/// twelve-hour clock.
pub const DATE_PATTERN: &'static str = "%B %e, %Y %l:%M %p";

/// How a date is written in a file name.
pub const FILE_STAMP_PATTERN: &'static str = "%Y-%m-%d_%H%M%S";

/// The first second that has a date: the start of the year -262143.
pub const FIRST_DATED_SECOND: i64 = -8_334_601_228_800;

/// The last second that has a date: the end of the year 262142.
pub const LAST_DATED_SECOND: i64 = 8_210_266_876_799;

/// Whether the time `timestamp`, in seconds since the epoch, has a date.
pub open spec fn has_date(timestamp: i64) -> bool {
    FIRST_DATED_SECOND <= timestamp <= LAST_DATED_SECOND
}

/// The time `timestamp`, in seconds since the epoch, written in the machine's time zone
/// after `pattern`: chrono's `DateTime::from_timestamp`, `DateTime::with_timezone` with
/// `Local`, and `DateTime::format`. `None` where chrono cannot represent the time, which
/// is so outside the years from -262143 to 262142 and nowhere else. What is written
/// depends on the machine's time zone, so nothing is claimed of it. The two patterns
/// admitted are well-formed; chrono fails on a pattern that is not.
#[verifier::external_body]
fn local_time_text(timestamp: i64, pattern: &str) -> (r: Option<String>)
    requires
        pattern@ == "%B %e, %Y %l:%M %p"@ || pattern@ == "%Y-%m-%d_%H%M%S"@,
    ensures
        r is Some <==> has_date(timestamp),
{
    match chrono::DateTime::from_timestamp(timestamp, 0) {
        Some(utc) => Some(utc.with_timezone(&chrono::Local).format(pattern).to_string()),
        None => None,
    }
}

/// `text` as a JSON string, in quotes and with what JSON cannot hold as it is written as
/// escapes: what serde_json's `to_string` makes of a string slice.
pub uninterp spec fn json_quoted(text: Seq<char>) -> Result<Seq<char>, Seq<char>>;

/// Writes `text` as a JSON string: serde_json's `to_string`. It fails only where the
/// value refuses to be written or the writer fails, and a string slice written to
/// memory does neither: the result is `Ok`.
#[verifier::external_body]
fn quote_json(text: &str) -> (r: Result<String, String>)
    ensures
        r is Ok,
        match r {
            Ok(s) => json_quoted(text@) == Ok::<Seq<char>, Seq<char>>(s@),
            Err(e) => json_quoted(text@) == Err::<Seq<char>, Seq<char>>(e@),
        },
{
    serde_json::to_string(text).map_err(|e| e.to_string())
}

/// The date shown where the time zone database has no date for `timestamp`.
pub open spec fn unknown_date(timestamp: i64) -> Seq<char> {
    "Unknown ("@ + signed_digits_of(timestamp as int) + ")"@
}

/// The date shown for `timestamp`: `local` if there is one.
pub fn date_or_unknown(local: Option<String>, timestamp: i64) -> (date: String)
    ensures
        date@ == (match local {
            Some(d) => d@,
            None => unknown_date(timestamp),
        }),
{
    match local {
        Some(d) => d,
        None => {
            let mut s = "Unknown (".to_owned();
            push_signed_decimal(&mut s, timestamp);
            push_text(&mut s, ")");
            s
        },
    }
}

/// The date of `timestamp` in the machine's time zone, for the reader; where there is
/// none, "Unknown" with the number of the time stamp.
pub fn format_timestamp(timestamp: i64) -> (date: String)
    ensures
        !has_date(timestamp) ==> date@ == unknown_date(timestamp),
{
    date_or_unknown(local_time_text(timestamp, DATE_PATTERN), timestamp)
}

/// The text of an entry that is written out: the processed text if there is one.
pub open spec fn text_of(e: EntryView) -> Seq<char> {
    match e.post_processed_text {
        Some(t) => t,
        None => e.transcription_text,
    }
}

fn entry_text(entry: &HistoryEntry) -> (t: &str)
    ensures
        t@ == text_of(entry@),
{
    match &entry.post_processed_text {
        Some(t) => t.as_str(),
        None => entry.transcription_text.as_str(),
    }
}

/// An entry as plain text under the date `date`.
pub open spec fn txt_of(e: EntryView, date: Seq<char>) -> Seq<char> {
    "Transcription - "@ + date + "\n\n"@ + text_of(e) + "\n"@
}

/// An entry as plain text under the date `date`.
pub fn export_as_txt_dated(entry: &HistoryEntry, date: &str) -> (out: String)
    ensures
        out@ == txt_of(entry@, date@),
{
    let mut out = "Transcription - ".to_owned();
    push_text(&mut out, date);
    push_text(&mut out, "\n\n");
    push_text(&mut out, entry_text(entry));
    push_text(&mut out, "\n");
    out
}

/// An entry as plain text, under its date in the machine's time zone.
pub fn export_as_txt(entry: &HistoryEntry) -> (out: String)
    ensures
        exists|date: Seq<char>| out@ == txt_of(entry@, date),
{
    let date = format_timestamp(entry.timestamp);
    export_as_txt_dated(entry, date.as_str())
}

/// An entry as Markdown under the date `date`; an entry with a processed text shows its
/// first transcript below.
pub open spec fn markdown_of(e: EntryView, date: Seq<char>) -> Seq<char> {
    "# Transcription\n\n**Date:** "@ + date + "\n\n"@ + "## Text\n\n"@ + text_of(e) + "\n"@ + (
    if e.post_processed_text is Some {
        "\n## Original Transcription\n\n"@ + e.transcription_text + "\n"@
    } else {
        Seq::empty()
    })
}

/// An entry as Markdown under the date `date`.
pub fn export_as_markdown_dated(entry: &HistoryEntry, date: &str) -> (out: String)
    ensures
        out@ == markdown_of(entry@, date@),
{
    let mut out = "# Transcription\n\n**Date:** ".to_owned();
    push_text(&mut out, date);
    push_text(&mut out, "\n\n");
    push_text(&mut out, "## Text\n\n");
    push_text(&mut out, entry_text(entry));
    push_text(&mut out, "\n");
    if entry.post_processed_text.is_some() {
        push_text(&mut out, "\n## Original Transcription\n\n");
        push_text(&mut out, entry.transcription_text.as_str());
        push_text(&mut out, "\n");
        assert(out@ =~= markdown_of(entry@, date@));
    } else {
        assert(out@ =~= markdown_of(entry@, date@));
    }
    out
}

/// An entry as Markdown, under its date in the machine's time zone.
pub fn export_as_markdown(entry: &HistoryEntry) -> (out: String)
    ensures
        exists|date: Seq<char>| out@ == markdown_of(entry@, date),
{
    let date = format_timestamp(entry.timestamp);
    export_as_markdown_dated(entry, date.as_str())
}

/// The words of `text` from position `i` on, `cur` being the word in work: the
/// stretches of `text` without white space.
pub open spec fn words_from(text: Seq<char>, i: int, cur: Seq<char>) -> Seq<Seq<char>>
    decreases text.len() - i,
{
    let done = if cur.len() > 0 {
        seq![cur]
    } else {
        Seq::<Seq<char>>::empty()
    };
    if i < 0 || i >= text.len() {
        done
    } else if is_ws(text[i]) {
        done + words_from(text, i + 1, Seq::empty())
    } else {
        words_from(text, i + 1, cur.push(text[i]))
    }
}

/// The words of `text`.
pub open spec fn words_of(text: Seq<char>) -> Seq<Seq<char>> {
    words_from(text, 0, Seq::empty())
}

/// The characters of each word of `v`.
pub open spec fn word_views(v: Seq<Vec<char>>) -> Seq<Seq<char>> {
    v.map_values(|w: Vec<char>| w@)
}

/// The words of `text`.
pub fn split_words(text: &str) -> (words: Vec<Vec<char>>)
    ensures
        word_views(words@) == words_of(text@),
{
    let t = chars_of(text);
    let mut words: Vec<Vec<char>> = Vec::new();
    let mut cur: Vec<char> = Vec::new();
    let mut i: usize = 0;
    assert(word_views(words@) =~= Seq::<Seq<char>>::empty());
    assert(Seq::<Seq<char>>::empty() + words_from(t@, 0, cur@) =~= words_of(t@));
    while i < t.len()
        invariant
            i <= t.len(),
            t@ == text@,
            word_views(words@) + words_from(t@, i as int, cur@) == words_of(t@),
        decreases t.len() - i,
    {
        let ghost before = word_views(words@);
        if is_whitespace(t[i]) {
            if cur.len() > 0 {
                let mut word: Vec<char> = Vec::new();
                core::mem::swap(&mut word, &mut cur);
                words.push(word);
                proof {
                    let rest = words_from(t@, i + 1, Seq::empty());
                    assert(word_views(words@) =~= before.push(word@));
                    assert(before.push(word@) + rest =~= before + (seq![word@] + rest));
                }
            } else {
                proof {
                    let rest = words_from(t@, i + 1, Seq::empty());
                    assert(cur@ =~= Seq::<char>::empty());
                    assert(Seq::<Seq<char>>::empty() + rest =~= rest);
                }
            }
        } else {
            cur.push(t[i]);
        }
        i += 1;
    }
    if cur.len() > 0 {
        let ghost before = word_views(words@);
        words.push(cur);
        assert(word_views(words@) =~= before.push(cur@));
        assert(before.push(cur@) =~= before + seq![cur@]);
    } else {
        assert(word_views(words@) + Seq::<Seq<char>>::empty() =~= word_views(words@));
    }
    words
}

/// How many words one subtitle holds.
pub const WORDS_PER_CUE: usize = 10;

/// How long reading `w` words takes, in milliseconds: 400 for each word, which is 150
/// words a minute, and never less than a second.
pub open spec fn reading_ms(w: nat) -> nat {
    if 400 * w > 1000 {
        400 * w
    } else {
        1000
    }
}

/// When subtitle `c` of a text of `w` words begins, in milliseconds: each word has the
/// same share of the reading time.
pub open spec fn cue_start_ms(c: nat, w: nat) -> nat {
    if w >= 3 {
        4000 * c
    } else if w > 0 {
        ((c * 10 * 1000) as int / (w as int)) as nat
    } else {
        0
    }
}

/// When subtitle `c` of a text of `w` words ends, in milliseconds: where the next one
/// begins, but not after the reading time.
pub open spec fn cue_end_ms(c: nat, w: nat) -> nat {
    if cue_start_ms(c + 1, w) < reading_ms(w) {
        cue_start_ms(c + 1, w)
    } else {
        reading_ms(w)
    }
}

/// A time in milliseconds as subtitles write it: hours, minutes and seconds in two
/// digits each, then a comma or a full stop and the milliseconds in three digits.
pub open spec fn subtitle_time_of(ms: nat, use_comma: bool) -> Seq<char> {
    padded_digits_of(ms / 3_600_000, 2) + ":"@ + padded_digits_of((ms % 3_600_000) / 60_000, 2) + ":"@
        + padded_digits_of((ms % 60_000) / 1000, 2) + (if use_comma {
        ","@
    } else {
        "."@
    }) + padded_digits_of(ms % 1000, 3)
}

/// A time in milliseconds as subtitles write it.
pub fn format_subtitle_time(ms: u64, use_comma: bool) -> (out: String)
    ensures
        out@ == subtitle_time_of(ms as nat, use_comma),
{
    subtitle_time_text(ms as u128, use_comma)
}

fn subtitle_time_text(ms: u128, use_comma: bool) -> (out: String)
    requires
        ms / 3_600_000 <= u64::MAX,
    ensures
        out@ == subtitle_time_of(ms as nat, use_comma),
{
    let mut out = String::new();
    push_padded_decimal(&mut out, (ms / 3_600_000) as u64, 2);
    push_text(&mut out, ":");
    push_padded_decimal(&mut out, ((ms % 3_600_000) / 60_000) as u64, 2);
    push_text(&mut out, ":");
    push_padded_decimal(&mut out, ((ms % 60_000) / 1000) as u64, 2);
    if use_comma {
        push_text(&mut out, ",");
    } else {
        push_text(&mut out, ".");
    }
    push_padded_decimal(&mut out, (ms % 1000) as u64, 3);
    assert(out@ =~= subtitle_time_of(ms as nat, use_comma));
    out
}

/// The words `lo` up to `hi` of `words` with a space between each two.
pub open spec fn spaced(words: Seq<Seq<char>>, lo: int, hi: int) -> Seq<char>
    decreases hi - lo,
{
    if lo < 0 || hi > words.len() || lo >= hi {
        Seq::empty()
    } else if lo + 1 == hi {
        words[lo]
    } else {
        spaced(words, lo, hi - 1) + " "@ + words[hi - 1]
    }
}

/// Where the words of subtitle `c` end.
pub open spec fn cue_words_end(c: nat, w: nat) -> nat {
    if (c + 1) * 10 < w {
        (c + 1) * 10
    } else {
        w
    }
}

/// The lines above the words of subtitle `c` of a text of `w` words: in SubRip its
/// number on a line of its own, then the line of its times.
pub open spec fn cue_head_of(c: nat, w: nat, srt: bool) -> Seq<char> {
    (if srt {
        digits_of(c + 1) + "\n"@
    } else {
        Seq::<char>::empty()
    }) + subtitle_time_of(cue_start_ms(c, w), srt) + " --> "@ + subtitle_time_of(cue_end_ms(c, w), srt)
        + "\n"@
}

/// Subtitle `c` of `words`: its head, then its words, then an empty line.
pub open spec fn cue_of(words: Seq<Seq<char>>, c: nat, srt: bool) -> Seq<char> {
    cue_head_of(c, words.len(), srt) + spaced(words, (c * 10) as int, cue_words_end(c, words.len()) as int)
        + "\n\n"@
}

/// The subtitles of `words` from subtitle `c` on.
pub open spec fn cues_from(words: Seq<Seq<char>>, c: nat, srt: bool) -> Seq<char>
    decreases words.len() - c,
{
    if c * 10 >= words.len() {
        Seq::empty()
    } else {
        cue_of(words, c, srt) + cues_from(words, c + 1, srt)
    }
}

/// An entry in SubRip: its text in subtitles of ten words.
pub open spec fn srt_of(e: EntryView) -> Seq<char> {
    cues_from(words_of(text_of(e)), 0, true)
}

/// The subtitles of an entry in WebVTT, without the header.
pub open spec fn vtt_cues_of(e: EntryView) -> Seq<char> {
    cues_from(words_of(text_of(e)), 0, false)
}

/// An entry in WebVTT: the header and the entry's text in subtitles of ten words.
pub open spec fn vtt_of(e: EntryView) -> Seq<char> {
    "WEBVTT\n\n"@ + vtt_cues_of(e)
}

fn push_spaced(out: &mut String, words: &Vec<Vec<char>>, lo: usize, hi: usize)
    requires
        lo <= hi <= words@.len(),
    ensures
        final(out)@ == old(out)@ + spaced(word_views(words@), lo as int, hi as int),
{
    let ghost w = word_views(words@);
    let mut k: usize = lo;
    assert(old(out)@ + spaced(w, lo as int, lo as int) =~= old(out)@);
    while k < hi
        invariant
            lo <= k <= hi <= words@.len(),
            w == word_views(words@),
            out@ == old(out)@ + spaced(w, lo as int, k as int),
        decreases hi - k,
    {
        if k > lo {
            out.push(' ');
        }
        push_chars(out, words[k].as_slice());
        proof {
            reveal_strlit(" ");
            assert(" "@ =~= seq![' ']);
            if k > lo {
                assert(out@ =~= old(out)@ + (spaced(w, lo as int, k as int) + " "@ + w[k as int]));
            } else {
                assert(spaced(w, lo as int, lo as int) =~= Seq::<char>::empty());
                assert(out@ =~= old(out)@ + w[k as int]);
            }
        }
        k += 1;
    }
}

fn cue_times(c: usize, w: usize) -> (t: (u128, u128))
    requires
        c * 10 < w,
    ensures
        t.0 == cue_start_ms(c as nat, w as nat),
        t.1 == cue_end_ms(c as nat, w as nat),
        t.0 / 3_600_000 <= u64::MAX,
        t.1 / 3_600_000 <= u64::MAX,
{
    let total: u128 = if w >= 3 {
        400 * (w as u128)
    } else {
        1000
    };
    let start: u128 = if w >= 3 {
        4000 * (c as u128)
    } else {
        0
    };
    let next: u128 = if w >= 3 {
        4000 * (c as u128 + 1)
    } else {
        10000 / (w as u128)
    };
    let end = if next < total {
        next
    } else {
        total
    };
    (start, end)
}

fn cue_head(c: usize, n: usize, srt: bool) -> (head: String)
    requires
        c * 10 < n,
    ensures
        head@ == cue_head_of(c as nat, n as nat, srt),
{
    let (start, end) = cue_times(c, n);
    let mut head = String::new();
    if srt {
        push_decimal(&mut head, c as u64 + 1);
        push_text(&mut head, "\n");
    }
    let s = subtitle_time_text(start, srt);
    let e = subtitle_time_text(end, srt);
    push_text(&mut head, s.as_str());
    push_text(&mut head, " --> ");
    push_text(&mut head, e.as_str());
    push_text(&mut head, "\n");
    assert(head@ =~= cue_head_of(c as nat, n as nat, srt));
    head
}

fn push_cue(out: &mut String, words: &Vec<Vec<char>>, c: usize, srt: bool)
    requires
        c * 10 < words@.len(),
    ensures
        final(out)@ == old(out)@ + cue_of(word_views(words@), c as nat, srt),
{
    let ghost w = word_views(words@);
    let n = words.len();
    let head = cue_head(c, n, srt);
    push_text(out, head.as_str());
    let lo = c * 10;
    let hi = if n - lo > 10 {
        lo + 10
    } else {
        n
    };
    assert(hi == cue_words_end(c as nat, n as nat));
    push_spaced(out, words, lo, hi);
    push_text(out, "\n\n");
    proof {
        let a = head@;
        let b = spaced(w, lo as int, hi as int);
        let nn = "\n\n"@;
        assert(((old(out)@ + a) + b) + nn =~= old(out)@ + ((a + b) + nn));
    }
}

fn push_cues(out: &mut String, words: &Vec<Vec<char>>, srt: bool)
    ensures
        final(out)@ == old(out)@ + cues_from(word_views(words@), 0, srt),
{
    let ghost w = word_views(words@);
    let n = words.len();
    let mut c: usize = 0;
    let ghost mut done: Seq<char> = Seq::empty();
    assert(old(out)@ + done =~= old(out)@);
    assert(done + cues_from(w, 0, srt) =~= cues_from(w, 0, srt));
    while n > 0 && c <= (n - 1) / 10
        invariant
            n == words@.len(),
            w == word_views(words@),
            c <= n,
            out@ == old(out)@ + done,
            done + cues_from(w, c as nat, srt) == cues_from(w, 0, srt),
        decreases n - c,
    {
        let ghost before = out@;
        push_cue(out, words, c, srt);
        proof {
            let cue = cue_of(w, c as nat, srt);
            let rest = cues_from(w, (c + 1) as nat, srt);
            assert((done + cue) + rest =~= done + (cue + rest));
            assert(before + cue =~= old(out)@ + (done + cue));
            done = done + cue;
        }
        c += 1;
    }
    proof {
        assert(cues_from(w, c as nat, srt) =~= Seq::<char>::empty());
        assert(done + Seq::<char>::empty() =~= done);
    }
}

/// An entry in SubRip. The times are estimates from the count of words.
pub fn export_as_srt(entry: &HistoryEntry) -> (out: String)
    ensures
        out@ == srt_of(entry@),
{
    let words = split_words(entry_text(entry));
    let mut out = String::new();
    push_cues(&mut out, &words, true);
    assert(Seq::<char>::empty() + srt_of(entry@) =~= srt_of(entry@));
    out
}

/// An entry in WebVTT. The times are estimates from the count of words.
pub fn export_as_vtt(entry: &HistoryEntry) -> (out: String)
    ensures
        out@ == vtt_of(entry@),
{
    let words = split_words(entry_text(entry));
    let mut out = "WEBVTT\n\n".to_owned();
    push_cues(&mut out, &words, false);
    out
}

/// An entry as a JSON object, each line behind `pad`: the id, the time stamp, the date,
/// the transcript and the processed text, which is `null` where there is none. An error
/// of writing a string comes back as it is.
pub open spec fn json_of(e: EntryView, date: Seq<char>, pad: Seq<char>) -> Result<Seq<char>, Seq<char>> {
    match (json_quoted(date), json_quoted(e.transcription_text)) {
        (Err(err), _) => Err(err),
        (Ok(_), Err(err)) => Err(err),
        (Ok(d), Ok(t)) => {
            let p: Result<Seq<char>, Seq<char>> = match e.post_processed_text {
                Some(x) => json_quoted(x),
                None => Ok("null"@),
            };
            match p {
                Err(err) => Err(err),
                Ok(q) => Ok(
                    pad + "{\n"@ + pad + "  \"id\": "@ + signed_digits_of(e.id as int) + ",\n"@ + pad
                        + "  \"timestamp\": "@ + signed_digits_of(e.timestamp as int) + ",\n"@ + pad
                        + "  \"date\": "@ + d + ",\n"@ + pad + "  \"transcription\": "@ + t + ",\n"@
                        + pad + "  \"post_processed\": "@ + q + "\n"@ + pad + "}"@,
                ),
            }
        },
    }
}

/// The characters of a result, whichever way it went.
pub open spec fn result_chars(r: Result<String, String>) -> Result<Seq<char>, Seq<char>> {
    match r {
        Ok(s) => Ok(s@),
        Err(e) => Err(e@),
    }
}

/// An entry as a JSON object under the date `date`, each line behind `pad`.
pub fn export_as_json_dated(entry: &HistoryEntry, date: &str, pad: &str) -> (out: Result<String, String>)
    ensures
        out is Ok,
        result_chars(out) == json_of(entry@, date@, pad@),
{
    let d = match quote_json(date) {
        Ok(d) => d,
        Err(e) => {
            return Err(e);
        },
    };
    let t = match quote_json(entry.transcription_text.as_str()) {
        Ok(t) => t,
        Err(e) => {
            return Err(e);
        },
    };
    let q = match &entry.post_processed_text {
        Some(x) => match quote_json(x.as_str()) {
            Ok(q) => q,
            Err(e) => {
                return Err(e);
            },
        },
        None => "null".to_owned(),
    };
    let mut out = pad.to_owned();
    push_text(&mut out, "{\n");
    push_text(&mut out, pad);
    push_text(&mut out, "  \"id\": ");
    push_signed_decimal(&mut out, entry.id);
    push_text(&mut out, ",\n");
    push_text(&mut out, pad);
    push_text(&mut out, "  \"timestamp\": ");
    push_signed_decimal(&mut out, entry.timestamp);
    push_text(&mut out, ",\n");
    push_text(&mut out, pad);
    push_text(&mut out, "  \"date\": ");
    push_text(&mut out, d.as_str());
    push_text(&mut out, ",\n");
    push_text(&mut out, pad);
    push_text(&mut out, "  \"transcription\": ");
    push_text(&mut out, t.as_str());
    push_text(&mut out, ",\n");
    push_text(&mut out, pad);
    push_text(&mut out, "  \"post_processed\": ");
    push_text(&mut out, q.as_str());
    push_text(&mut out, "\n");
    push_text(&mut out, pad);
    push_text(&mut out, "}");
    Ok(out)
}

/// An entry as a JSON object, under its date in the machine's time zone.
pub fn export_as_json(entry: &HistoryEntry) -> (out: Result<String, String>)
    ensures
        out is Ok,
        exists|date: Seq<char>| result_chars(out) == json_of(entry@, date, Seq::empty()),
{
    let date = format_timestamp(entry.timestamp);
    let out = export_as_json_dated(entry, date.as_str(), "");
    proof {
        reveal_strlit("");
        assert(""@ =~= Seq::<char>::empty());
    }
    out
}

/// An entry in `format` under the date `date`.
pub open spec fn entry_in(e: EntryView, format: ExportFormat, date: Seq<char>) -> Result<Seq<char>, Seq<char>> {
    match format {
        ExportFormat::Txt => Ok(txt_of(e, date)),
        ExportFormat::Srt => Ok(srt_of(e)),
        ExportFormat::Vtt => Ok(vtt_of(e)),
        ExportFormat::Json => json_of(e, date, Seq::empty()),
        ExportFormat::Markdown => Ok(markdown_of(e, date)),
    }
}

/// An entry in `format`, under its date in the machine's time zone where the format
/// shows one.
pub fn export_entry(entry: &HistoryEntry, format: &ExportFormat) -> (out: Result<String, String>)
    ensures
        out is Ok,
        exists|date: Seq<char>| result_chars(out) == entry_in(entry@, *format, date),
{
    match format {
        ExportFormat::Txt => {
            let date = format_timestamp(entry.timestamp);
            let out = Ok(export_as_txt_dated(entry, date.as_str()));
            assert(result_chars(out) == entry_in(entry@, *format, date@));
            out
        },
        ExportFormat::Srt => {
            let out = Ok(export_as_srt(entry));
            assert(result_chars(out) == entry_in(entry@, *format, Seq::empty()));
            out
        },
        ExportFormat::Vtt => {
            let out = Ok(export_as_vtt(entry));
            assert(result_chars(out) == entry_in(entry@, *format, Seq::empty()));
            out
        },
        ExportFormat::Json => {
            let date = format_timestamp(entry.timestamp);
            let out = export_as_json_dated(entry, date.as_str(), "");
            proof {
                reveal_strlit("");
                assert(""@ =~= Seq::<char>::empty());
                assert(result_chars(out) == entry_in(entry@, *format, date@));
            }
            out
        },
        ExportFormat::Markdown => {
            let date = format_timestamp(entry.timestamp);
            let out = Ok(export_as_markdown_dated(entry, date.as_str()));
            assert(result_chars(out) == entry_in(entry@, *format, date@));
            out
        },
    }
}

/// The dates of `entries` in the machine's time zone, one for each entry; for an entry
/// whose time has no date, "Unknown" with the number of its time stamp.
pub fn entry_dates(entries: &Vec<HistoryEntry>) -> (dates: Vec<String>)
    ensures
        dates@.len() == entries@.len(),
        forall|k: int|
            0 <= k < entries@.len() && !has_date(entries@[k].timestamp) ==> (#[trigger] dates@[k])@
                == unknown_date(entries@[k].timestamp),
{
    let mut dates: Vec<String> = Vec::new();
    let mut i: usize = 0;
    while i < entries.len()
        invariant
            i <= entries.len(),
            dates@.len() == i,
            forall|k: int|
                0 <= k < i && !has_date(entries@[k].timestamp) ==> (#[trigger] dates@[k])@ == unknown_date(
                    entries@[k].timestamp,
                ),
        decreases entries.len() - i,
    {
        dates.push(format_timestamp(entries[i].timestamp));
        i += 1;
    }
    dates
}

/// The date under which entry `k` is written: the one given for it, or, where none is
/// given, "Unknown" with the number of its time stamp.
pub open spec fn date_at(dates: Seq<Seq<char>>, entries: Seq<EntryView>, k: int) -> Seq<char> {
    if 0 <= k < dates.len() {
        dates[k]
    } else {
        unknown_date(entries[k].timestamp)
    }
}

fn date_for(dates: &Vec<String>, entries: &Vec<HistoryEntry>, k: usize) -> (date: String)
    requires
        k < entries@.len(),
    ensures
        date@ == date_at(date_views(dates@), views_of(entries@), k as int),
{
    if k < dates.len() {
        dates[k].clone()
    } else {
        date_or_unknown(None, entries[k].timestamp)
    }
}

/// The entries from `k` on as plain text, with a rule between each two.
pub open spec fn entries_txt_from(entries: Seq<EntryView>, dates: Seq<Seq<char>>, k: int) -> Seq<char>
    decreases entries.len() - k,
{
    if k < 0 || k >= entries.len() {
        Seq::empty()
    } else if k + 1 == entries.len() {
        txt_of(entries[k], date_at(dates, entries, k))
    } else {
        txt_of(entries[k], date_at(dates, entries, k)) + "\n---\n\n"@ + entries_txt_from(entries, dates, k + 1)
    }
}

/// The characters of each string of `v`.
pub open spec fn date_views(v: Seq<String>) -> Seq<Seq<char>> {
    v.map_values(|s: String| s@)
}

/// The views of the entries of `v`.
pub open spec fn views_of(v: Seq<HistoryEntry>) -> Seq<EntryView> {
    v.map_values(|e: HistoryEntry| e@)
}

/// Entries as one plain text, entry `k` under the date `dates[k]`, with a rule between
/// each two.
pub fn export_entries_as_txt_dated(entries: &Vec<HistoryEntry>, dates: &Vec<String>) -> (out: String)
    ensures
        out@ == entries_txt_from(views_of(entries@), date_views(dates@), 0),
{
    let ghost es = views_of(entries@);
    let ghost ds = date_views(dates@);
    let n = entries.len();
    let mut out = String::new();
    let mut k: usize = n;
    while k > 0
        invariant
            n == entries@.len(),
            k <= n,
            es == views_of(entries@),
            ds == date_views(dates@),
            out@ == entries_txt_from(es, ds, k as int),
        decreases k,
    {
        k -= 1;
        let date = date_for(dates, entries, k);
        let mut part = export_as_txt_dated(&entries[k], date.as_str());
        if k + 1 < n {
            push_text(&mut part, "\n---\n\n");
            push_text(&mut part, out.as_str());
        }
        assert(part@ =~= entries_txt_from(es, ds, k as int));
        out = part;
    }
    out
}

/// Entries as one plain text, each under its date in the machine's time zone.
pub fn export_entries_as_txt(entries: &Vec<HistoryEntry>) -> (out: String)
    ensures
        exists|dates: Seq<Seq<char>>|
            dates.len() == entries@.len() && out@ == entries_txt_from(views_of(entries@), dates, 0),
{
    let dates = entry_dates(entries);
    let out = export_entries_as_txt_dated(entries, &dates);
    assert(date_views(dates@).len() == entries@.len());
    out
}

/// The entries from `k` on in SubRip, with a line feed between each two.
pub open spec fn entries_srt_from(entries: Seq<EntryView>, k: int) -> Seq<char>
    decreases entries.len() - k,
{
    if k < 0 || k >= entries.len() {
        Seq::empty()
    } else if k + 1 == entries.len() {
        srt_of(entries[k])
    } else {
        srt_of(entries[k]) + "\n"@ + entries_srt_from(entries, k + 1)
    }
}

/// The entries from `k` on in WebVTT: for each a note with its date, then its
/// subtitles.
pub open spec fn entries_vtt_from(entries: Seq<EntryView>, dates: Seq<Seq<char>>, k: int) -> Seq<char>
    decreases entries.len() - k,
{
    if k < 0 || k >= entries.len() {
        Seq::empty()
    } else {
        "NOTE "@ + date_at(dates, entries, k) + "\n\n"@ + vtt_cues_of(entries[k]) + entries_vtt_from(entries, dates, k + 1)
    }
}

/// The entries from `k` on in Markdown: for each a heading with its date, its text and
/// a rule.
pub open spec fn entries_markdown_from(entries: Seq<EntryView>, dates: Seq<Seq<char>>, k: int) -> Seq<char>
    decreases entries.len() - k,
{
    if k < 0 || k >= entries.len() {
        Seq::empty()
    } else {
        "## "@ + date_at(dates, entries, k) + "\n\n"@ + text_of(entries[k]) + "\n\n---\n\n"@ + entries_markdown_from(
            entries,
            dates,
            k + 1,
        )
    }
}

/// Entries as one Markdown document, written at the date `exported`.
pub open spec fn entries_markdown_of(entries: Seq<EntryView>, dates: Seq<Seq<char>>, exported: Seq<char>) -> Seq<
    char,
> {
    "# Transcription Export\n\n"@ + "**Exported:** "@ + exported + "  \n"@ + "**Entries:** "@ + digits_of(
        entries.len(),
    ) + "\n\n---\n\n"@ + entries_markdown_from(entries, dates, 0)
}

/// The entries from `k` on as JSON objects in an array, with a comma between each two.
pub open spec fn entries_json_from(entries: Seq<EntryView>, dates: Seq<Seq<char>>, k: int) -> Result<
    Seq<char>,
    Seq<char>,
>
    decreases entries.len() - k,
{
    if k < 0 || k >= entries.len() {
        Ok(Seq::empty())
    } else {
        match json_of(entries[k], date_at(dates, entries, k), "  "@) {
            Err(e) => Err(e),
            Ok(object) => match entries_json_from(entries, dates, k + 1) {
                Err(e) => Err(e),
                Ok(rest) => if k + 1 == entries.len() {
                    Ok(object)
                } else {
                    Ok(object + ",\n"@ + rest)
                },
            },
        }
    }
}

/// Entries as a JSON array of objects; the empty array is `[]`.
pub open spec fn entries_json_of(entries: Seq<EntryView>, dates: Seq<Seq<char>>) -> Result<Seq<char>, Seq<char>> {
    if entries.len() == 0 {
        Ok("[]"@)
    } else {
        match entries_json_from(entries, dates, 0) {
            Err(e) => Err(e),
            Ok(objects) => Ok("[\n"@ + objects + "\n]"@),
        }
    }
}

/// Entries as a JSON array under the dates `dates`. Of several errors the one of the
/// first entry that has one comes back.
pub fn export_entries_as_json_dated(entries: &Vec<HistoryEntry>, dates: &Vec<String>) -> (out: Result<
    String,
    String,
>)
    ensures
        out is Ok,
        result_chars(out) == entries_json_of(views_of(entries@), date_views(dates@)),
{
    let ghost es = views_of(entries@);
    let ghost ds = date_views(dates@);
    let n = entries.len();
    if n == 0 {
        return Ok("[]".to_owned());
    }
    let mut rest: Result<String, String> = Ok(String::new());
    let mut k: usize = n;
    while k > 0
        invariant
            n == entries@.len(),
            k <= n,
            es == views_of(entries@),
            ds == date_views(dates@),
            rest is Ok,
            result_chars(rest) == entries_json_from(es, ds, k as int),
        decreases k,
    {
        k -= 1;
        let date = date_for(dates, entries, k);
        let object = export_as_json_dated(&entries[k], date.as_str(), "  ");
        rest = match object {
            Err(e) => Err(e),
            Ok(mut o) => match rest {
                Err(e) => Err(e),
                Ok(r) => {
                    if k + 1 < n {
                        push_text(&mut o, ",\n");
                        push_text(&mut o, r.as_str());
                    }
                    Ok(o)
                },
            },
        };
    }
    match rest {
        Err(e) => Err(e),
        Ok(objects) => {
            let mut out = "[\n".to_owned();
            push_text(&mut out, objects.as_str());
            push_text(&mut out, "\n]");
            Ok(out)
        },
    }
}

/// Entries as a JSON array, each under its date in the machine's time zone.
pub fn export_entries_as_json(entries: &Vec<HistoryEntry>) -> (out: Result<String, String>)
    ensures
        out is Ok,
        exists|dates: Seq<Seq<char>>|
            dates.len() == entries@.len() && result_chars(out) == entries_json_of(views_of(entries@), dates),
{
    let dates = entry_dates(entries);
    let out = export_entries_as_json_dated(entries, &dates);
    assert(date_views(dates@).len() == entries@.len());
    out
}

/// Entries as one Markdown document under the dates `dates`, written at `exported`.
pub fn export_entries_as_markdown_dated(entries: &Vec<HistoryEntry>, dates: &Vec<String>, exported: &str) -> (out:
    String)
    ensures
        out@ == entries_markdown_of(views_of(entries@), date_views(dates@), exported@),
{
    let ghost es = views_of(entries@);
    let ghost ds = date_views(dates@);
    let n = entries.len();
    let mut body = String::new();
    let mut k: usize = n;
    while k > 0
        invariant
            n == entries@.len(),
            k <= n,
            es == views_of(entries@),
            ds == date_views(dates@),
            body@ == entries_markdown_from(es, ds, k as int),
        decreases k,
    {
        k -= 1;
        let date = date_for(dates, entries, k);
        let mut part = "## ".to_owned();
        push_text(&mut part, date.as_str());
        push_text(&mut part, "\n\n");
        push_text(&mut part, entry_text(&entries[k]));
        push_text(&mut part, "\n\n---\n\n");
        push_text(&mut part, body.as_str());
        assert(part@ =~= entries_markdown_from(es, ds, k as int));
        body = part;
    }
    let mut out = "# Transcription Export\n\n".to_owned();
    push_text(&mut out, "**Exported:** ");
    push_text(&mut out, exported);
    push_text(&mut out, "  \n");
    push_text(&mut out, "**Entries:** ");
    push_decimal(&mut out, n as u64);
    push_text(&mut out, "\n\n---\n\n");
    push_text(&mut out, body.as_str());
    out
}

/// Entries as one Markdown document, with the dates in the machine's time zone.
pub fn export_entries_as_markdown(entries: &Vec<HistoryEntry>) -> (out: String)
    ensures
        exists|dates: Seq<Seq<char>>, exported: Seq<char>|
            dates.len() == entries@.len() && out@ == entries_markdown_of(views_of(entries@), dates, exported),
{
    let dates = entry_dates(entries);
    let exported = format_timestamp(now_seconds());
    let out = export_entries_as_markdown_dated(entries, &dates, exported.as_str());
    assert(date_views(dates@).len() == entries@.len());
    out
}

/// Entries in `format` under the dates `dates`, written at `exported`.
pub open spec fn entries_in(
    entries: Seq<EntryView>,
    format: ExportFormat,
    dates: Seq<Seq<char>>,
    exported: Seq<char>,
) -> Result<Seq<char>, Seq<char>> {
    match format {
        ExportFormat::Txt => Ok(entries_txt_from(entries, dates, 0)),
        ExportFormat::Json => entries_json_of(entries, dates),
        ExportFormat::Markdown => Ok(entries_markdown_of(entries, dates, exported)),
        ExportFormat::Srt => Ok(entries_srt_from(entries, 0)),
        ExportFormat::Vtt => Ok("WEBVTT\n\n"@ + entries_vtt_from(entries, dates, 0)),
    }
}

/// Entries in `format` under the dates `dates`, written at `exported`. Subtitles of
/// several entries follow each other; WebVTT has one header and a note with the date
/// before each entry.
pub fn export_entries_dated(
    entries: &Vec<HistoryEntry>,
    format: &ExportFormat,
    dates: &Vec<String>,
    exported: &str,
) -> (out: Result<String, String>)
    ensures
        out is Ok,
        result_chars(out) == entries_in(views_of(entries@), *format, date_views(dates@), exported@),
{
    let ghost es = views_of(entries@);
    let ghost ds = date_views(dates@);
    let n = entries.len();
    match format {
        ExportFormat::Txt => Ok(export_entries_as_txt_dated(entries, dates)),
        ExportFormat::Json => export_entries_as_json_dated(entries, dates),
        ExportFormat::Markdown => Ok(export_entries_as_markdown_dated(entries, dates, exported)),
        ExportFormat::Srt => {
            let mut out = String::new();
            let mut k: usize = n;
            while k > 0
                invariant
                    n == entries@.len(),
                    k <= n,
                    es == views_of(entries@),
                    out@ == entries_srt_from(es, k as int),
                decreases k,
            {
                k -= 1;
                let mut part = export_as_srt(&entries[k]);
                if k + 1 < n {
                    push_text(&mut part, "\n");
                    push_text(&mut part, out.as_str());
                }
                assert(part@ =~= entries_srt_from(es, k as int));
                out = part;
            }
            Ok(out)
        },
        ExportFormat::Vtt => {
            let mut body = String::new();
            let mut k: usize = n;
            while k > 0
                invariant
                    n == entries@.len(),
                            k <= n,
                    es == views_of(entries@),
                    ds == date_views(dates@),
                    body@ == entries_vtt_from(es, ds, k as int),
                decreases k,
            {
                k -= 1;
                let date = date_for(dates, entries, k);
                let mut part = "NOTE ".to_owned();
                push_text(&mut part, date.as_str());
                push_text(&mut part, "\n\n");
                let words = split_words(entry_text(&entries[k]));
                push_cues(&mut part, &words, false);
                push_text(&mut part, body.as_str());
                assert(part@ =~= entries_vtt_from(es, ds, k as int));
                body = part;
            }
            let mut out = "WEBVTT\n\n".to_owned();
            push_text(&mut out, body.as_str());
            Ok(out)
        },
    }
}

/// Entries in `format`, with the dates in the machine's time zone.
pub fn export_entries(entries: &Vec<HistoryEntry>, format: &ExportFormat) -> (out: Result<String, String>)
    ensures
        out is Ok,
        exists|dates: Seq<Seq<char>>, exported: Seq<char>|
            dates.len() == entries@.len() && result_chars(out) == entries_in(
                views_of(entries@),
                *format,
                dates,
                exported,
            ),
{
    let dates = entry_dates(entries);
    let exported = format_timestamp(now_seconds());
    let out = export_entries_dated(entries, format, &dates, exported.as_str());
    assert(date_views(dates@).len() == entries@.len());
    out
}

/// The name of the file that an entry is written to: `stamp` is the entry's time as
/// file names show it, or the number of the time stamp where there is no such time.
pub open spec fn export_filename_of(stamp: Seq<char>, format: ExportFormat) -> Seq<char> {
    "handy-transcription-"@ + stamp + "."@ + format.extension()
}

/// The name of the file that several entries are written to.
pub open spec fn batch_filename_of(stamp: Seq<char>, format: ExportFormat) -> Seq<char> {
    "handy-export-"@ + stamp + "."@ + format.extension()
}

/// The time shown in a file name: `local` if there is one, else the number of the time
/// stamp.
pub fn stamp_or_number(local: Option<String>, timestamp: i64) -> (stamp: String)
    ensures
        stamp@ == (match local {
            Some(s) => s@,
            None => signed_digits_of(timestamp as int),
        }),
{
    match local {
        Some(s) => s,
        None => {
            let mut s = String::new();
            push_signed_decimal(&mut s, timestamp);
            assert(Seq::<char>::empty() + signed_digits_of(timestamp as int) =~= signed_digits_of(
                timestamp as int,
            ));
            s
        },
    }
}

/// The name of the file for an entry, from the time `stamp` as file names show it.
pub fn export_filename(stamp: &str, format: &ExportFormat) -> (name: String)
    ensures
        name@ == export_filename_of(stamp@, *format),
{
    let mut name = "handy-transcription-".to_owned();
    push_text(&mut name, stamp);
    push_text(&mut name, ".");
    push_text(&mut name, format.file_extension());
    name
}

/// The name of the file for an entry, from its time in the machine's time zone.
pub fn generate_export_filename(entry: &HistoryEntry, format: &ExportFormat) -> (name: String)
    ensures
        exists|stamp: Seq<char>| name@ == export_filename_of(stamp, *format),
{
    let stamp = stamp_or_number(local_time_text(entry.timestamp, FILE_STAMP_PATTERN), entry.timestamp);
    export_filename(stamp.as_str(), format)
}

/// The name of the file for several entries, from the present time in the machine's
/// time zone.
pub fn generate_batch_export_filename(format: &ExportFormat) -> (name: String)
    ensures
        exists|stamp: Seq<char>| name@ == batch_filename_of(stamp, *format),
{
    let now = now_seconds();
    let stamp = stamp_or_number(local_time_text(now, FILE_STAMP_PATTERN), now);
    let mut name = "handy-export-".to_owned();
    push_text(&mut name, stamp.as_str());
    push_text(&mut name, ".");
    push_text(&mut name, format.file_extension());
    assert(name@ == batch_filename_of(stamp@, *format));
    name
}

} // verus!
