//! Cutting a document into overlapping windows for embedding.

use vstd::prelude::*;
use crate::text::{blank_between, chars_of, is_blank, is_ws, string_between};

verus! {

/// The most characters one chunk holds.
pub const CHUNK_SIZE: usize = 500;

/// How many characters a chunk shares with the one before it.
pub const CHUNK_OVERLAP: usize = 50;

/// Whether `c` ends a sentence.
pub open spec fn is_terminator(c: char) -> bool {
    c == '.' || c == '!' || c == '?'
}

/// The last position in `lo..hi` that holds a sentence terminator, or -1.
pub open spec fn last_terminator(text: Seq<char>, lo: int, hi: int) -> int
    decreases hi - lo,
{
    if hi <= lo {
        -1
    } else if is_terminator(text[hi - 1]) {
        hi - 1
    } else {
        last_terminator(text, lo, hi - 1)
    }
}

/// The last position in `lo..hi` that holds a space, or -1.
pub open spec fn last_space(text: Seq<char>, lo: int, hi: int) -> int
    decreases hi - lo,
{
    if hi <= lo {
        -1
    } else if text[hi - 1] == ' ' {
        hi - 1
    } else {
        last_space(text, lo, hi - 1)
    }
}

/// Where the window that begins at `start` is full.
pub open spec fn window_end(text: Seq<char>, start: int) -> int {
    if start + CHUNK_SIZE < text.len() {
        start + CHUNK_SIZE
    } else {
        text.len() as int
    }
}

/// Where the chunk that begins at `start` ends. A window that reaches the end of the
/// text is taken whole. Any other is cut behind its last sentence terminator; without
/// one, before its last space; without either, where the window is full.
pub open spec fn chunk_end(text: Seq<char>, start: int) -> int {
    let end = window_end(text, start);
    if end == text.len() {
        end
    } else if last_terminator(text, start, end) >= 0 {
        last_terminator(text, start, end) + 1
    } else if last_space(text, start, end) >= 0 {
        last_space(text, start, end)
    } else {
        end
    }
}

/// Where the chunk after the one on `start..end` begins: the overlap back from `end`,
/// but always ahead of `start`.
pub open spec fn next_start(start: int, end: int) -> int {
    if end - start > CHUNK_OVERLAP {
        end - CHUNK_OVERLAP
    } else if end > start {
        end
    } else {
        start + 1
    }
}

/// The ranges of the chunks of `text` from `start` on; ranges of white space alone are
/// left out.
pub open spec fn chunk_ranges(text: Seq<char>, start: int) -> Seq<(int, int)>
    decreases text.len() - start,
{
    if start < 0 || start >= text.len() {
        Seq::empty()
    } else {
        let end = chunk_end(text, start);
        let here = if is_blank(text.subrange(start, end)) {
            Seq::<(int, int)>::empty()
        } else {
            seq![(start, end)]
        };
        if window_end(text, start) == text.len() || next_start(start, end) <= start || next_start(
            start,
            end,
        ) > text.len() {
            here
        } else {
            here + chunk_ranges(text, next_start(start, end))
        }
    }
}

/// The chunks of `text`, in order.
pub open spec fn chunks_of(text: Seq<char>) -> Seq<Seq<char>> {
    chunk_ranges(text, 0).map_values(|r: (int, int)| text.subrange(r.0, r.1))
}

pub proof fn lemma_last_terminator(text: Seq<char>, lo: int, hi: int)
    requires
        0 <= lo <= hi <= text.len(),
    ensures
        last_terminator(text, lo, hi) == -1 || (lo <= last_terminator(text, lo, hi) < hi
            && is_terminator(text[last_terminator(text, lo, hi)])),
    decreases hi - lo,
{
    if hi > lo && !is_terminator(text[hi - 1]) {
        lemma_last_terminator(text, lo, hi - 1);
    }
}

pub proof fn lemma_last_space(text: Seq<char>, lo: int, hi: int)
    requires
        0 <= lo <= hi <= text.len(),
    ensures
        last_space(text, lo, hi) == -1 || (lo <= last_space(text, lo, hi) < hi
            && text[last_space(text, lo, hi)] == ' '),
    decreases hi - lo,
{
    if hi > lo && text[hi - 1] != ' ' {
        lemma_last_space(text, lo, hi - 1);
    }
}

/// A chunk lies inside its window, and the next chunk begins ahead of it and no later
/// than one character behind its end.
pub proof fn lemma_chunk_end_bounds(text: Seq<char>, start: int)
    requires
        0 <= start < text.len(),
    ensures
        start <= chunk_end(text, start) <= window_end(text, start) <= text.len(),
        chunk_end(text, start) - start <= CHUNK_SIZE,
        start < next_start(start, chunk_end(text, start)),
        next_start(start, chunk_end(text, start)) <= chunk_end(text, start) || (chunk_end(
            text,
            start,
        ) == start && text[start] == ' '),
{
    let end = window_end(text, start);
    lemma_last_terminator(text, start, end);
    lemma_last_space(text, start, end);
}

/// Every chunk is a stretch of the text of at least one and at most `CHUNK_SIZE`
/// characters, and is not white space alone.
pub proof fn lemma_chunk_ranges_wf(text: Seq<char>, start: int, k: int)
    requires
        0 <= start,
        0 <= k < chunk_ranges(text, start).len(),
    ensures
        ({
            let r = chunk_ranges(text, start)[k];
            &&& start <= r.0 < r.1 <= text.len()
            &&& r.1 - r.0 <= CHUNK_SIZE
            &&& r.1 == chunk_end(text, r.0)
            &&& !is_blank(text.subrange(r.0, r.1))
        }),
    decreases text.len() - start,
{
    if start < text.len() {
        lemma_chunk_end_bounds(text, start);
        let end = chunk_end(text, start);
        let blank = is_blank(text.subrange(start, end));
        if blank {
            lemma_chunk_ranges_wf(text, next_start(start, end), k);
        } else if k > 0 {
            lemma_chunk_ranges_wf(text, next_start(start, end), k - 1);
        } else {
            if end == start {
                assert(text.subrange(start, end).len() == 0);
            }
        }
    }
}

/// Every character of the text that is not white space lies in a chunk.
pub proof fn lemma_chunks_cover(text: Seq<char>, start: int, p: int)
    requires
        0 <= start <= p < text.len(),
        !is_ws(text[p]),
    ensures
        exists|k: int|
            0 <= k < chunk_ranges(text, start).len() && (#[trigger] chunk_ranges(text, start)[k]).0
                <= p < chunk_ranges(text, start)[k].1,
    decreases text.len() - start,
{
    lemma_chunk_end_bounds(text, start);
    let end = chunk_end(text, start);
    let rest = chunk_ranges(text, next_start(start, end));
    let blank = is_blank(text.subrange(start, end));
    if p < end {
        assert(text.subrange(start, end)[p - start] == text[p]);
        assert(chunk_ranges(text, start)[0] == (start, end));
    } else {
        let next = next_start(start, end);
        assert(window_end(text, start) != text.len());
        assert(start < next <= p);
        lemma_chunks_cover(text, next, p);
        let k = choose|k: int| 0 <= k < rest.len() && (#[trigger] rest[k]).0 <= p < rest[k].1;
        if blank {
            assert(chunk_ranges(text, start) =~= rest);
            assert(chunk_ranges(text, start)[k] == rest[k]);
        } else {
            assert(chunk_ranges(text, start)[k + 1] == rest[k]);
        }
    }
}

/// Chunks come in the order of the text: each begins behind the one before it.
pub proof fn lemma_chunks_ordered(text: Seq<char>, start: int, k: int)
    requires
        0 <= start,
        0 <= k,
        k + 1 < chunk_ranges(text, start).len(),
    ensures
        chunk_ranges(text, start)[k].0 < chunk_ranges(text, start)[k + 1].0,
    decreases text.len() - start,
{
    if start < text.len() {
        lemma_chunk_end_bounds(text, start);
        let end = chunk_end(text, start);
        let next = next_start(start, end);
        let blank = is_blank(text.subrange(start, end));
        if blank {
            lemma_chunks_ordered(text, next, k);
        } else if k > 0 {
            lemma_chunks_ordered(text, next, k - 1);
        } else {
            lemma_chunk_ranges_wf(text, next, 0);
        }
    }
}

fn find_last_terminator(t: &[char], lo: usize, hi: usize) -> (r: Option<usize>)
    requires
        lo <= hi <= t.len(),
    ensures
        match r {
            Some(p) => p == last_terminator(t@, lo as int, hi as int),
            None => last_terminator(t@, lo as int, hi as int) == -1,
        },
{
    let mut j = hi;
    while j > lo
        invariant
            lo <= j <= hi <= t.len(),
            last_terminator(t@, lo as int, hi as int) == last_terminator(t@, lo as int, j as int),
        decreases j,
    {
        let c = t[j - 1];
        if c == '.' || c == '!' || c == '?' {
            return Some(j - 1);
        }
        j -= 1;
    }
    None
}

fn find_last_space(t: &[char], lo: usize, hi: usize) -> (r: Option<usize>)
    requires
        lo <= hi <= t.len(),
    ensures
        match r {
            Some(p) => p == last_space(t@, lo as int, hi as int),
            None => last_space(t@, lo as int, hi as int) == -1,
        },
{
    let mut j = hi;
    while j > lo
        invariant
            lo <= j <= hi <= t.len(),
            last_space(t@, lo as int, hi as int) == last_space(t@, lo as int, j as int),
        decreases j,
    {
        if t[j - 1] == ' ' {
            return Some(j - 1);
        }
        j -= 1;
    }
    None
}

/// Cuts `text` into chunks of at most `CHUNK_SIZE` characters, each sharing
/// `CHUNK_OVERLAP` characters with the one before it where that one is long enough.
/// A chunk that does not reach the end of the text ends behind the last sentence
/// terminator of its window, else before its last space, else where the window is full.
/// Chunks of white space alone are left out.
pub fn chunk_text(text: &str) -> (chunks: Vec<String>)
    ensures
        chunks@.len() == chunks_of(text@).len(),
        forall|k: int| 0 <= k < chunks@.len() ==> (#[trigger] chunks@[k])@ == chunks_of(text@)[k],
{
    let t = chars_of(text);
    let n = t.len();
    let mut chunks: Vec<String> = Vec::new();
    let ghost mut done: Seq<(int, int)> = Seq::empty();
    let mut start: usize = 0;
    while start < n
        invariant
            t@ == text@,
            n == t.len(),
            start <= n,
            done + chunk_ranges(t@, start as int) == chunk_ranges(t@, 0),
            chunks@.len() == done.len(),
            forall|k: int|
                0 <= k < done.len() ==> (#[trigger] chunks@[k])@ == t@.subrange(done[k].0, done[k].1),
        decreases n - start,
    {
        proof {
            lemma_chunk_end_bounds(t@, start as int);
        }
        let last = n - start <= CHUNK_SIZE;
        let window_end = if last {
            n
        } else {
            start + CHUNK_SIZE
        };
        let end = if last {
            n
        } else {
            match find_last_terminator(t.as_slice(), start, window_end) {
                Some(p) => p + 1,
                None => match find_last_space(t.as_slice(), start, window_end) {
                    Some(p) => p,
                    None => window_end,
                },
            }
        };
        assert(end == chunk_end(t@, start as int));
        let ghost rest = if last {
            Seq::<(int, int)>::empty()
        } else {
            chunk_ranges(t@, next_start(start as int, end as int))
        };
        let ghost before = done;
        if !blank_between(t.as_slice(), start, end) {
            chunks.push(string_between(t.as_slice(), start, end));
            proof {
                done = done.push((start as int, end as int));
                assert(chunk_ranges(t@, start as int) =~= seq![(start as int, end as int)] + rest);
                assert(before.push((start as int, end as int)) + rest =~= before + (seq![
                    (start as int, end as int),
                ] + rest));
            }
        } else {
            assert(chunk_ranges(t@, start as int) =~= rest);
        }
        assert(done + rest == chunk_ranges(t@, 0));
        if last {
            assert(done + rest =~= done);
            start = n;
            assert(chunk_ranges(t@, n as int) =~= Seq::<(int, int)>::empty());
        } else if end - start > CHUNK_OVERLAP {
            start = end - CHUNK_OVERLAP;
        } else if end > start {
            start = end;
        } else {
            start = start + 1;
        }
    }
    proof {
        assert(chunk_ranges(t@, start as int) =~= Seq::<(int, int)>::empty());
        assert(done + Seq::<(int, int)>::empty() =~= done);
        assert(chunks_of(text@).len() == done.len());
    }
    chunks
}

} // verus!
