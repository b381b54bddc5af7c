//! What the knowledge base stores and how it ranks: embedding blobs and the choice of
//! the best matches. An embedding is held as the bit patterns of its components; the
//! arithmetic on the components themselves is done by the caller.

use vstd::prelude::*;

verus! {

/// A document as the store returns it.
#[derive(Clone, Debug)]
pub struct StoredDocument {
    pub id: i64,
    pub content: String,
    pub source_type: String,
    pub source_id: Option<String>,
    pub title: Option<String>,
    pub created_at: i64,
}

/// How much the store holds.
#[derive(Clone, Copy, Debug, PartialEq, Eq, Structural)]
pub struct RagStats {
    pub document_count: i64,
    pub embedding_count: i64,
}

/// Byte `k` (0 is the lowest) of `w`.
pub open spec fn le_byte(w: u32, k: int) -> u8 {
    if k == 0 {
        (w & 0xff) as u8
    } else if k == 1 {
        ((w >> 8) & 0xff) as u8
    } else if k == 2 {
        ((w >> 16) & 0xff) as u8
    } else {
        ((w >> 24) & 0xff) as u8
    }
}

/// The word whose bytes, lowest first, are `b0`, `b1`, `b2`, `b3`.
pub open spec fn le_word(b0: u8, b1: u8, b2: u8, b3: u8) -> u32 {
    (b0 as u32) | ((b1 as u32) << 8) | ((b2 as u32) << 16) | ((b3 as u32) << 24)
}

/// The blob of `words`: four bytes for each word, lowest byte first, tightly packed.
pub open spec fn blob_of(words: Seq<u32>) -> Seq<u8> {
    Seq::new(4 * words.len(), |i: int| le_byte(words[i / 4], i % 4))
}

/// The words of `blob`: one for each started group of four bytes. A last group of fewer
/// than four bytes gives the word 0.
pub open spec fn words_of(blob: Seq<u8>) -> Seq<u32> {
    Seq::new(
        ((blob.len() + 3) / 4) as nat,
        |k: int|
            if 4 * k + 4 <= blob.len() {
                le_word(blob[4 * k], blob[4 * k + 1], blob[4 * k + 2], blob[4 * k + 3])
            } else {
                0u32
            },
    )
}

proof fn lemma_word_round_trip(w: u32)
    ensures
        le_word(le_byte(w, 0), le_byte(w, 1), le_byte(w, 2), le_byte(w, 3)) == w,
{
    let b0 = w & 0xff;
    let b1 = (w >> 8) & 0xff;
    let b2 = (w >> 16) & 0xff;
    let b3 = (w >> 24) & 0xff;
    assert(b0 < 256 && b1 < 256 && b2 < 256 && b3 < 256 && w == (b0 | (b1 << 8) | (b2 << 16) | (b3
        << 24))) by (bit_vector)
        requires
            b0 == w & 0xff,
            b1 == (w >> 8) & 0xff,
            b2 == (w >> 16) & 0xff,
            b3 == (w >> 24) & 0xff,
    ;
    assert((b0 as u8) as u32 == b0);
    assert((b1 as u8) as u32 == b1);
    assert((b2 as u8) as u32 == b2);
    assert((b3 as u8) as u32 == b3);
}

/// Decoding an encoded embedding gives back every component, bit for bit.
pub proof fn lemma_blob_round_trip(words: Seq<u32>)
    ensures
        blob_of(words).len() == 4 * words.len(),
        words_of(blob_of(words)) == words,
{
    let blob = blob_of(words);
    assert(words_of(blob).len() == words.len());
    assert forall|k: int| 0 <= k < words.len() implies words_of(blob)[k] == words[k] by {
        lemma_word_round_trip(words[k]);
        assert(blob[4 * k] == le_byte(words[k], 0));
        assert(blob[4 * k + 1] == le_byte(words[k], 1));
        assert(blob[4 * k + 2] == le_byte(words[k], 2));
        assert(blob[4 * k + 3] == le_byte(words[k], 3));
    }
    assert(words_of(blob) =~= words);
}

/// Encodes an embedding for storage.
pub fn vec_to_blob(words: &[u32]) -> (blob: Vec<u8>)
    ensures
        blob@ == blob_of(words@),
{
    let mut blob: Vec<u8> = Vec::new();
    let mut i: usize = 0;
    while i < words.len()
        invariant
            i <= words.len(),
            blob@.len() == 4 * i,
            forall|j: int| 0 <= j < 4 * i ==> blob@[j] == le_byte(words@[j / 4], j % 4),
        decreases words.len() - i,
    {
        let w = words[i];
        let b0 = w & 0xff;
        let b1 = (w >> 8) & 0xff;
        let b2 = (w >> 16) & 0xff;
        let b3 = (w >> 24) & 0xff;
        assert(b0 < 256 && b1 < 256 && b2 < 256 && b3 < 256) by (bit_vector)
            requires
                b0 == w & 0xff,
                b1 == (w >> 8) & 0xff,
                b2 == (w >> 16) & 0xff,
                b3 == (w >> 24) & 0xff,
        ;
        blob.push(b0 as u8);
        blob.push(b1 as u8);
        blob.push(b2 as u8);
        blob.push(b3 as u8);
        i += 1;
    }
    assert(blob@ =~= blob_of(words@));
    blob
}

/// Decodes a stored embedding.
pub fn blob_to_vec(blob: &[u8]) -> (words: Vec<u32>)
    ensures
        words@ == words_of(blob@),
{
    let n = blob.len();
    let mut words: Vec<u32> = Vec::new();
    let mut k: usize = 0;
    while k < n / 4
        invariant
            n == blob.len(),
            k <= n / 4,
            words@.len() == k,
            forall|j: int| 0 <= j < k ==> words@[j] == words_of(blob@)[j],
        decreases n / 4 - k,
    {
        let b0 = blob[4 * k] as u32;
        let b1 = blob[4 * k + 1] as u32;
        let b2 = blob[4 * k + 2] as u32;
        let b3 = blob[4 * k + 3] as u32;
        words.push(b0 | (b1 << 8) | (b2 << 16) | (b3 << 24));
        k += 1;
    }
    if n % 4 != 0 {
        words.push(0);
    }
    assert(words@ =~= words_of(blob@));
    words
}

/// Whether row `i` ranks before row `j`: by the higher score, and among equal scores
/// by the earlier row.
pub open spec fn ranks_before(scores: Seq<i64>, i: int, j: int) -> bool {
    scores[i] > scores[j] || (scores[i] == scores[j] && i < j)
}

/// Whether row `i` exists and reaches the threshold, where there is one.
pub open spec fn admitted(scores: Seq<i64>, threshold: Option<i64>, i: int) -> bool {
    &&& 0 <= i < scores.len()
    &&& match threshold {
        Some(t) => scores[i] >= t,
        None => true,
    }
}

/// Whether `picked` is the choice of the best `k` admitted rows: it lists admitted rows
/// in ranking order, holds at most `k` of them, and a row is left out only when `k`
/// rows that all rank before it were taken.
pub open spec fn is_top_k(scores: Seq<i64>, threshold: Option<i64>, k: nat, picked: Seq<usize>) -> bool {
    &&& picked.len() <= k
    &&& forall|r: int| 0 <= r < picked.len() ==> admitted(scores, threshold, #[trigger] picked[r] as int)
    &&& forall|r: int, q: int|
        0 <= r < q < picked.len() ==> ranks_before(scores, #[trigger] picked[r] as int, #[trigger] picked[q] as int)
    &&& forall|j: int|
        #[trigger] admitted(scores, threshold, j) && !picked.contains(j as usize) ==> picked.len() == k
            && forall|r: int|
            0 <= r < picked.len() ==> ranks_before(scores, #[trigger] picked[r] as int, j)
}

/// No row is picked twice.
pub proof fn lemma_top_k_distinct(scores: Seq<i64>, threshold: Option<i64>, k: nat, picked: Seq<usize>)
    requires
        is_top_k(scores, threshold, k, picked),
    ensures
        forall|r: int, q: int| 0 <= r < q < picked.len() ==> picked[r] != picked[q],
{
    assert forall|r: int, q: int| 0 <= r < q < picked.len() implies picked[r] != picked[q] by {
        assert(ranks_before(scores, picked[r] as int, picked[q] as int));
    }
}

/// The choice of the best `k` rows is unique.
pub proof fn lemma_top_k_unique(
    scores: Seq<i64>,
    threshold: Option<i64>,
    k: nat,
    a: Seq<usize>,
    b: Seq<usize>,
)
    requires
        is_top_k(scores, threshold, k, a),
        is_top_k(scores, threshold, k, b),
    ensures
        a == b,
{
    lemma_top_k_prefix(scores, threshold, k, a, b, a.len() as int);
    lemma_top_k_prefix(scores, threshold, k, b, a, b.len() as int);
    assert(a =~= b);
}

proof fn lemma_top_k_prefix(
    scores: Seq<i64>,
    threshold: Option<i64>,
    k: nat,
    a: Seq<usize>,
    b: Seq<usize>,
    n: int,
)
    requires
        is_top_k(scores, threshold, k, a),
        is_top_k(scores, threshold, k, b),
        0 <= n <= a.len(),
    ensures
        n <= b.len(),
        forall|r: int| 0 <= r < n ==> a[r] == b[r],
    decreases n,
{
    if n > 0 {
        lemma_top_k_prefix(scores, threshold, k, a, b, n - 1);
        let m = n - 1;
        let x = a[m];
        assert(admitted(scores, threshold, x as int));
        // x is in b: otherwise b is full and all of b ranks before x, but b's first m
        // entries are a's, and b has more than m entries that rank before x.
        if !b.contains(x) {
            assert(b.len() == k);
            assert(b.len() >= a.len());
            let y = b[m];
            assert(ranks_before(scores, y as int, x as int));
            if a.contains(y) {
                let q = choose|q: int| 0 <= q < a.len() && a[q] == y;
                if q < m {
                    assert(b[q] == a[q]);
                    assert(ranks_before(scores, b[q] as int, b[m] as int));
                } else if q > m {
                    assert(ranks_before(scores, a[m] as int, a[q] as int));
                }
            } else {
                assert(admitted(scores, threshold, y as int));
                assert(ranks_before(scores, a[m] as int, y as int));
            }
            assert(false);
        }
        let p = choose|p: int| 0 <= p < b.len() && b[p] == x;
        if p < m {
            assert(a[p] == b[p]);
            assert(ranks_before(scores, a[p] as int, a[m] as int));
            assert(false);
        }
        if p > m {
            let y = b[m];
            assert(ranks_before(scores, y as int, x as int));
            if a.contains(y) {
                let q = choose|q: int| 0 <= q < a.len() && a[q] == y;
                if q < m {
                    assert(b[q] == a[q]);
                    assert(ranks_before(scores, b[q] as int, b[m] as int));
                } else if q > m {
                    assert(ranks_before(scores, a[m] as int, a[q] as int));
                }
            } else {
                assert(admitted(scores, threshold, y as int));
                assert(ranks_before(scores, a[m] as int, y as int));
            }
            assert(false);
        }
    }
}

/// Picks the rows of the `k` highest scores, best first; rows of equal score keep their
/// order. With a threshold, rows whose score is below it are never picked.
pub fn rank_top_k(scores: &[i64], k: usize, threshold: Option<i64>) -> (picked: Vec<usize>)
    ensures
        is_top_k(scores@, threshold, k as nat, picked@),
{
    let n = scores.len();
    let mut picked: Vec<usize> = Vec::new();
    let mut exhausted = false;
    while picked.len() < k && !exhausted
        invariant
            n == scores.len(),
            picked@.len() <= k,
            forall|r: int| 0 <= r < picked@.len() ==> admitted(scores@, threshold, #[trigger] picked@[r] as int),
            forall|r: int, q: int|
                0 <= r < q < picked@.len() ==> ranks_before(
                    scores@,
                    #[trigger] picked@[r] as int,
                    #[trigger] picked@[q] as int,
                ),
            forall|j: int|
                #[trigger] admitted(scores@, threshold, j) && !picked@.contains(j as usize) ==> forall|
                    r: int,
                |
                    0 <= r < picked@.len() ==> ranks_before(scores@, #[trigger] picked@[r] as int, j),
            exhausted ==> forall|j: int|
                #[trigger] admitted(scores@, threshold, j) ==> picked@.contains(j as usize),
        decreases (if exhausted { 0int } else { 1int }), k - picked.len(),
    {
        let mut best: Option<usize> = None;
        let mut j: usize = 0;
        while j < n
            invariant
                n == scores.len(),
                j <= n,
                match best {
                    Some(b) => b < j && admitted(scores@, threshold, b as int) && !picked@.contains(b),
                    None => true,
                },
                forall|i: int|
                    0 <= i < j && #[trigger] admitted(scores@, threshold, i) && !picked@.contains(
                        i as usize,
                    ) ==> best is Some && (best->0 == i || ranks_before(scores@, best->0 as int, i)),
            decreases n - j,
        {
            let ok = match threshold {
                Some(t) => scores[j] >= t,
                None => true,
            };
            if ok && !holds(&picked, j) {
                let take = match best {
                    Some(b) => scores[j] > scores[b],
                    None => true,
                };
                if take {
                    best = Some(j);
                }
            }
            j += 1;
        }
        match best {
            Some(b) => {
                let ghost before = picked@;
                picked.push(b);
                proof {
                    assert forall|i: int|
                        #[trigger] admitted(scores@, threshold, i) && !picked@.contains(
                            i as usize,
                        ) implies forall|r: int|
                        0 <= r < picked@.len() ==> ranks_before(scores@, #[trigger] picked@[r] as int, i) by {
                        if before.contains(i as usize) {
                            let w = choose|w: int| 0 <= w < before.len() && before[w] == i as usize;
                            assert(picked@[w] == i as usize);
                            assert(picked@.contains(i as usize));
                        }
                        assert(picked@[before.len() as int] == b);
                        assert(picked@.contains(b));
                        assert(i != b);
                        assert forall|r: int| 0 <= r < picked@.len() implies ranks_before(
                            scores@,
                            #[trigger] picked@[r] as int,
                            i,
                        ) by {
                            if r < before.len() {
                                assert(picked@[r] == before[r]);
                            }
                        }
                    }
                    assert forall|r: int, q: int| 0 <= r < q < picked@.len() implies ranks_before(
                        scores@,
                        #[trigger] picked@[r] as int,
                        #[trigger] picked@[q] as int,
                    ) by {
                        if q < before.len() {
                            assert(picked@[r] == before[r] && picked@[q] == before[q]);
                        } else {
                            assert(picked@[r] == before[r]);
                        }
                    }
                    assert forall|r: int| 0 <= r < picked@.len() implies admitted(
                        scores@,
                        threshold,
                        #[trigger] picked@[r] as int,
                    ) by {
                        if r < before.len() {
                            assert(picked@[r] == before[r]);
                        }
                    }
                }
            },
            None => {
                exhausted = true;
            },
        }
    }
    picked
}

/// Whether `v` holds `x`.
fn holds(v: &Vec<usize>, x: usize) -> (r: bool)
    ensures
        r == v@.contains(x),
{
    let mut i: usize = 0;
    while i < v.len()
        invariant
            i <= v.len(),
            forall|j: int| 0 <= j < i ==> v@[j] != x,
        decreases v.len() - i,
    {
        if v[i] == x {
            return true;
        }
        i += 1;
    }
    false
}

} // verus!
