//! Bringing audio to 16 kHz in frames of 30 ms: where each output sample lies between
//! the input samples, and how output samples are gathered into frames. Weighing two
//! neighbouring samples is the caller's arithmetic.

use vstd::prelude::*;

verus! {

/// Samples per second after resampling.
pub const TARGET_SAMPLE_RATE: u32 = 16000;

/// Samples in one frame: 30 ms at 16 kHz.
pub const FRAME_SAMPLES: usize = 480;

/// How many samples `n` input samples at the rate `from` give at the rate `to`: the
/// count rounded up, and the input count itself where the rates are equal.
pub open spec fn resampled_len_of(n: nat, from: nat, to: nat) -> nat {
    if from == to || n == 0 {
        n
    } else {
        ((n * to + from - 1) / (from as int)) as nat
    }
}

/// Where output sample `i` lies in the input: the input sample at or before it, and how
/// far it is on the way to the next one, in parts of `to`.
pub open spec fn tap_of(i: nat, from: nat, to: nat) -> (nat, nat) {
    (((i * from) / to) as nat, ((i * from) % to) as nat)
}

/// The place of one output sample among the input samples.
#[derive(Clone, Copy, Debug, PartialEq, Eq, Structural)]
pub struct ResampleTap {
    /// The input sample at or before the output sample.
    pub index: usize,
    /// Whether the input holds a sample after that one to weigh in.
    pub has_next: bool,
    /// How far the output sample is on the way to the next input sample, in parts of
    /// `denominator`.
    pub numerator: u32,
    pub denominator: u32,
}

/// The output count is the exact quotient rounded up: it misses `n * to / from` by less
/// than one sample. At equal rates it is the input count.
pub proof fn lemma_resampled_len(n: nat, from: nat, to: nat)
    requires
        from > 0,
        to > 0,
    ensures
        resampled_len_of(n, from, to) * from >= n * to,
        n > 0 ==> (resampled_len_of(n, from, to) - 1) * from < n * to,
        from == to ==> resampled_len_of(n, from, to) == n,
{
    if from != to && n > 0 {
        let m = n * to;
        let len = (m + from - 1) / (from as int);
        assert(len * from >= m && (len - 1) * from < m) by (nonlinear_arith)
            requires
                len == (m + from - 1) / (from as int),
                from > 0,
                m >= 0,
        ;
    } else if from == to {
        assert(n * from == n * to);
        assert((n - 1) * from < n * from) by (nonlinear_arith)
            requires
                from > 0,
        ;
    } else {
        assert(0 * to == 0);
    }
}

/// Every output sample lies at an input sample that exists; at equal rates it lies
/// exactly on the input sample of the same position.
pub proof fn lemma_tap_in_range(i: nat, n: nat, from: nat, to: nat)
    requires
        from > 0,
        to > 0,
        i < resampled_len_of(n, from, to),
    ensures
        tap_of(i, from, to).0 < n,
        tap_of(i, from, to).1 < to,
        from == to ==> tap_of(i, from, to) == (i, 0nat),
{
    lemma_resampled_len(n, from, to);
    let len = resampled_len_of(n, from, to);
    let p = i * from;
    assert(p < n * to) by (nonlinear_arith)
        requires
            p == i * from,
            i <= len - 1,
            (len - 1) * from < n * to,
            from > 0,
    ;
    assert(p / to < n && p % to < to) by (nonlinear_arith)
        requires
            p < n * to,
            to > 0,
            p >= 0,
    ;
    if from == to {
        assert(p / to == i && p % to == 0) by (nonlinear_arith)
            requires
                p == i * to,
                to > 0,
        ;
    }
}

/// How many samples `n` input samples at the rate `from` give at the rate `to`. `None`
/// where a rate is zero or the count does not fit the machine.
pub fn resampled_len(n: usize, from: u32, to: u32) -> (len: Option<usize>)
    ensures
        match len {
            Some(l) => from > 0 && to > 0 && l == resampled_len_of(n as nat, from as nat, to as nat),
            None => from == 0 || to == 0 || resampled_len_of(n as nat, from as nat, to as nat)
                > usize::MAX,
        },
{
    if from == 0 || to == 0 {
        return None;
    }
    if from == to || n == 0 {
        return Some(n);
    }
    assert(n * to <= 0xFFFF_FFFF_FFFF_FFFF * 0xFFFF_FFFF) by (nonlinear_arith)
        requires
            n <= 0xFFFF_FFFF_FFFF_FFFF,
            to <= 0xFFFF_FFFF,
    ;
    let m: u128 = (n as u128) * (to as u128) + (from as u128) - 1;
    let len: u128 = m / (from as u128);
    if len > usize::MAX as u128 {
        None
    } else {
        Some(len as usize)
    }
}

/// Where output sample `i` of `len` lies among `n` input samples.
pub fn tap_at(i: usize, n: usize, from: u32, to: u32) -> (tap: ResampleTap)
    requires
        from > 0,
        to > 0,
        i < resampled_len_of(n as nat, from as nat, to as nat),
    ensures
        tap.index == tap_of(i as nat, from as nat, to as nat).0,
        tap.numerator == tap_of(i as nat, from as nat, to as nat).1,
        tap.denominator == to,
        tap.index < n,
        tap.has_next == (tap.index + 1 < n),
{
    proof {
        lemma_tap_in_range(i as nat, n as nat, from as nat, to as nat);
    }
    assert(i * from <= 0xFFFF_FFFF_FFFF_FFFF * 0xFFFF_FFFF) by (nonlinear_arith)
        requires
            i <= 0xFFFF_FFFF_FFFF_FFFF,
            from <= 0xFFFF_FFFF,
    ;
    let p: u128 = (i as u128) * (from as u128);
    let index = (p / (to as u128)) as usize;
    let numerator = (p % (to as u128)) as u32;
    ResampleTap { index, has_next: index < n - 1, numerator, denominator: to }
}

/// The whole frames that `samples` fills.
pub open spec fn frames_of(samples: Seq<u32>) -> Seq<Seq<u32>> {
    Seq::new(
        (samples.len() / FRAME_SAMPLES as nat) as nat,
        |k: int| samples.subrange(k * FRAME_SAMPLES as int, (k + 1) * FRAME_SAMPLES as int),
    )
}

/// The samples of `samples` behind its last whole frame.
pub open spec fn remainder_of(samples: Seq<u32>) -> Seq<u32> {
    samples.skip((samples.len() / FRAME_SAMPLES as nat) * FRAME_SAMPLES as int)
}

/// The samples of each frame of `v`.
pub open spec fn frame_views(v: Seq<Vec<u32>>) -> Seq<Seq<u32>> {
    v.map_values(|f: Vec<u32>| f@)
}

/// The samples of `frames`, frame after frame.
pub open spec fn joined(frames: Seq<Seq<u32>>) -> Seq<u32>
    decreases frames.len(),
{
    if frames.len() == 0 {
        Seq::empty()
    } else {
        joined(frames.drop_last()) + frames.last()
    }
}

/// Nothing is lost and nothing is added: the frames that `samples` fills, followed by
/// the remainder, are `samples`.
pub proof fn lemma_frames_keep_every_sample(samples: Seq<u32>)
    ensures
        joined(frames_of(samples)) + remainder_of(samples) == samples,
        remainder_of(samples).len() < FRAME_SAMPLES,
        forall|k: int| 0 <= k < frames_of(samples).len() ==> (#[trigger] frames_of(samples)[k]).len()
            == FRAME_SAMPLES,
{
    let q = samples.len() / FRAME_SAMPLES as nat;
    lemma_joined_prefix(samples, q as int);
    assert(frames_of(samples).take(q as int) =~= frames_of(samples));
    assert(samples.take(q * FRAME_SAMPLES as int) + samples.skip(q * FRAME_SAMPLES as int) =~= samples);
}

proof fn lemma_joined_prefix(samples: Seq<u32>, k: int)
    requires
        0 <= k <= samples.len() / FRAME_SAMPLES as nat,
    ensures
        joined(frames_of(samples).take(k)) == samples.take(k * FRAME_SAMPLES as int),
    decreases k,
{
    let f = frames_of(samples);
    if k == 0 {
        assert(f.take(0) =~= Seq::<Seq<u32>>::empty());
        assert(samples.take(0) =~= Seq::<u32>::empty());
    } else {
        lemma_joined_prefix(samples, k - 1);
        assert(f.take(k).drop_last() =~= f.take(k - 1));
        assert(f.take(k).last() == samples.subrange((k - 1) * FRAME_SAMPLES as int, k * FRAME_SAMPLES as int));
        assert(samples.take((k - 1) * FRAME_SAMPLES as int) + samples.subrange(
            (k - 1) * FRAME_SAMPLES as int,
            k * FRAME_SAMPLES as int,
        ) =~= samples.take(k * FRAME_SAMPLES as int));
    }
}

/// Gathers samples into frames of `FRAME_SAMPLES`, whatever the sizes of the pieces in
/// which they arrive.
pub struct FrameAssembler {
    pending: Vec<u32>,
}

impl FrameAssembler {
    /// The samples that wait for their frame to fill.
    pub closed spec fn pending(&self) -> Seq<u32> {
        self.pending@
    }

    /// Fewer samples wait than a frame holds.
    pub open spec fn wf(&self) -> bool {
        self.pending().len() < FRAME_SAMPLES
    }

    pub fn new() -> (a: FrameAssembler)
        ensures
            a.wf(),
            a.pending() == Seq::<u32>::empty(),
    {
        FrameAssembler { pending: Vec::new() }
    }

    /// Takes the next samples and returns every frame they fill, at once.
    pub fn push(&mut self, samples: &[u32]) -> (frames: Vec<Vec<u32>>)
        requires
            old(self).wf(),
        ensures
            final(self).wf(),
            frame_views(frames@) == frames_of(old(self).pending() + samples@),
            final(self).pending() == remainder_of(old(self).pending() + samples@),
    {
        let ghost all = self.pending@ + samples@;
        let ghost start = self.pending@.len();
        let mut frames: Vec<Vec<u32>> = Vec::new();
        let mut i: usize = 0;
        assert(all.subrange(0, start as int) =~= self.pending@);
        while i < samples.len()
            invariant
                i <= samples.len(),
                all == old(self).pending() + samples@,
                start == old(self).pending().len(),
                start < FRAME_SAMPLES,
                self.pending@.len() < FRAME_SAMPLES,
                frames@.len() * FRAME_SAMPLES + self.pending@.len() == start + i,
                self.pending@ == all.subrange(frames@.len() * FRAME_SAMPLES as int, start + i),
                forall|k: int|
                    0 <= k < frames@.len() ==> (#[trigger] frames@[k])@ == all.subrange(
                        k * FRAME_SAMPLES as int,
                        (k + 1) * FRAME_SAMPLES as int,
                    ),
            decreases samples.len() - i,
        {
            self.pending.push(samples[i]);
            assert(self.pending@ =~= all.subrange(frames@.len() * FRAME_SAMPLES as int, start + i + 1));
            if self.pending.len() == FRAME_SAMPLES {
                let mut frame: Vec<u32> = Vec::new();
                core::mem::swap(&mut frame, &mut self.pending);
                frames.push(frame);
                assert(self.pending@ =~= all.subrange(frames@.len() * FRAME_SAMPLES as int, start + i + 1));
            }
            i += 1;
        }
        proof {
            let q = all.len() / FRAME_SAMPLES as nat;
            assert(frames@.len() == q) by (nonlinear_arith)
                requires
                    frames@.len() * FRAME_SAMPLES + self.pending@.len() == all.len(),
                    self.pending@.len() < FRAME_SAMPLES,
                    q == all.len() / FRAME_SAMPLES as nat,
                    FRAME_SAMPLES == 480,
            ;
            assert(frame_views(frames@) =~= frames_of(all));
            assert(self.pending@ =~= remainder_of(all));
        }
        frames
    }

    /// Hands out the samples that wait, and leaves the assembler empty.
    pub fn flush(&mut self) -> (rest: Vec<u32>)
        ensures
            rest@ == old(self).pending(),
            final(self).pending() == Seq::<u32>::empty(),
            final(self).wf(),
    {
        let mut rest: Vec<u32> = Vec::new();
        core::mem::swap(&mut rest, &mut self.pending);
        rest
    }
}

} // verus!
