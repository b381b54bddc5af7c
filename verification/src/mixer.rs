//! The two sample queues of the mixer. A sample is carried as the 32 bits of its
//! value; weighting and scaling the samples is the caller's arithmetic.

use vstd::prelude::*;
use std::collections::VecDeque;

verus! {

/// The most samples one queue holds: five seconds at 16 kHz.
pub const MAX_BUFFER_SIZE: usize = 80000;

/// What is left of `s` when only its last `cap` items are kept.
pub open spec fn keep_last(s: Seq<u32>, cap: int) -> Seq<u32> {
    if s.len() > cap {
        s.skip(s.len() - cap)
    } else {
        s
    }
}

/// The smaller of two lengths.
pub open spec fn min_len(a: Seq<u32>, b: Seq<u32>) -> nat {
    if a.len() <= b.len() {
        a.len()
    } else {
        b.len()
    }
}

/// Queues for microphone and system audio, each holding at most `MAX_BUFFER_SIZE`
/// samples.
pub struct AudioMixer {
    mic_buffer: VecDeque<u32>,
    system_buffer: VecDeque<u32>,
    normalize: bool,
}

impl AudioMixer {
    /// The queued microphone samples, oldest first.
    pub closed spec fn mic(&self) -> Seq<u32> {
        self.mic_buffer@
    }

    /// The queued system samples, oldest first.
    pub closed spec fn system(&self) -> Seq<u32> {
        self.system_buffer@
    }

    /// Whether mixed output is to be scaled down when it would clip.
    pub closed spec fn normalizes(&self) -> bool {
        self.normalize
    }

    /// Neither queue is over its limit.
    pub open spec fn wf(&self) -> bool {
        self.mic().len() <= MAX_BUFFER_SIZE && self.system().len() <= MAX_BUFFER_SIZE
    }

    /// An empty mixer that normalizes.
    pub fn new() -> (m: AudioMixer)
        ensures
            m.wf(),
            m.mic() == Seq::<u32>::empty(),
            m.system() == Seq::<u32>::empty(),
            m.normalizes(),
    {
        AudioMixer { mic_buffer: VecDeque::new(), system_buffer: VecDeque::new(), normalize: true }
    }

    pub fn set_normalize(&mut self, normalize: bool)
        ensures
            final(self).mic() == old(self).mic(),
            final(self).system() == old(self).system(),
            final(self).normalizes() == normalize,
    {
        self.normalize = normalize;
    }

    pub fn normalize(&self) -> (r: bool)
        ensures
            r == self.normalizes(),
    {
        self.normalize
    }

    /// Queues microphone samples; beyond the limit the oldest samples are dropped.
    pub fn push_mic(&mut self, samples: &[u32])
        ensures
            final(self).mic() == keep_last(old(self).mic() + samples@, MAX_BUFFER_SIZE as int),
            final(self).mic().len() <= MAX_BUFFER_SIZE,
            final(self).system() == old(self).system(),
            final(self).normalizes() == old(self).normalizes(),
    {
        push_capped(&mut self.mic_buffer, samples);
    }

    /// Queues system samples; beyond the limit the oldest samples are dropped.
    pub fn push_system(&mut self, samples: &[u32])
        ensures
            final(self).system() == keep_last(old(self).system() + samples@, MAX_BUFFER_SIZE as int),
            final(self).system().len() <= MAX_BUFFER_SIZE,
            final(self).mic() == old(self).mic(),
            final(self).normalizes() == old(self).normalizes(),
    {
        push_capped(&mut self.system_buffer, samples);
    }

    /// How many samples can be mixed now: as many as the shorter queue holds.
    pub fn available_samples(&self) -> (n: usize)
        ensures
            n == min_len(self.mic(), self.system()),
    {
        let a = self.mic_buffer.len();
        let b = self.system_buffer.len();
        if a <= b {
            a
        } else {
            b
        }
    }

    /// Takes from the head of both queues the samples that can be mixed: as many from
    /// each as the shorter queue holds. What the longer queue holds beyond that stays.
    pub fn take_pairs(&mut self) -> (pair: (Vec<u32>, Vec<u32>))
        ensures
            pair.0@ == old(self).mic().take(min_len(old(self).mic(), old(self).system()) as int),
            pair.1@ == old(self).system().take(min_len(old(self).mic(), old(self).system()) as int),
            final(self).mic() == old(self).mic().skip(min_len(old(self).mic(), old(self).system()) as int),
            final(self).system() == old(self).system().skip(
                min_len(old(self).mic(), old(self).system()) as int,
            ),
            final(self).normalizes() == old(self).normalizes(),
    {
        let count = self.available_samples();
        let mic = take_front(&mut self.mic_buffer, count);
        let system = take_front(&mut self.system_buffer, count);
        (mic, system)
    }

    /// Takes all queued microphone samples.
    pub fn drain_mic(&mut self) -> (out: Vec<u32>)
        ensures
            out@ == old(self).mic(),
            final(self).mic() == Seq::<u32>::empty(),
            final(self).system() == old(self).system(),
            final(self).normalizes() == old(self).normalizes(),
    {
        let n = self.mic_buffer.len();
        let out = take_front(&mut self.mic_buffer, n);
        assert(old(self).mic().take(n as int) =~= old(self).mic());
        assert(old(self).mic().skip(n as int) =~= Seq::<u32>::empty());
        out
    }

    /// Takes all queued system samples.
    pub fn drain_system(&mut self) -> (out: Vec<u32>)
        ensures
            out@ == old(self).system(),
            final(self).system() == Seq::<u32>::empty(),
            final(self).mic() == old(self).mic(),
            final(self).normalizes() == old(self).normalizes(),
    {
        let n = self.system_buffer.len();
        let out = take_front(&mut self.system_buffer, n);
        assert(old(self).system().take(n as int) =~= old(self).system());
        assert(old(self).system().skip(n as int) =~= Seq::<u32>::empty());
        out
    }

    /// Empties both queues.
    pub fn clear(&mut self)
        ensures
            final(self).mic() == Seq::<u32>::empty(),
            final(self).system() == Seq::<u32>::empty(),
            final(self).normalizes() == old(self).normalizes(),
    {
        self.mic_buffer.clear();
        self.system_buffer.clear();
    }
}

/// Appends `samples` to `queue` and drops from its head what is over the limit.
fn push_capped(queue: &mut VecDeque<u32>, samples: &[u32])
    ensures
        final(queue)@ == keep_last(old(queue)@ + samples@, MAX_BUFFER_SIZE as int),
{
    let ghost start = queue@;
    let mut i: usize = 0;
    while i < samples.len()
        invariant
            i <= samples.len(),
            queue@ == start + samples@.take(i as int),
        decreases samples.len() - i,
    {
        queue.push_back(samples[i]);
        assert(samples@.take(i + 1) =~= samples@.take(i as int).push(samples@[i as int]));
        assert((start + samples@.take(i as int)).push(samples@[i as int]) =~= start + samples@.take(
            i + 1,
        ));
        i += 1;
    }
    assert(samples@.take(samples.len() as int) =~= samples@);
    let ghost all = queue@;
    while queue.len() > MAX_BUFFER_SIZE
        invariant
            queue@.len() <= all.len(),
            queue@.len() >= MAX_BUFFER_SIZE || queue@.len() == all.len(),
            queue@ == all.skip(all.len() - queue@.len()),
        decreases queue@.len(),
    {
        let _ = queue.pop_front();
        assert(queue@ =~= all.skip(all.len() - queue@.len()));
    }
    assert(all.skip(0) =~= all);
}

/// Takes the first `count` items off `queue`.
fn take_front(queue: &mut VecDeque<u32>, count: usize) -> (out: Vec<u32>)
    requires
        count <= old(queue)@.len(),
    ensures
        out@ == old(queue)@.take(count as int),
        final(queue)@ == old(queue)@.skip(count as int),
{
    let ghost all = queue@;
    let mut out: Vec<u32> = Vec::new();
    let mut i: usize = 0;
    assert(all.skip(0) =~= all);
    while i < count
        invariant
            i <= count <= all.len(),
            out@ == all.take(i as int),
            queue@ == all.skip(i as int),
        decreases count - i,
    {
        match queue.pop_front() {
            Some(x) => {
                out.push(x);
                assert(all.take(i + 1) =~= all.take(i as int).push(all[i as int]));
                assert(queue@ =~= all.skip(i + 1));
            },
            None => {
                assert(false);
            },
        }
        i += 1;
    }
    out
}

} // verus!
