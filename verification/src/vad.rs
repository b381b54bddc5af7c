//! Smoothing of a per-frame voice decision: speech becomes active only after a run of
//! voiced frames and ends only after a run of silent ones.

use vstd::prelude::*;
use std::collections::VecDeque;

verus! {

/// Voiced frames in a row that make speech active.
pub const DEFAULT_ONSET_FRAMES: usize = 15;

/// Silent frames in a row that end speech.
pub const DEFAULT_HANGOVER_FRAMES: usize = 15;

/// Frames from before the onset that are handed out when speech becomes active.
pub const DEFAULT_LOOKBACK_FRAMES: usize = 2;

/// A change of the smoothed decision.
#[derive(Debug, Clone, Copy, PartialEq, Eq, Structural)]
pub enum VadEdge {
    /// Speech became active with this frame.
    Start,
    /// Speech ended with this frame.
    End,
}

/// What the smoother lets through for one frame.
pub enum VadFrame {
    /// Samples that belong to speech.
    Speech(Vec<u32>),
    /// Nothing: the frame is not speech.
    Noise,
}

/// Where the smoother stands between two frames.
pub struct VadPhase {
    pub in_speech: bool,
    /// Voiced frames in a row, while speech is not active.
    pub onset: nat,
    /// Silent frames in a row, while speech is active.
    pub silence: nat,
}

/// The phase after a frame.
pub open spec fn step_phase(n_on: nat, n_off: nat, p: VadPhase, voiced: bool) -> VadPhase {
    if !p.in_speech {
        if !voiced {
            VadPhase { in_speech: false, onset: 0, silence: 0 }
        } else if p.onset + 1 >= n_on {
            VadPhase { in_speech: true, onset: 0, silence: 0 }
        } else {
            VadPhase { in_speech: false, onset: p.onset + 1, silence: 0 }
        }
    } else {
        if voiced {
            VadPhase { in_speech: true, onset: 0, silence: 0 }
        } else if p.silence + 1 >= n_off {
            VadPhase { in_speech: false, onset: 0, silence: 0 }
        } else {
            VadPhase { in_speech: true, onset: 0, silence: p.silence + 1 }
        }
    }
}

/// The edge that a frame causes, if any.
pub open spec fn step_edge(n_on: nat, n_off: nat, p: VadPhase, voiced: bool) -> Option<VadEdge> {
    let q = step_phase(n_on, n_off, p, voiced);
    if !p.in_speech && q.in_speech {
        Some(VadEdge::Start)
    } else if p.in_speech && !q.in_speech {
        Some(VadEdge::End)
    } else {
        None
    }
}

/// The phase after a sequence of frames.
pub open spec fn run_phase(n_on: nat, n_off: nat, p: VadPhase, frames: Seq<bool>) -> VadPhase
    decreases frames.len(),
{
    if frames.len() == 0 {
        p
    } else {
        run_phase(n_on, n_off, step_phase(n_on, n_off, p, frames[0]), frames.skip(1))
    }
}

/// How many times a sequence of frames causes the edge `e`.
pub open spec fn count_edges(n_on: nat, n_off: nat, p: VadPhase, frames: Seq<bool>, e: VadEdge) -> nat
    decreases frames.len(),
{
    if frames.len() == 0 {
        0
    } else {
        let here: nat = if step_edge(n_on, n_off, p, frames[0]) == Some(e) {
            1
        } else {
            0
        };
        here + count_edges(n_on, n_off, step_phase(n_on, n_off, p, frames[0]), frames.skip(1), e)
    }
}

/// Whether every frame of `frames` is `voiced`.
pub open spec fn all_frames(frames: Seq<bool>, voiced: bool) -> bool {
    forall|i: int| 0 <= i < frames.len() ==> frames[i] == voiced
}

/// Voiced frames while speech is active change nothing.
pub proof fn lemma_voiced_run_in_speech(n_on: nat, n_off: nat, p: VadPhase, frames: Seq<bool>)
    requires
        p.in_speech,
        all_frames(frames, true),
    ensures
        count_edges(n_on, n_off, p, frames, VadEdge::Start) == 0,
        count_edges(n_on, n_off, p, frames, VadEdge::End) == 0,
        run_phase(n_on, n_off, p, frames).in_speech,
    decreases frames.len(),
{
    if frames.len() > 0 {
        lemma_voiced_run_in_speech(n_on, n_off, step_phase(n_on, n_off, p, true), frames.skip(1));
    }
}

/// Silent frames while speech is not active change nothing.
pub proof fn lemma_silent_run_out_of_speech(n_on: nat, n_off: nat, p: VadPhase, frames: Seq<bool>)
    requires
        !p.in_speech,
        all_frames(frames, false),
    ensures
        count_edges(n_on, n_off, p, frames, VadEdge::Start) == 0,
        count_edges(n_on, n_off, p, frames, VadEdge::End) == 0,
        !run_phase(n_on, n_off, p, frames).in_speech,
    decreases frames.len(),
{
    if frames.len() > 0 {
        lemma_silent_run_out_of_speech(n_on, n_off, step_phase(n_on, n_off, p, false), frames.skip(1));
    }
}

/// A run of voiced frames that begins while speech is not active never ends speech, and
/// starts it exactly once if the run, with the voiced frames counted before it, is at
/// least `n_on` long, and not at all if it is shorter.
pub proof fn lemma_voiced_run(n_on: nat, n_off: nat, p: VadPhase, frames: Seq<bool>)
    requires
        !p.in_speech,
        all_frames(frames, true),
    ensures
        count_edges(n_on, n_off, p, frames, VadEdge::End) == 0,
        frames.len() > 0 && p.onset + frames.len() >= n_on ==> count_edges(
            n_on,
            n_off,
            p,
            frames,
            VadEdge::Start,
        ) == 1 && run_phase(n_on, n_off, p, frames).in_speech,
        frames.len() == 0 || p.onset + frames.len() < n_on ==> count_edges(
            n_on,
            n_off,
            p,
            frames,
            VadEdge::Start,
        ) == 0 && !run_phase(n_on, n_off, p, frames).in_speech,
    decreases frames.len(),
{
    if frames.len() > 0 {
        let q = step_phase(n_on, n_off, p, true);
        if q.in_speech {
            lemma_voiced_run_in_speech(n_on, n_off, q, frames.skip(1));
        } else {
            lemma_voiced_run(n_on, n_off, q, frames.skip(1));
        }
    }
}

/// A run of silent frames that begins while speech is active never starts speech, and
/// ends it exactly once if the run, with the silent frames counted before it, is at
/// least `n_off` long, and not at all if it is shorter.
pub proof fn lemma_silent_run(n_on: nat, n_off: nat, p: VadPhase, frames: Seq<bool>)
    requires
        p.in_speech,
        all_frames(frames, false),
    ensures
        count_edges(n_on, n_off, p, frames, VadEdge::Start) == 0,
        frames.len() > 0 && p.silence + frames.len() >= n_off ==> count_edges(
            n_on,
            n_off,
            p,
            frames,
            VadEdge::End,
        ) == 1 && !run_phase(n_on, n_off, p, frames).in_speech,
        frames.len() == 0 || p.silence + frames.len() < n_off ==> count_edges(
            n_on,
            n_off,
            p,
            frames,
            VadEdge::End,
        ) == 0 && run_phase(n_on, n_off, p, frames).in_speech,
    decreases frames.len(),
{
    if frames.len() > 0 {
        let q = step_phase(n_on, n_off, p, false);
        if !q.in_speech {
            lemma_silent_run_out_of_speech(n_on, n_off, q, frames.skip(1));
        } else {
            lemma_silent_run(n_on, n_off, q, frames.skip(1));
        }
    }
}

/// The samples of `frames`, frame after frame.
pub open spec fn concat_frames(frames: Seq<Seq<u32>>) -> Seq<u32>
    decreases frames.len(),
{
    if frames.len() == 0 {
        Seq::empty()
    } else {
        concat_frames(frames.drop_last()) + frames.last()
    }
}

/// The last `cap` frames of `frames`.
pub open spec fn recent_frames(frames: Seq<Seq<u32>>, cap: int) -> Seq<Seq<u32>> {
    if frames.len() > cap {
        frames.skip(frames.len() - cap)
    } else {
        frames
    }
}

/// The smoother with its counters and the frames it keeps for the lookback.
pub struct SmoothedVad {
    n_on: usize,
    n_off: usize,
    lookback: usize,
    in_speech: bool,
    onset_counter: usize,
    silence_counter: usize,
    frame_buffer: VecDeque<Vec<u32>>,
}

impl SmoothedVad {
    pub closed spec fn n_on(&self) -> nat {
        self.n_on as nat
    }

    pub closed spec fn n_off(&self) -> nat {
        self.n_off as nat
    }

    pub closed spec fn lookback(&self) -> nat {
        self.lookback as nat
    }

    /// How many frames the smoother keeps: the lookback and one onset run.
    pub open spec fn capacity(&self) -> int {
        if self.lookback() + self.n_on() > usize::MAX {
            usize::MAX as int
        } else if self.lookback() + self.n_on() == 0 {
            1
        } else {
            (self.lookback() + self.n_on()) as int
        }
    }

    pub closed spec fn phase(&self) -> VadPhase {
        VadPhase {
            in_speech: self.in_speech,
            onset: self.onset_counter as nat,
            silence: self.silence_counter as nat,
        }
    }

    /// The frames kept, oldest first.
    pub closed spec fn kept(&self) -> Seq<Seq<u32>> {
        self.frame_buffer@.map_values(|f: Vec<u32>| f@)
    }

    /// The counters stay below their limits.
    pub closed spec fn wf(&self) -> bool {
        &&& self.onset_counter < self.n_on || self.onset_counter == 0
        &&& self.silence_counter < self.n_off || self.silence_counter == 0
        &&& self.frame_buffer@.len() <= self.capacity()
    }

    /// A smoother in which speech is not active.
    pub fn new(n_on: usize, n_off: usize, lookback: usize) -> (v: SmoothedVad)
        ensures
            v.wf(),
            v.n_on() == n_on,
            v.n_off() == n_off,
            v.lookback() == lookback,
            v.phase() == (VadPhase { in_speech: false, onset: 0, silence: 0 }),
            v.kept() == Seq::<Seq<u32>>::empty(),
    {
        let v = SmoothedVad {
            n_on,
            n_off,
            lookback,
            in_speech: false,
            onset_counter: 0,
            silence_counter: 0,
            frame_buffer: VecDeque::new(),
        };
        assert(v.kept() =~= Seq::<Seq<u32>>::empty());
        v
    }

    pub fn is_speech_active(&self) -> (r: bool)
        ensures
            r == self.phase().in_speech,
    {
        self.in_speech
    }

    /// Takes the next frame with the detector's decision on it. The frame is kept for
    /// the lookback. When speech becomes active, all kept frames are handed out: the
    /// onset run and the lookback before it. While speech is active, and during the
    /// hangover, the frame itself is handed out. Otherwise the frame is noise.
    pub fn push_frame(&mut self, frame: &[u32], voiced: bool) -> (out: (VadFrame, Option<VadEdge>))
        requires
            old(self).wf(),
        ensures
            final(self).wf(),
            final(self).n_on() == old(self).n_on(),
            final(self).n_off() == old(self).n_off(),
            final(self).lookback() == old(self).lookback(),
            final(self).phase() == step_phase(old(self).n_on(), old(self).n_off(), old(self).phase(), voiced),
            out.1 == step_edge(old(self).n_on(), old(self).n_off(), old(self).phase(), voiced),
            final(self).kept() == recent_frames(old(self).kept().push(frame@), old(self).capacity()),
            match out.0 {
                VadFrame::Speech(samples) => final(self).phase().in_speech && samples@ == (if out.1
                    == Some(VadEdge::Start) {
                    concat_frames(final(self).kept())
                } else {
                    frame@
                }),
                VadFrame::Noise => !final(self).phase().in_speech,
            },
    {
        let cap = self.capacity_of();
        let ghost kept0 = self.kept();
        let copy = copy_of(frame);
        self.frame_buffer.push_back(copy);
        assert(self.kept() =~= kept0.push(frame@));
        let ghost all = self.kept();
        assert(all.skip(0) =~= all);
        while self.frame_buffer.len() > cap
            invariant
                self.n_on == old(self).n_on,
                self.n_off == old(self).n_off,
                self.lookback == old(self).lookback,
                self.in_speech == old(self).in_speech,
                self.onset_counter == old(self).onset_counter,
                self.silence_counter == old(self).silence_counter,
                cap == self.capacity(),
                cap >= 1,
                self.kept().len() <= all.len(),
                self.kept().len() >= cap || self.kept().len() == all.len(),
                self.kept() == all.skip(all.len() - self.kept().len()),
            decreases self.frame_buffer@.len(),
        {
            let ghost before = self.kept();
            let _ = self.frame_buffer.pop_front();
            assert(self.kept() =~= before.skip(1));
            assert(self.kept() =~= all.skip(all.len() - self.kept().len()));
        }
        if !self.in_speech {
            if !voiced {
                self.onset_counter = 0;
                self.silence_counter = 0;
                (VadFrame::Noise, None)
            } else if self.n_on == 0 || self.onset_counter + 1 >= self.n_on {
                self.in_speech = true;
                self.onset_counter = 0;
                self.silence_counter = 0;
                let samples = self.flatten_kept();
                (VadFrame::Speech(samples), Some(VadEdge::Start))
            } else {
                self.onset_counter = self.onset_counter + 1;
                self.silence_counter = 0;
                (VadFrame::Noise, None)
            }
        } else {
            if voiced {
                self.onset_counter = 0;
                self.silence_counter = 0;
                (VadFrame::Speech(copy_of(frame)), None)
            } else if self.n_off == 0 || self.silence_counter + 1 >= self.n_off {
                self.in_speech = false;
                self.onset_counter = 0;
                self.silence_counter = 0;
                (VadFrame::Noise, Some(VadEdge::End))
            } else {
                self.onset_counter = 0;
                self.silence_counter = self.silence_counter + 1;
                (VadFrame::Speech(copy_of(frame)), None)
            }
        }
    }

    fn capacity_of(&self) -> (c: usize)
        ensures
            c == self.capacity(),
            c >= 1,
    {
        if self.lookback > usize::MAX - self.n_on {
            usize::MAX
        } else if self.lookback + self.n_on == 0 {
            1
        } else {
            self.lookback + self.n_on
        }
    }

    fn flatten_kept(&self) -> (out: Vec<u32>)
        ensures
            out@ == concat_frames(self.kept()),
    {
        let mut out: Vec<u32> = Vec::new();
        let mut i: usize = 0;
        assert(self.kept().take(0) =~= Seq::<Seq<u32>>::empty());
        while i < self.frame_buffer.len()
            invariant
                i <= self.frame_buffer@.len(),
                out@ == concat_frames(self.kept().take(i as int)),
            decreases self.frame_buffer@.len() - i,
        {
            let f = &self.frame_buffer[i];
            let ghost before = out@;
            let mut j: usize = 0;
            while j < f.len()
                invariant
                    j <= f.len(),
                    out@ == before + f@.take(j as int),
                decreases f.len() - j,
            {
                out.push(f[j]);
                assert(f@.take(j + 1) =~= f@.take(j as int).push(f@[j as int]));
                assert((before + f@.take(j as int)).push(f@[j as int]) =~= before + f@.take(j + 1));
                j += 1;
            }
            proof {
                assert(f@.take(f.len() as int) =~= f@);
                let next = self.kept().take(i + 1);
                assert(next.drop_last() =~= self.kept().take(i as int));
                assert(next.last() == f@);
            }
            i += 1;
        }
        assert(self.kept().take(self.kept().len() as int) =~= self.kept());
        out
    }
}

/// A copy of `frame`.
fn copy_of(frame: &[u32]) -> (v: Vec<u32>)
    ensures
        v@ == frame@,
{
    let mut v: Vec<u32> = Vec::new();
    let mut i: usize = 0;
    while i < frame.len()
        invariant
            i <= frame.len(),
            v@ == frame@.take(i as int),
        decreases frame.len() - i,
    {
        v.push(frame[i]);
        assert(frame@.take(i + 1) =~= frame@.take(i as int).push(frame@[i as int]));
        i += 1;
    }
    assert(frame@.take(frame.len() as int) =~= frame@);
    v
}

} // verus!
