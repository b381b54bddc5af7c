//! The recorder's accumulator: which samples of the stream count as recorded.

use vstd::prelude::*;
use crate::vad::{concat_frames, recent_frames, step_edge, step_phase, SmoothedVad, VadEdge, VadFrame};

verus! {

/// Gathers the samples of a recording. With the voice decision switched on, only what
/// the smoothed decision lets through is gathered; with it switched off, every sample.
pub struct AudioRecorder {
    vad: SmoothedVad,
    vad_enabled: bool,
    recording: bool,
    buffer: Vec<u32>,
}

/// What a frame adds to the recording.
pub open spec fn gathered(
    recording: bool,
    vad_enabled: bool,
    speech_after: bool,
    edge: Option<VadEdge>,
    kept_after: Seq<Seq<u32>>,
    frame: Seq<u32>,
) -> Seq<u32> {
    if !recording {
        Seq::empty()
    } else if !vad_enabled {
        frame
    } else if !speech_after {
        Seq::empty()
    } else if edge == Some(VadEdge::Start) {
        concat_frames(kept_after)
    } else {
        frame
    }
}

impl AudioRecorder {
    /// The smoother of the voice decision.
    pub closed spec fn smoother(&self) -> SmoothedVad {
        self.vad
    }

    pub closed spec fn vad_is_enabled(&self) -> bool {
        self.vad_enabled
    }

    pub closed spec fn recording(&self) -> bool {
        self.recording
    }

    /// The samples gathered since the recording began.
    pub closed spec fn gathered_so_far(&self) -> Seq<u32> {
        self.buffer@
    }

    pub open spec fn wf(&self) -> bool {
        self.smoother().wf()
    }

    /// A recorder that does not record, with the voice decision switched on.
    pub fn new(n_on: usize, n_off: usize, lookback: usize) -> (r: AudioRecorder)
        ensures
            r.wf(),
            !r.recording(),
            r.vad_is_enabled(),
            r.gathered_so_far() == Seq::<u32>::empty(),
            r.smoother().n_on() == n_on,
            r.smoother().n_off() == n_off,
            r.smoother().lookback() == lookback,
            !r.smoother().phase().in_speech,
            r.smoother().kept() == Seq::<Seq<u32>>::empty(),
    {
        AudioRecorder {
            vad: SmoothedVad::new(n_on, n_off, lookback),
            vad_enabled: true,
            recording: false,
            buffer: Vec::new(),
        }
    }

    /// Switches the voice decision on or off. In active listening it is off: audio
    /// flows without condition.
    pub fn set_vad_enabled(&mut self, enabled: bool)
        ensures
            final(self).vad_is_enabled() == enabled,
            final(self).smoother() == old(self).smoother(),
            final(self).recording() == old(self).recording(),
            final(self).gathered_so_far() == old(self).gathered_so_far(),
    {
        self.vad_enabled = enabled;
    }

    pub fn is_recording(&self) -> (b: bool)
        ensures
            b == self.recording(),
    {
        self.recording
    }

    /// Begins a recording. A recorder that records already goes on as it is.
    pub fn start(&mut self)
        ensures
            final(self).recording(),
            final(self).vad_is_enabled() == old(self).vad_is_enabled(),
            final(self).smoother() == old(self).smoother(),
            final(self).gathered_so_far() == (if old(self).recording() {
                old(self).gathered_so_far()
            } else {
                Seq::empty()
            }),
    {
        if !self.recording {
            self.recording = true;
            self.buffer.clear();
        }
    }

    /// Ends the recording and hands out what was gathered; nothing of it stays behind.
    pub fn stop(&mut self) -> (samples: Vec<u32>)
        ensures
            samples@ == old(self).gathered_so_far(),
            !final(self).recording(),
            final(self).gathered_so_far() == Seq::<u32>::empty(),
            final(self).vad_is_enabled() == old(self).vad_is_enabled(),
            final(self).smoother() == old(self).smoother(),
    {
        self.recording = false;
        let mut samples: Vec<u32> = Vec::new();
        core::mem::swap(&mut samples, &mut self.buffer);
        samples
    }

    /// Takes the next frame with the detector's decision on it. The smoothed decision
    /// follows every frame, recorded or not. What the frame adds to a running recording
    /// is the frame itself where the voice decision is off; else what the smoothed
    /// decision lets through: at the onset of speech the frames kept for it, during
    /// speech the frame, otherwise nothing.
    pub fn push_frame(&mut self, frame: &[u32], voiced: bool) -> (edge: Option<VadEdge>)
        requires
            old(self).wf(),
        ensures
            final(self).wf(),
            final(self).recording() == old(self).recording(),
            final(self).vad_is_enabled() == old(self).vad_is_enabled(),
            final(self).smoother().n_on() == old(self).smoother().n_on(),
            final(self).smoother().n_off() == old(self).smoother().n_off(),
            final(self).smoother().lookback() == old(self).smoother().lookback(),
            final(self).smoother().phase() == step_phase(
                old(self).smoother().n_on(),
                old(self).smoother().n_off(),
                old(self).smoother().phase(),
                voiced,
            ),
            edge == step_edge(
                old(self).smoother().n_on(),
                old(self).smoother().n_off(),
                old(self).smoother().phase(),
                voiced,
            ),
            final(self).smoother().kept() == recent_frames(
                old(self).smoother().kept().push(frame@),
                old(self).smoother().capacity(),
            ),
            final(self).gathered_so_far() == old(self).gathered_so_far() + gathered(
                old(self).recording(),
                old(self).vad_is_enabled(),
                final(self).smoother().phase().in_speech,
                edge,
                final(self).smoother().kept(),
                frame@,
            ),
    {
        let (out, edge) = self.vad.push_frame(frame, voiced);
        let ghost before = self.buffer@;
        if self.recording {
            if !self.vad_enabled {
                append(&mut self.buffer, frame);
            } else {
                match out {
                    VadFrame::Speech(samples) => {
                        append(&mut self.buffer, samples.as_slice());
                    },
                    VadFrame::Noise => {
                        assert(before + Seq::<u32>::empty() =~= before);
                    },
                }
            }
        } else {
            assert(before + Seq::<u32>::empty() =~= before);
        }
        edge
    }
}

fn append(buffer: &mut Vec<u32>, samples: &[u32])
    ensures
        final(buffer)@ == old(buffer)@ + samples@,
{
    let mut i: usize = 0;
    assert(old(buffer)@ + samples@.take(0) =~= old(buffer)@);
    while i < samples.len()
        invariant
            i <= samples.len(),
            buffer@ == old(buffer)@ + samples@.take(i as int),
        decreases samples.len() - i,
    {
        buffer.push(samples[i]);
        assert((old(buffer)@ + samples@.take(i as int)).push(samples@[i as int]) =~= old(buffer)@ + samples@.take(
            i + 1,
        ));
        i += 1;
    }
    assert(samples@.take(samples.len() as int) =~= samples@);
}

} // verus!
