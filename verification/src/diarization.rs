//! Two-speaker turn detection from per-frame energy evidence. The detector counts
//! samples and decides; measuring a frame's energy and comparing energies is the
//! caller's arithmetic, and reaches the detector as two truth values.

use vstd::prelude::*;

verus! {

/// Identifies a speaker: 0 is the primary speaker.
pub type SpeakerId = u32;

/// A detected change of speaker.
#[derive(Clone, Copy, Debug, PartialEq, Eq, Structural)]
pub struct SpeakerChange {
    /// The speaker after the change.
    pub new_speaker: SpeakerId,
    /// The speaker before the change.
    pub previous_speaker: SpeakerId,
    /// How many samples had been processed when the change was detected.
    pub sample_offset: usize,
}

/// The detector's settings that are counted in samples and frames.
#[derive(Clone, Copy, Debug, PartialEq, Eq, Structural)]
pub struct DiarizationConfig {
    /// Silence of at least this many milliseconds suggests that the speaker changes.
    pub min_silence_duration_ms: u32,
    /// Samples per second.
    pub sample_rate: u32,
    /// How many frame energies the rolling window holds.
    pub history_window_size: usize,
}

/// What the caller does with the frame's energy after the detector has decided.
#[derive(Clone, Copy, Debug, PartialEq, Eq, Structural)]
pub enum EnergyUpdate {
    /// A silent frame: the energy profile stays as it is.
    Keep,
    /// The speaker changed: the frame's energy becomes the new speaker's profile.
    Restart,
    /// The same speaker goes on: the frame's energy is blended into the profile.
    Blend,
}

/// What the detector remembers between frames.
pub struct DiarizerState {
    pub current_speaker: SpeakerId,
    pub speaker_count: nat,
    /// Non-silent frames in the rolling energy window.
    pub history_len: nat,
    /// Samples of silence in a row.
    pub silence_samples: nat,
    pub samples_since_change: nat,
    pub primary_baseline_set: bool,
    pub total_samples: nat,
}

/// The sum, held at the largest machine number.
pub open spec fn capped_sum(a: nat, b: nat) -> nat {
    if a + b > usize::MAX {
        usize::MAX as nat
    } else {
        a + b
    }
}

/// The state of a detector that has seen nothing.
pub open spec fn initial_state() -> DiarizerState {
    DiarizerState {
        current_speaker: 0,
        speaker_count: 1,
        history_len: 0,
        silence_samples: 0,
        samples_since_change: 0,
        primary_baseline_set: false,
        total_samples: 0,
    }
}

/// Samples of silence that count as a long silence.
pub open spec fn min_silence_samples(cfg: DiarizationConfig) -> nat {
    ((cfg.sample_rate as nat * cfg.min_silence_duration_ms as nat) / 1000) as nat
}

/// The window's fill after one more non-silent frame.
pub open spec fn grown_history(cfg: DiarizationConfig, len: nat) -> nat {
    if len + 1 > cfg.history_window_size {
        cfg.history_window_size as nat
    } else {
        len + 1
    }
}

/// Whether a non-silent frame of `frame_len` samples establishes the primary speaker's
/// baseline: none is set, more than two seconds of audio have been seen, and the window
/// holds ten energies.
pub open spec fn baseline_due_spec(cfg: DiarizationConfig, s: DiarizerState, frame_len: nat) -> bool {
    &&& !s.primary_baseline_set
    &&& capped_sum(s.total_samples, frame_len) > 2 * cfg.sample_rate
    &&& grown_history(cfg, s.history_len) >= 10
}

/// Whether a non-silent frame changes the speaker. After a long silence it does if the
/// current turn has lasted a second. Otherwise it does if the window holds five
/// energies, the frame's energy differs, and the current turn has lasted two seconds.
pub open spec fn speaker_changes(
    cfg: DiarizationConfig,
    s: DiarizerState,
    frame_len: nat,
    energy_differs: bool,
) -> bool {
    let since = capped_sum(s.samples_since_change, frame_len);
    if s.silence_samples >= min_silence_samples(cfg) {
        since >= cfg.sample_rate
    } else {
        grown_history(cfg, s.history_len) >= 5 && energy_differs && since >= 2 * cfg.sample_rate
    }
}

/// The state after a frame.
pub open spec fn step_state(
    cfg: DiarizationConfig,
    s: DiarizerState,
    frame_len: nat,
    is_silence: bool,
    energy_differs: bool,
) -> DiarizerState {
    let total = capped_sum(s.total_samples, frame_len);
    if is_silence {
        DiarizerState {
            silence_samples: capped_sum(s.silence_samples, frame_len),
            samples_since_change: capped_sum(s.samples_since_change, frame_len),
            total_samples: total,
            ..s
        }
    } else {
        let changed = speaker_changes(cfg, s, frame_len, energy_differs);
        DiarizerState {
            current_speaker: if changed {
                if s.current_speaker == 0 {
                    1u32
                } else {
                    0u32
                }
            } else {
                s.current_speaker
            },
            speaker_count: if changed && s.current_speaker == 0 && s.speaker_count < 2 {
                2
            } else {
                s.speaker_count
            },
            history_len: grown_history(cfg, s.history_len),
            silence_samples: 0,
            samples_since_change: if changed {
                0
            } else {
                capped_sum(s.samples_since_change, frame_len)
            },
            primary_baseline_set: s.primary_baseline_set || baseline_due_spec(cfg, s, frame_len),
            total_samples: total,
        }
    }
}

/// The change that a frame reports, if any.
pub open spec fn step_change(
    cfg: DiarizationConfig,
    s: DiarizerState,
    frame_len: nat,
    is_silence: bool,
    energy_differs: bool,
) -> Option<SpeakerChange> {
    if !is_silence && speaker_changes(cfg, s, frame_len, energy_differs) {
        Some(
            SpeakerChange {
                new_speaker: if s.current_speaker == 0 {
                    1u32
                } else {
                    0u32
                },
                previous_speaker: s.current_speaker,
                sample_offset: capped_sum(s.total_samples, frame_len) as usize,
            },
        )
    } else {
        None
    }
}

/// What a frame asks of the caller's energy profile.
pub open spec fn step_update(
    cfg: DiarizationConfig,
    s: DiarizerState,
    frame_len: nat,
    is_silence: bool,
    energy_differs: bool,
) -> EnergyUpdate {
    if is_silence {
        EnergyUpdate::Keep
    } else if speaker_changes(cfg, s, frame_len, energy_differs) {
        EnergyUpdate::Restart
    } else {
        EnergyUpdate::Blend
    }
}

/// What holds of every state the detector reaches: there is at least one speaker and at
/// most two, the current speaker is one of them, and the counters fit the machine.
pub open spec fn state_ok(cfg: DiarizationConfig, s: DiarizerState) -> bool {
    &&& 1 <= s.speaker_count <= 2
    &&& s.current_speaker < s.speaker_count
    &&& s.history_len <= cfg.history_window_size
    &&& s.silence_samples <= usize::MAX
    &&& s.samples_since_change <= usize::MAX
    &&& s.total_samples <= usize::MAX
}

/// Every frame keeps the detector's state in order; the speaker count never drops.
pub proof fn lemma_step_keeps_order(
    cfg: DiarizationConfig,
    s: DiarizerState,
    frame_len: nat,
    is_silence: bool,
    energy_differs: bool,
)
    requires
        state_ok(cfg, s),
    ensures
        state_ok(cfg, step_state(cfg, s, frame_len, is_silence, energy_differs)),
        step_state(cfg, s, frame_len, is_silence, energy_differs).speaker_count >= s.speaker_count,
{
}

/// A silent frame right after a reset reports no change and leaves one speaker.
pub proof fn lemma_silence_after_reset(cfg: DiarizationConfig, frame_len: nat, energy_differs: bool)
    ensures
        step_change(cfg, initial_state(), frame_len, true, energy_differs) is None,
        step_state(cfg, initial_state(), frame_len, true, energy_differs).speaker_count == 1,
        step_state(cfg, initial_state(), frame_len, true, energy_differs).current_speaker == 0,
{
}

/// A silent frame never reports a change, whatever came before.
pub proof fn lemma_silence_reports_nothing(
    cfg: DiarizationConfig,
    s: DiarizerState,
    frame_len: nat,
    energy_differs: bool,
)
    ensures
        step_change(cfg, s, frame_len, true, energy_differs) is None,
        step_state(cfg, s, frame_len, true, energy_differs).current_speaker == s.current_speaker,
        step_state(cfg, s, frame_len, true, energy_differs).speaker_count == s.speaker_count,
{
}

/// The energy-based detector of speaker turns.
pub struct EnergyBasedDiarizer {
    config: DiarizationConfig,
    current_speaker: SpeakerId,
    speaker_count: usize,
    history_len: usize,
    silence_samples: usize,
    samples_since_change: usize,
    primary_baseline_set: bool,
    total_samples: usize,
}

impl DiarizationConfig {
    /// Half a second of silence, 16 kHz, a window of twenty frames.
    pub fn default() -> (c: DiarizationConfig)
        ensures
            c == (DiarizationConfig {
                min_silence_duration_ms: 500,
                sample_rate: 16000,
                history_window_size: 20,
            }),
    {
        DiarizationConfig { min_silence_duration_ms: 500, sample_rate: 16000, history_window_size: 20 }
    }
}

fn add_capped(a: usize, b: usize) -> (r: usize)
    ensures
        r == capped_sum(a as nat, b as nat),
{
    if a > usize::MAX - b {
        usize::MAX
    } else {
        a + b
    }
}

impl EnergyBasedDiarizer {
    pub closed spec fn config(&self) -> DiarizationConfig {
        self.config
    }

    pub closed spec fn state(&self) -> DiarizerState {
        DiarizerState {
            current_speaker: self.current_speaker,
            speaker_count: self.speaker_count as nat,
            history_len: self.history_len as nat,
            silence_samples: self.silence_samples as nat,
            samples_since_change: self.samples_since_change as nat,
            primary_baseline_set: self.primary_baseline_set,
            total_samples: self.total_samples as nat,
        }
    }

    pub open spec fn wf(&self) -> bool {
        state_ok(self.config(), self.state())
    }

    /// A detector with the default settings.
    pub fn new() -> (d: EnergyBasedDiarizer)
        ensures
            d.wf(),
            d.config() == (DiarizationConfig {
                min_silence_duration_ms: 500,
                sample_rate: 16000,
                history_window_size: 20,
            }),
            d.state() == initial_state(),
    {
        Self::with_config(DiarizationConfig::default())
    }

    /// A detector with the given settings.
    pub fn with_config(config: DiarizationConfig) -> (d: EnergyBasedDiarizer)
        ensures
            d.wf(),
            d.config() == config,
            d.state() == initial_state(),
    {
        EnergyBasedDiarizer {
            config,
            current_speaker: 0,
            speaker_count: 1,
            history_len: 0,
            silence_samples: 0,
            samples_since_change: 0,
            primary_baseline_set: false,
            total_samples: 0,
        }
    }

    pub fn get_current_speaker(&self) -> (id: SpeakerId)
        ensures
            id == self.state().current_speaker,
    {
        self.current_speaker
    }

    pub fn get_speaker_count(&self) -> (n: usize)
        ensures
            n == self.state().speaker_count,
    {
        self.speaker_count
    }

    /// How many energies the rolling window holds.
    pub fn history_len(&self) -> (n: usize)
        ensures
            n == self.state().history_len,
    {
        self.history_len
    }

    pub fn has_primary_baseline(&self) -> (b: bool)
        ensures
            b == self.state().primary_baseline_set,
    {
        self.primary_baseline_set
    }

    fn min_silence(&self) -> (n: u64)
        ensures
            n == min_silence_samples(self.config()),
    {
        let sr: u64 = self.config.sample_rate as u64;
        let ms: u64 = self.config.min_silence_duration_ms as u64;
        assert(sr * ms <= 0xFFFF_FFFF * 0xFFFF_FFFF) by (nonlinear_arith)
            requires
                sr <= 0xFFFF_FFFF,
                ms <= 0xFFFF_FFFF,
        ;
        (sr * ms) / 1000
    }

    fn grown(&self) -> (n: usize)
        requires
            self.wf(),
        ensures
            n == grown_history(self.config(), self.state().history_len),
    {
        if self.history_len >= self.config.history_window_size {
            self.config.history_window_size
        } else {
            self.history_len + 1
        }
    }

    /// Whether the next frame, if it is not silent and has `frame_len` samples, is the
    /// one at which the caller fixes the primary speaker's baseline energy.
    pub fn baseline_due(&self, frame_len: usize) -> (due: bool)
        requires
            self.wf(),
        ensures
            due == baseline_due_spec(self.config(), self.state(), frame_len as nat),
    {
        let total = add_capped(self.total_samples, frame_len);
        !self.primary_baseline_set && (total as u64) > 2 * (self.config.sample_rate as u64)
            && self.grown() >= 10
    }

    /// Takes the evidence of one frame: its length, whether it is silent, and whether
    /// its energy differs from the speaker's profile by more than the configured factor.
    /// Returns the change of speaker, if the frame causes one, and what the caller does
    /// with the frame's energy.
    pub fn process_frame(&mut self, frame_len: usize, is_silence: bool, energy_differs: bool) -> (out: (
        Option<SpeakerChange>,
        EnergyUpdate,
    ))
        requires
            old(self).wf(),
        ensures
            final(self).wf(),
            final(self).config() == old(self).config(),
            final(self).state() == step_state(
                old(self).config(),
                old(self).state(),
                frame_len as nat,
                is_silence,
                energy_differs,
            ),
            out.0 == step_change(
                old(self).config(),
                old(self).state(),
                frame_len as nat,
                is_silence,
                energy_differs,
            ),
            out.1 == step_update(
                old(self).config(),
                old(self).state(),
                frame_len as nat,
                is_silence,
                energy_differs,
            ),
    {
        let previous_speaker = self.current_speaker;
        let total = add_capped(self.total_samples, frame_len);
        let since = add_capped(self.samples_since_change, frame_len);
        if is_silence {
            self.silence_samples = add_capped(self.silence_samples, frame_len);
            self.samples_since_change = since;
            self.total_samples = total;
            return (None, EnergyUpdate::Keep);
        }
        let was_long_silence = (self.silence_samples as u64) >= self.min_silence();
        let grown = self.grown();
        let due = self.baseline_due(frame_len);
        let rate: u64 = self.config.sample_rate as u64;
        let changed = if was_long_silence {
            (since as u64) >= rate
        } else {
            grown >= 5 && energy_differs && (since as u64) >= 2 * rate
        };
        self.total_samples = total;
        self.history_len = grown;
        self.silence_samples = 0;
        if due {
            self.primary_baseline_set = true;
        }
        if changed {
            let new_speaker: SpeakerId = if previous_speaker == 0 {
                if self.speaker_count < 2 {
                    self.speaker_count = 2;
                }
                1
            } else {
                0
            };
            self.current_speaker = new_speaker;
            self.samples_since_change = 0;
            (
                Some(SpeakerChange { new_speaker, previous_speaker, sample_offset: total }),
                EnergyUpdate::Restart,
            )
        } else {
            self.samples_since_change = since;
            (None, EnergyUpdate::Blend)
        }
    }

    /// Puts the detector back to where it began.
    pub fn reset(&mut self)
        ensures
            final(self).config() == old(self).config(),
            final(self).state() == initial_state(),
            final(self).wf(),
    {
        self.current_speaker = 0;
        self.speaker_count = 1;
        self.history_len = 0;
        self.silence_samples = 0;
        self.samples_since_change = 0;
        self.primary_baseline_set = false;
        self.total_samples = 0;
    }
}

} // verus!
