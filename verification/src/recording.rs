//! The recording manager's decisions: who owns the recording, when the microphone
//! stream is open, and when the system output is muted. Opening and closing the device
//! is the caller's work; how the device answered is handed in.

use vstd::prelude::*;
use crate::text::{copy_string, same_text};

verus! {

/// Samples per second that the transcription model expects.
pub const WHISPER_SAMPLE_RATE: usize = 16000;

/// The length that a short recording is filled up to: a second and a quarter.
pub const PADDED_LENGTH: usize = 20000;

/// Whether a recording runs, and for which binding.
#[derive(Clone, Debug)]
pub enum RecordingState {
    Idle,
    Recording { binding_id: String },
}

/// How the microphone is held.
#[derive(Clone, Copy, Debug, PartialEq, Eq, Structural)]
pub enum MicrophoneMode {
    /// The stream stays open.
    AlwaysOn,
    /// The stream is open only while a recording runs.
    OnDemand,
    /// The stream stays open and every sample is handed on.
    ActiveListening,
}

/// What the caller does to the system output.
#[derive(Clone, Copy, Debug, PartialEq, Eq, Structural)]
pub enum MuteCommand {
    /// Leave the output as it is.
    Leave,
    /// Mute the output.
    Mute,
    /// Unmute the output.
    Unmute,
}

/// Whether the system output is muted after `command`, if it was `muted` before.
pub open spec fn output_after(muted: bool, command: MuteCommand) -> bool {
    match command {
        MuteCommand::Leave => muted,
        MuteCommand::Mute => true,
        MuteCommand::Unmute => false,
    }
}

/// The manager as plain values.
pub struct RecorderView {
    /// The binding that owns the running recording.
    pub owner: Option<Seq<char>>,
    pub mode: MicrophoneMode,
    /// Whether the microphone stream is open.
    pub is_open: bool,
    /// Whether the recorder gathers samples.
    pub is_recording: bool,
    /// Whether this manager muted the system output and has not unmuted it since.
    pub did_mute: bool,
}

/// The manager after the stream was asked to open, where opening succeeds as
/// `stream_opens` says. An open stream is left alone.
pub open spec fn opened(v: RecorderView, stream_opens: bool) -> RecorderView {
    if v.is_open {
        v
    } else {
        RecorderView { is_open: stream_opens, did_mute: false, ..v }
    }
}

/// Whether asking the stream to open succeeds.
pub open spec fn open_succeeds(v: RecorderView, stream_opens: bool) -> bool {
    v.is_open || stream_opens
}

/// The manager after the stream was closed.
pub open spec fn closed(v: RecorderView) -> RecorderView {
    if v.is_open {
        RecorderView { is_open: false, is_recording: false, did_mute: false, ..v }
    } else {
        v
    }
}

/// What closing the stream does to the system output.
pub open spec fn close_command(v: RecorderView) -> MuteCommand {
    if v.is_open && v.did_mute {
        MuteCommand::Unmute
    } else {
        MuteCommand::Leave
    }
}

/// Whether `binding_id` gets the recording: none runs, the stream is or comes open, and
/// the recorder starts.
pub open spec fn start_succeeds(v: RecorderView, stream_opens: bool, recorder_starts: bool) -> bool {
    &&& v.owner is None
    &&& v.mode == MicrophoneMode::OnDemand ==> open_succeeds(v, stream_opens)
    &&& recorder_starts
}

/// The manager after `binding_id` asked for the recording.
pub open spec fn after_start(
    v: RecorderView,
    binding_id: Seq<char>,
    stream_opens: bool,
    recorder_starts: bool,
) -> RecorderView {
    if v.owner is Some {
        v
    } else {
        let o = if v.mode == MicrophoneMode::OnDemand {
            opened(v, stream_opens)
        } else {
            v
        };
        if start_succeeds(v, stream_opens, recorder_starts) {
            RecorderView { owner: Some(binding_id), is_recording: true, ..o }
        } else {
            o
        }
    }
}

/// Whether asking for muting mutes the system output: the user asked for that, the
/// stream is open, and the output is not muted already.
pub open spec fn mutes(v: RecorderView, mute_while_recording: bool, muted_before: bool) -> bool {
    mute_while_recording && v.is_open && !muted_before
}

/// The manager after muting was asked for, `muted_before` telling whether the system
/// output was muted then: the manager remembers a mute only where it changed the
/// output.
pub open spec fn after_apply_mute(v: RecorderView, mute_while_recording: bool, muted_before: bool) -> RecorderView {
    if mutes(v, mute_while_recording, muted_before) {
        RecorderView { did_mute: true, ..v }
    } else {
        v
    }
}

/// What asking for muting does to the system output.
pub open spec fn apply_mute_command(v: RecorderView, mute_while_recording: bool, muted_before: bool) -> MuteCommand {
    if mutes(v, mute_while_recording, muted_before) {
        MuteCommand::Mute
    } else {
        MuteCommand::Leave
    }
}

/// What taking the mute back does to the system output.
pub open spec fn remove_mute_command(v: RecorderView) -> MuteCommand {
    if v.did_mute {
        MuteCommand::Unmute
    } else {
        MuteCommand::Leave
    }
}

/// Whether `binding_id` owns the running recording.
pub open spec fn owns(v: RecorderView, binding_id: Seq<char>) -> bool {
    v.owner == Some(binding_id)
}

/// The manager after the recording ended, by its owner or by cancellation.
pub open spec fn after_end(v: RecorderView) -> RecorderView {
    let idle = RecorderView { owner: None, is_recording: false, ..v };
    if v.mode == MicrophoneMode::OnDemand {
        closed(idle)
    } else {
        idle
    }
}

/// What the end of the recording by its owner does to the system output.
pub open spec fn end_command(v: RecorderView) -> MuteCommand {
    if v.mode == MicrophoneMode::OnDemand {
        close_command(v)
    } else {
        MuteCommand::Leave
    }
}

/// The manager after a cancellation: a running recording ends and the mute is taken
/// back.
pub open spec fn after_cancel(v: RecorderView) -> RecorderView {
    if v.owner is Some {
        RecorderView { did_mute: false, ..after_end(v) }
    } else {
        v
    }
}

/// What a cancellation does to the system output.
pub open spec fn cancel_command(v: RecorderView) -> MuteCommand {
    if v.owner is Some && v.did_mute {
        MuteCommand::Unmute
    } else {
        MuteCommand::Leave
    }
}

/// The samples handed to transcription: a recording that is not empty and shorter than
/// a second is filled with zeros up to `PADDED_LENGTH`.
pub open spec fn padded(samples: Seq<u32>) -> Seq<u32> {
    if 0 < samples.len() < WHISPER_SAMPLE_RATE {
        samples + Seq::new((PADDED_LENGTH - samples.len()) as nat, |i: int| 0u32)
    } else {
        samples
    }
}

/// Fills a short recording with zeros.
pub fn pad_short_recording(samples: Vec<u32>) -> (out: Vec<u32>)
    ensures
        out@ == padded(samples@),
{
    let n = samples.len();
    if n < WHISPER_SAMPLE_RATE && n > 0 {
        let mut out = samples;
        let mut i: usize = n;
        while i < PADDED_LENGTH
            invariant
                n <= i <= PADDED_LENGTH,
                out@.len() == i,
                out@ == samples@ + Seq::new((i - n) as nat, |j: int| 0u32),
            decreases PADDED_LENGTH - i,
        {
            out.push(0);
            assert(out@ =~= samples@ + Seq::new((i + 1 - n) as nat, |j: int| 0u32));
            i += 1;
        }
        out
    } else {
        samples
    }
}

/// Decides on recordings, the microphone stream and the mute.
pub struct AudioRecordingManager {
    state: RecordingState,
    mode: MicrophoneMode,
    is_open: bool,
    is_recording: bool,
    did_mute: bool,
}

impl View for AudioRecordingManager {
    type V = RecorderView;

    closed spec fn view(&self) -> RecorderView {
        RecorderView {
            owner: match self.state {
                RecordingState::Idle => None,
                RecordingState::Recording { binding_id } => Some(binding_id@),
            },
            mode: self.mode,
            is_open: self.is_open,
            is_recording: self.is_recording,
            did_mute: self.did_mute,
        }
    }
}

impl AudioRecordingManager {
    /// A manager without a recording. With `always_on_microphone` the stream is opened
    /// at once; if that fails there is no manager.
    pub fn new(always_on_microphone: bool, stream_opens: bool) -> (m: Option<AudioRecordingManager>)
        ensures
            m is Some == (!always_on_microphone || stream_opens),
            m is Some ==> m->0@ == (RecorderView {
                owner: None,
                mode: if always_on_microphone {
                    MicrophoneMode::AlwaysOn
                } else {
                    MicrophoneMode::OnDemand
                },
                is_open: always_on_microphone,
                is_recording: false,
                did_mute: false,
            }),
    {
        if always_on_microphone && !stream_opens {
            return None;
        }
        Some(
            AudioRecordingManager {
                state: RecordingState::Idle,
                mode: if always_on_microphone {
                    MicrophoneMode::AlwaysOn
                } else {
                    MicrophoneMode::OnDemand
                },
                is_open: always_on_microphone,
                is_recording: false,
                did_mute: false,
            },
        )
    }

    pub fn mode(&self) -> (m: MicrophoneMode)
        ensures
            m == self@.mode,
    {
        self.mode
    }

    pub fn is_open(&self) -> (b: bool)
        ensures
            b == self@.is_open,
    {
        self.is_open
    }

    /// Whether a recording runs.
    pub fn is_recording(&self) -> (b: bool)
        ensures
            b == self@.owner is Some,
    {
        match &self.state {
            RecordingState::Idle => false,
            RecordingState::Recording { .. } => true,
        }
    }

    pub fn is_active_listening(&self) -> (b: bool)
        ensures
            b == (self@.mode == MicrophoneMode::ActiveListening),
    {
        self.mode == MicrophoneMode::ActiveListening
    }

    /// A copy of the recording state.
    pub fn state(&self) -> (s: RecordingState)
        ensures
            match s {
                RecordingState::Idle => self@.owner is None,
                RecordingState::Recording { binding_id } => self@.owner == Some(binding_id@),
            },
    {
        match &self.state {
            RecordingState::Idle => RecordingState::Idle,
            RecordingState::Recording { binding_id } => RecordingState::Recording {
                binding_id: copy_string(binding_id),
            },
        }
    }

    /// Mutes the system output if the user asked for that, the stream is open, and the
    /// output is not muted already, as `muted_before` tells. An output that was muted
    /// before is left alone, now and when the mute is taken back.
    pub fn apply_mute(&mut self, mute_while_recording: bool, muted_before: bool) -> (command: MuteCommand)
        ensures
            final(self)@ == after_apply_mute(old(self)@, mute_while_recording, muted_before),
            command == apply_mute_command(old(self)@, mute_while_recording, muted_before),
    {
        if mute_while_recording && self.is_open && !muted_before {
            self.did_mute = true;
            MuteCommand::Mute
        } else {
            MuteCommand::Leave
        }
    }

    /// Takes the mute back if this manager applied it.
    pub fn remove_mute(&mut self) -> (command: MuteCommand)
        ensures
            final(self)@ == (RecorderView { did_mute: false, ..old(self)@ }),
            command == remove_mute_command(old(self)@),
    {
        if self.did_mute {
            self.did_mute = false;
            MuteCommand::Unmute
        } else {
            MuteCommand::Leave
        }
    }

    /// Opens the microphone stream unless it is open. Returns whether the stream is open
    /// afterwards.
    pub fn start_microphone_stream(&mut self, stream_opens: bool) -> (ok: bool)
        ensures
            final(self)@ == opened(old(self)@, stream_opens),
            ok == open_succeeds(old(self)@, stream_opens),
    {
        if self.is_open {
            return true;
        }
        self.did_mute = false;
        self.is_open = stream_opens;
        stream_opens
    }

    /// Closes the microphone stream if it is open: a mute is taken back and a running
    /// recorder is stopped first.
    pub fn stop_microphone_stream(&mut self) -> (command: MuteCommand)
        ensures
            final(self)@ == closed(old(self)@),
            command == close_command(old(self)@),
    {
        if !self.is_open {
            return MuteCommand::Leave;
        }
        let command = if self.did_mute {
            MuteCommand::Unmute
        } else {
            MuteCommand::Leave
        };
        self.did_mute = false;
        self.is_recording = false;
        self.is_open = false;
        command
    }

    /// Switches between holding the stream open and opening it on demand. Going to
    /// on-demand closes the stream if no recording runs; going to always-on opens it,
    /// and fails, leaving the mode, if it does not open. Any other change only sets the
    /// mode.
    pub fn update_mode(&mut self, new_mode: MicrophoneMode, stream_opens: bool) -> (out: (
        MuteCommand,
        Result<(), String>,
    ))
        ensures
            ({
                let v = old(self)@;
                if v.mode == MicrophoneMode::AlwaysOn && new_mode == MicrophoneMode::OnDemand {
                    &&& out.1 is Ok
                    &&& out.0 == (if v.owner is None {
                        close_command(v)
                    } else {
                        MuteCommand::Leave
                    })
                    &&& final(self)@ == (RecorderView {
                        mode: new_mode,
                        ..if v.owner is None {
                            closed(v)
                        } else {
                            v
                        }
                    })
                } else if v.mode == MicrophoneMode::OnDemand && new_mode == MicrophoneMode::AlwaysOn {
                    &&& out.0 == MuteCommand::Leave
                    &&& out.1 is Ok == open_succeeds(v, stream_opens)
                    &&& out.1 is Err ==> out.1->Err_0@ == "Failed to open recorder"@
                    &&& final(self)@ == (RecorderView {
                        mode: if open_succeeds(v, stream_opens) {
                            new_mode
                        } else {
                            v.mode
                        },
                        ..opened(v, stream_opens)
                    })
                } else {
                    &&& out.0 == MuteCommand::Leave
                    &&& out.1 is Ok
                    &&& final(self)@ == (RecorderView { mode: new_mode, ..v })
                }
            }),
    {
        let mut command = MuteCommand::Leave;
        if self.mode == MicrophoneMode::AlwaysOn && new_mode == MicrophoneMode::OnDemand {
            if !self.is_recording() {
                command = self.stop_microphone_stream();
            }
        } else if self.mode == MicrophoneMode::OnDemand && new_mode == MicrophoneMode::AlwaysOn {
            if !self.start_microphone_stream(stream_opens) {
                return (command, Err("Failed to open recorder".to_owned()));
            }
        }
        self.mode = new_mode;
        (command, Ok(()))
    }

    /// Asks for the recording on behalf of `binding_id`. A running recording is never
    /// taken over. On demand the stream is opened first. Returns whether `binding_id`
    /// now owns the recording.
    pub fn try_start_recording(&mut self, binding_id: &str, stream_opens: bool, recorder_starts: bool) -> (ok:
        bool)
        ensures
            final(self)@ == after_start(old(self)@, binding_id@, stream_opens, recorder_starts),
            ok == start_succeeds(old(self)@, stream_opens, recorder_starts),
    {
        if self.is_recording() {
            return false;
        }
        if self.mode == MicrophoneMode::OnDemand {
            if !self.start_microphone_stream(stream_opens) {
                return false;
            }
        }
        if recorder_starts {
            self.is_recording = true;
            self.state = RecordingState::Recording { binding_id: binding_id.to_owned() };
            true
        } else {
            false
        }
    }

    /// Ends the recording if `binding_id` owns it and returns what was recorded, a short
    /// recording filled up. On demand the stream is closed. For any other binding
    /// nothing changes and nothing is returned.
    pub fn stop_recording(&mut self, binding_id: &str, recorded: Vec<u32>) -> (out: (
        Option<Vec<u32>>,
        MuteCommand,
    ))
        ensures
            owns(old(self)@, binding_id@) ==> final(self)@ == after_end(old(self)@) && out.0 is Some
                && out.0->0@ == padded(recorded@) && out.1 == end_command(old(self)@),
            !owns(old(self)@, binding_id@) ==> final(self)@ == old(self)@ && out.0 is None && out.1
                == MuteCommand::Leave,
    {
        let is_owner = match &self.state {
            RecordingState::Idle => false,
            RecordingState::Recording { binding_id: active } => same_text(active.as_str(), binding_id),
        };
        if !is_owner {
            return (None, MuteCommand::Leave);
        }
        self.state = RecordingState::Idle;
        self.is_recording = false;
        let command = if self.mode == MicrophoneMode::OnDemand {
            self.stop_microphone_stream()
        } else {
            MuteCommand::Leave
        };
        (Some(pad_short_recording(recorded)), command)
    }

    /// Ends a running recording without handing out what was recorded, and takes the
    /// mute back.
    pub fn cancel_recording(&mut self) -> (command: MuteCommand)
        ensures
            final(self)@ == after_cancel(old(self)@),
            command == cancel_command(old(self)@),
    {
        if !self.is_recording() {
            return MuteCommand::Leave;
        }
        let command = if self.did_mute {
            MuteCommand::Unmute
        } else {
            MuteCommand::Leave
        };
        self.state = RecordingState::Idle;
        self.is_recording = false;
        self.did_mute = false;
        if self.mode == MicrophoneMode::OnDemand {
            let _ = self.stop_microphone_stream();
        }
        command
    }

    /// Goes to active listening: the stream is closed and opened anew so that samples
    /// are handed on, and the recorder runs without a break. Fails if the stream does
    /// not open or the recorder does not start; the mode is active listening even then.
    pub fn start_active_listening(&mut self, stream_opens: bool, recorder_starts: bool) -> (out: (
        MuteCommand,
        Result<(), String>,
    ))
        ensures
            ({
                let v = old(self)@;
                if v.mode == MicrophoneMode::ActiveListening {
                    out.0 == MuteCommand::Leave && out.1 is Ok && final(self)@ == v
                } else {
                    let c = RecorderView {
                        mode: MicrophoneMode::ActiveListening,
                        did_mute: false,
                        ..closed(v)
                    };
                    &&& out.0 == close_command(v)
                    &&& out.1 is Ok == (stream_opens && recorder_starts)
                    &&& !stream_opens ==> out.1->Err_0@ == "Failed to open recorder"@ && final(self)@ == c
                    &&& stream_opens && !recorder_starts ==> out.1->Err_0@ == "Failed to start recording"@
                        && final(self)@ == (RecorderView { is_open: true, ..c })
                    &&& stream_opens && recorder_starts ==> final(self)@ == (RecorderView {
                        is_open: true,
                        is_recording: true,
                        ..c
                    })
                }
            }),
    {
        if self.mode == MicrophoneMode::ActiveListening {
            return (MuteCommand::Leave, Ok(()));
        }
        let command = self.stop_microphone_stream();
        self.mode = MicrophoneMode::ActiveListening;
        if !self.start_microphone_stream(stream_opens) {
            return (command, Err("Failed to open recorder".to_owned()));
        }
        if !recorder_starts {
            return (command, Err("Failed to start recording".to_owned()));
        }
        self.is_recording = true;
        (command, Ok(()))
    }

    /// Leaves active listening for the mode that the settings name: the stream is
    /// closed, and opened again if the microphone is always on. Fails if it does not
    /// open then.
    pub fn stop_active_listening(&mut self, always_on_microphone: bool, stream_opens: bool) -> (out: (
        MuteCommand,
        Result<(), String>,
    ))
        ensures
            ({
                let v = old(self)@;
                if v.mode != MicrophoneMode::ActiveListening {
                    out.0 == MuteCommand::Leave && out.1 is Ok && final(self)@ == v
                } else {
                    let c = closed(RecorderView { is_recording: false, ..v });
                    &&& out.0 == close_command(v)
                    &&& out.1 is Ok == (!always_on_microphone || stream_opens)
                    &&& out.1 is Err ==> out.1->Err_0@ == "Failed to open recorder"@
                    &&& final(self)@ == (if always_on_microphone {
                        RecorderView {
                            mode: MicrophoneMode::AlwaysOn,
                            is_open: stream_opens,
                            did_mute: false,
                            ..c
                        }
                    } else {
                        RecorderView { mode: MicrophoneMode::OnDemand, ..c }
                    })
                }
            }),
    {
        if self.mode != MicrophoneMode::ActiveListening {
            return (MuteCommand::Leave, Ok(()));
        }
        self.is_recording = false;
        let command = self.stop_microphone_stream();
        self.mode = if always_on_microphone {
            MicrophoneMode::AlwaysOn
        } else {
            MicrophoneMode::OnDemand
        };
        if always_on_microphone {
            if !self.start_microphone_stream(stream_opens) {
                return (command, Err("Failed to open recorder".to_owned()));
            }
        }
        (command, Ok(()))
    }
}

/// Once a binding owns the recording, every other request is refused and changes
/// nothing, however the device would answer.
pub proof fn lemma_recording_is_exclusive(
    v: RecorderView,
    a: Seq<char>,
    b: Seq<char>,
    opens_a: bool,
    starts_a: bool,
    opens_b: bool,
    starts_b: bool,
)
    requires
        start_succeeds(v, opens_a, starts_a),
    ensures
        owns(after_start(v, a, opens_a, starts_a), a),
        !start_succeeds(after_start(v, a, opens_a, starts_a), opens_b, starts_b),
        after_start(after_start(v, a, opens_a, starts_a), b, opens_b, starts_b) == after_start(
            v,
            a,
            opens_a,
            starts_a,
        ),
{
}

/// A request by another binding to end the recording changes nothing; the recording is
/// free again after its owner ended it or after a cancellation.
pub proof fn lemma_recording_is_released(v: RecorderView, a: Seq<char>, b: Seq<char>)
    requires
        owns(v, a),
    ensures
        a != b ==> !owns(v, b),
        after_end(v).owner is None,
        after_cancel(v).owner is None,
{
}

/// A cycle of start, mute, unmute and stop leaves the system output as it was before
/// the start, muted or not, and the manager without a mute to take back. The cycle
/// begins at a manager that holds no mute, as every manager does between cycles.
pub proof fn lemma_mute_symmetry_after_stop(
    v: RecorderView,
    binding_id: Seq<char>,
    stream_opens: bool,
    recorder_starts: bool,
    mute_while_recording: bool,
    muted_before: bool,
)
    requires
        !v.did_mute,
        start_succeeds(v, stream_opens, recorder_starts),
    ensures
        ({
            let s1 = after_start(v, binding_id, stream_opens, recorder_starts);
            let c2 = apply_mute_command(s1, mute_while_recording, muted_before);
            let s2 = after_apply_mute(s1, mute_while_recording, muted_before);
            let c3 = remove_mute_command(s2);
            let s3 = RecorderView { did_mute: false, ..s2 };
            let c4 = end_command(s3);
            let s4 = after_end(s3);
            &&& output_after(output_after(output_after(muted_before, c2), c3), c4) == muted_before
            &&& !s4.did_mute
            &&& s4.owner is None
        }),
{
}

/// The same cycle ended by its owner without the mute being taken back first, on
/// demand: closing the stream takes the mute back, and the output is as it was.
pub proof fn lemma_mute_symmetry_after_close(
    v: RecorderView,
    binding_id: Seq<char>,
    stream_opens: bool,
    recorder_starts: bool,
    mute_while_recording: bool,
    muted_before: bool,
)
    requires
        !v.did_mute,
        v.mode == MicrophoneMode::OnDemand,
        start_succeeds(v, stream_opens, recorder_starts),
    ensures
        ({
            let s1 = after_start(v, binding_id, stream_opens, recorder_starts);
            let c2 = apply_mute_command(s1, mute_while_recording, muted_before);
            let s2 = after_apply_mute(s1, mute_while_recording, muted_before);
            let c3 = end_command(s2);
            let s3 = after_end(s2);
            &&& output_after(output_after(muted_before, c2), c3) == muted_before
            &&& !s3.did_mute
            &&& s3.owner is None
        }),
{
}

/// A cancellation after start and mute leaves the system output as it was before the
/// start, muted or not, and the manager without a mute to take back.
pub proof fn lemma_mute_symmetry_after_cancel(
    v: RecorderView,
    binding_id: Seq<char>,
    stream_opens: bool,
    recorder_starts: bool,
    mute_while_recording: bool,
    muted_before: bool,
)
    requires
        !v.did_mute,
        start_succeeds(v, stream_opens, recorder_starts),
    ensures
        ({
            let s1 = after_start(v, binding_id, stream_opens, recorder_starts);
            let c2 = apply_mute_command(s1, mute_while_recording, muted_before);
            let s2 = after_apply_mute(s1, mute_while_recording, muted_before);
            let c3 = cancel_command(s2);
            let s3 = after_cancel(s2);
            &&& output_after(output_after(muted_before, c2), c3) == muted_before
            &&& !s3.did_mute
            &&& s3.owner is None
        }),
{
}

} // verus!
