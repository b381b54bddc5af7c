//! The shortcut layer's decisions: which action a binding stands for, what a key event
//! asks of it, and what the global cancel does.

use vstd::prelude::*;
use crate::ask_ai::{cleared, AskAiManager, AskAiView};
use crate::recording::{after_cancel, cancel_command, AudioRecordingManager, MuteCommand};
use crate::text::same_text;

verus! {

/// What a binding does.
#[derive(Debug, Clone, Copy, PartialEq, Eq, Structural)]
pub enum BindingAction {
    Transcribe,
    Cancel,
    ActiveListeningToggle,
    AskAi,
    ToggleOverlay,
    Test,
}

impl BindingAction {
    /// The id of the binding that stands for the action.
    pub open spec fn id(self) -> Seq<char> {
        match self {
            BindingAction::Transcribe => "transcribe"@,
            BindingAction::Cancel => "cancel"@,
            BindingAction::ActiveListeningToggle => "active_listening"@,
            BindingAction::AskAi => "ask_ai"@,
            BindingAction::ToggleOverlay => "toggle_overlay"@,
            BindingAction::Test => "test"@,
        }
    }

    /// The id of the binding that stands for the action.
    pub fn binding_id(self) -> (s: &'static str)
        ensures
            s@ == self.id(),
    {
        match self {
            BindingAction::Transcribe => "transcribe",
            BindingAction::Cancel => "cancel",
            BindingAction::ActiveListeningToggle => "active_listening",
            BindingAction::AskAi => "ask_ai",
            BindingAction::ToggleOverlay => "toggle_overlay",
            BindingAction::Test => "test",
        }
    }
}

/// The action that the binding `binding_id` stands for.
pub open spec fn action_named(binding_id: Seq<char>) -> Option<BindingAction> {
    if binding_id == "transcribe"@ {
        Some(BindingAction::Transcribe)
    } else if binding_id == "cancel"@ {
        Some(BindingAction::Cancel)
    } else if binding_id == "active_listening"@ {
        Some(BindingAction::ActiveListeningToggle)
    } else if binding_id == "ask_ai"@ {
        Some(BindingAction::AskAi)
    } else if binding_id == "toggle_overlay"@ {
        Some(BindingAction::ToggleOverlay)
    } else if binding_id == "test"@ {
        Some(BindingAction::Test)
    } else {
        None
    }
}

/// The action that the binding `binding_id` stands for; `None` for a binding without a
/// handler.
pub fn action_for(binding_id: &str) -> (action: Option<BindingAction>)
    ensures
        action == action_named(binding_id@),
{
    if same_text(binding_id, "transcribe") {
        Some(BindingAction::Transcribe)
    } else if same_text(binding_id, "cancel") {
        Some(BindingAction::Cancel)
    } else if same_text(binding_id, "active_listening") {
        Some(BindingAction::ActiveListeningToggle)
    } else if same_text(binding_id, "ask_ai") {
        Some(BindingAction::AskAi)
    } else if same_text(binding_id, "toggle_overlay") {
        Some(BindingAction::ToggleOverlay)
    } else if same_text(binding_id, "test") {
        Some(BindingAction::Test)
    } else {
        None
    }
}

/// Every action is found again under its binding's id.
pub proof fn lemma_action_of_its_id(action: BindingAction)
    ensures
        action_named(action.id()) == Some(action),
{
    reveal_strlit("transcribe");
    reveal_strlit("cancel");
    reveal_strlit("active_listening");
    reveal_strlit("ask_ai");
    reveal_strlit("toggle_overlay");
    reveal_strlit("test");
    assert("transcribe"@.len() == 10);
    assert("cancel"@.len() == 6);
    assert("active_listening"@.len() == 16);
    assert("ask_ai"@.len() == 6);
    assert("toggle_overlay"@.len() == 14);
    assert("test"@.len() == 4);
    assert("cancel"@[0] == 'c');
    assert("ask_ai"@[0] == 'a');
}

/// What a key event asks of the action behind a binding.
#[derive(Debug, Clone, Copy, PartialEq, Eq, Structural)]
pub enum ShortcutCall {
    /// Start the action.
    Start,
    /// Stop the action.
    Stop,
}

/// Whether the binding `binding_id` counts as active among the marks from `k` on; a
/// binding without a mark is not active.
pub open spec fn is_active_in(marks: Seq<(Seq<char>, bool)>, binding_id: Seq<char>, k: int) -> bool
    decreases marks.len() - k,
{
    if k < 0 || k >= marks.len() {
        false
    } else if marks[k].0 == binding_id {
        marks[k].1
    } else {
        is_active_in(marks, binding_id, k + 1)
    }
}

/// What a key event asks for. Held bindings start on the press and stop on the
/// release. Toggled bindings take turns on the press, starting when they are not
/// active and stopping when they are; the release asks for nothing.
pub open spec fn call_for(active: bool, pressed: bool, push_to_talk: bool) -> Option<ShortcutCall> {
    if push_to_talk {
        if pressed {
            Some(ShortcutCall::Start)
        } else {
            Some(ShortcutCall::Stop)
        }
    } else if !pressed {
        None
    } else if active {
        Some(ShortcutCall::Stop)
    } else {
        Some(ShortcutCall::Start)
    }
}

/// Whether a binding is active after a key event.
pub open spec fn active_after(active: bool, pressed: bool, push_to_talk: bool) -> bool {
    match call_for(active, pressed, push_to_talk) {
        Some(ShortcutCall::Start) => true,
        Some(ShortcutCall::Stop) => false,
        None => active,
    }
}

/// A mark that says whether a binding is active.
pub struct ToggleMark {
    pub binding_id: String,
    pub active: bool,
}

/// Which bindings are active.
pub struct ShortcutToggles {
    marks: Vec<ToggleMark>,
}

impl ShortcutToggles {
    /// The marks as plain values.
    pub closed spec fn marks(&self) -> Seq<(Seq<char>, bool)> {
        self.marks@.map_values(|m: ToggleMark| (m.binding_id@, m.active))
    }

    /// Whether the binding `binding_id` is active.
    pub open spec fn active(&self, binding_id: Seq<char>) -> bool {
        is_active_in(self.marks(), binding_id, 0)
    }

    /// No binding is marked, so none is active.
    pub fn new() -> (t: ShortcutToggles)
        ensures
            t.marks() == Seq::<(Seq<char>, bool)>::empty(),
            forall|id: Seq<char>| !t.active(id),
    {
        let t = ShortcutToggles { marks: Vec::new() };
        assert(t.marks() =~= Seq::<(Seq<char>, bool)>::empty());
        t
    }

    fn position(&self, binding_id: &str) -> (r: Option<usize>)
        ensures
            match r {
                Some(k) => k < self.marks().len() && self.marks()[k as int].0 == binding_id@ && self.active(
                    binding_id@,
                ) == self.marks()[k as int].1 && forall|j: int|
                    0 <= j < k ==> (#[trigger] self.marks()[j]).0 != binding_id@,
                None => !self.active(binding_id@) && forall|j: int|
                    0 <= j < self.marks().len() ==> (#[trigger] self.marks()[j]).0 != binding_id@,
            },
    {
        let mut k: usize = 0;
        while k < self.marks.len()
            invariant
                k <= self.marks@.len(),
                is_active_in(self.marks(), binding_id@, 0) == is_active_in(self.marks(), binding_id@, k as int),
                forall|j: int| 0 <= j < k ==> (#[trigger] self.marks()[j]).0 != binding_id@,
            decreases self.marks@.len() - k,
        {
            if same_text(self.marks[k].binding_id.as_str(), binding_id) {
                return Some(k);
            }
            k += 1;
        }
        None
    }

    /// Whether the binding `binding_id` is active.
    pub fn is_active(&self, binding_id: &str) -> (b: bool)
        ensures
            b == self.active(binding_id@),
    {
        match self.position(binding_id) {
            Some(k) => self.marks[k].active,
            None => false,
        }
    }

    fn set(&mut self, binding_id: &str, active: bool)
        ensures
            final(self).active(binding_id@) == active,
            forall|other: Seq<char>| other != binding_id@ ==> final(self).active(other) == old(self).active(other),
    {
        let ghost before = self.marks();
        match self.position(binding_id) {
            Some(k) => {
                self.marks.set(k, ToggleMark { binding_id: binding_id.to_owned(), active });
                proof {
                    let after = self.marks();
                    assert(after =~= before.update(k as int, (binding_id@, active)));
                    lemma_update_mark(before, k as int, binding_id@, active, 0);
                    assert forall|other: Seq<char>| other != binding_id@ implies is_active_in(
                        after,
                        other,
                        0,
                    ) == is_active_in(before, other, 0) by {
                        lemma_update_other(before, k as int, binding_id@, active, other, 0);
                    }
                }
            },
            None => {
                self.marks.push(ToggleMark { binding_id: binding_id.to_owned(), active });
                proof {
                    let after = self.marks();
                    assert(after =~= before.push((binding_id@, active)));
                    lemma_push_mark(before, binding_id@, active, 0);
                    assert forall|other: Seq<char>| other != binding_id@ implies is_active_in(
                        after,
                        other,
                        0,
                    ) == is_active_in(before, other, 0) by {
                        lemma_push_other(before, binding_id@, active, other, 0);
                    }
                }
            },
        }
    }

    /// Takes a key event of the binding `binding_id` and says what it asks of the
    /// action behind the binding. Other bindings stay as they are.
    pub fn on_key_event(&mut self, binding_id: &str, pressed: bool, push_to_talk: bool) -> (call: Option<
        ShortcutCall,
    >)
        ensures
            call == call_for(old(self).active(binding_id@), pressed, push_to_talk),
            final(self).active(binding_id@) == active_after(
                old(self).active(binding_id@),
                pressed,
                push_to_talk,
            ),
            forall|other: Seq<char>| other != binding_id@ ==> final(self).active(other) == old(self).active(other),
    {
        let active = self.is_active(binding_id);
        let call = if push_to_talk {
            if pressed {
                Some(ShortcutCall::Start)
            } else {
                Some(ShortcutCall::Stop)
            }
        } else if !pressed {
            None
        } else if active {
            Some(ShortcutCall::Stop)
        } else {
            Some(ShortcutCall::Start)
        };
        match call {
            Some(ShortcutCall::Start) => self.set(binding_id, true),
            Some(ShortcutCall::Stop) => self.set(binding_id, false),
            None => {},
        }
        call
    }

    /// Marks the binding `binding_id` as not active: its work is done.
    pub fn finish(&mut self, binding_id: &str)
        ensures
            !final(self).active(binding_id@),
            forall|other: Seq<char>| other != binding_id@ ==> final(self).active(other) == old(self).active(other),
    {
        self.set(binding_id, false);
    }

    /// Marks every binding as not active.
    pub fn reset(&mut self)
        ensures
            forall|id: Seq<char>| !final(self).active(id),
    {
        self.marks = Vec::new();
        assert(self.marks() =~= Seq::<(Seq<char>, bool)>::empty());
    }
}

proof fn lemma_update_mark(marks: Seq<(Seq<char>, bool)>, k: int, id: Seq<char>, active: bool, from: int)
    requires
        0 <= from <= k < marks.len(),
        forall|j: int| from <= j < k ==> (#[trigger] marks[j]).0 != id,
    ensures
        is_active_in(marks.update(k, (id, active)), id, from) == active,
    decreases k - from,
{
    if from < k {
        lemma_update_mark(marks, k, id, active, from + 1);
    }
}

proof fn lemma_update_other(
    marks: Seq<(Seq<char>, bool)>,
    k: int,
    id: Seq<char>,
    active: bool,
    other: Seq<char>,
    from: int,
)
    requires
        0 <= from,
        0 <= k < marks.len(),
        marks[k].0 == id,
        other != id,
    ensures
        is_active_in(marks.update(k, (id, active)), other, from) == is_active_in(marks, other, from),
    decreases marks.len() - from,
{
    if from < marks.len() {
        lemma_update_other(marks, k, id, active, other, from + 1);
    }
}

proof fn lemma_push_mark(marks: Seq<(Seq<char>, bool)>, id: Seq<char>, active: bool, from: int)
    requires
        0 <= from <= marks.len(),
        forall|j: int| from <= j < marks.len() ==> (#[trigger] marks[j]).0 != id,
    ensures
        is_active_in(marks.push((id, active)), id, from) == active,
    decreases marks.len() - from,
{
    if from < marks.len() {
        lemma_push_mark(marks, id, active, from + 1);
    }
}

proof fn lemma_push_other(marks: Seq<(Seq<char>, bool)>, id: Seq<char>, active: bool, other: Seq<char>, from: int)
    requires
        0 <= from,
        other != id,
    ensures
        is_active_in(marks.push((id, active)), other, from) == is_active_in(marks, other, from),
    decreases marks.len() - from,
{
    let pushed = marks.push((id, active));
    if from < marks.len() {
        lemma_push_other(marks, id, active, other, from + 1);
        assert(pushed[from] == marks[from]);
    } else if from == marks.len() {
        assert(pushed[from].0 == id);
        assert(!is_active_in(pushed, other, from + 1));
    }
}

/// A held binding that is pressed and released is started once and stopped once, and
/// is not active afterwards, whatever it was before.
pub proof fn lemma_press_is_followed_by_one_release(active: bool)
    ensures
        call_for(active, true, true) == Some(ShortcutCall::Start),
        call_for(active_after(active, true, true), false, true) == Some(ShortcutCall::Stop),
        !active_after(active_after(active, true, true), false, true),
{
}

/// A toggled binding starts and stops by turns: of two presses the first starts and the
/// second stops, or the other way round, and the releases ask for nothing.
pub proof fn lemma_toggle_takes_turns(active: bool)
    ensures
        call_for(active, false, false) is None,
        call_for(active, true, false) != call_for(active_after(active, true, false), true, false),
        active_after(active_after(active, true, false), true, false) == active,
{
}

/// Where a dictation stands.
#[derive(Debug, Clone, Copy, PartialEq, Eq, Structural)]
pub enum TranscribeState {
    Idle,
    Recording,
    Transcribing,
}

/// The state after the binding was pressed: a dictation begins if none is in work and
/// the recording started.
pub open spec fn after_press(state: TranscribeState, recording_started: bool) -> TranscribeState {
    if state == TranscribeState::Idle && recording_started {
        TranscribeState::Recording
    } else {
        state
    }
}

/// The state after the binding was released: a recording goes to transcription.
pub open spec fn after_release(state: TranscribeState) -> TranscribeState {
    if state == TranscribeState::Recording {
        TranscribeState::Transcribing
    } else {
        state
    }
}

/// The state after the transcription was dealt with.
pub open spec fn after_done(state: TranscribeState) -> TranscribeState {
    if state == TranscribeState::Transcribing {
        TranscribeState::Idle
    } else {
        state
    }
}

impl TranscribeState {
    pub fn press(self, recording_started: bool) -> (next: TranscribeState)
        ensures
            next == after_press(self, recording_started),
    {
        if self == TranscribeState::Idle && recording_started {
            TranscribeState::Recording
        } else {
            self
        }
    }

    pub fn release(self) -> (next: TranscribeState)
        ensures
            next == after_release(self),
    {
        if self == TranscribeState::Recording {
            TranscribeState::Transcribing
        } else {
            self
        }
    }

    pub fn done(self) -> (next: TranscribeState)
        ensures
            next == after_done(self),
    {
        if self == TranscribeState::Transcribing {
            TranscribeState::Idle
        } else {
            self
        }
    }
}

/// A dictation goes from idle through recording and transcribing back to idle.
pub proof fn lemma_dictation_cycle()
    ensures
        after_done(after_release(after_press(TranscribeState::Idle, true))) == TranscribeState::Idle,
        after_release(after_press(TranscribeState::Idle, true)) == TranscribeState::Transcribing,
        after_press(TranscribeState::Idle, false) == TranscribeState::Idle,
{
}

/// Cancels whatever is in work: a running recording ends without handing out samples,
/// the Ask AI session is cancelled and goes to rest without its conversation, the
/// dictation goes to idle, and no binding counts as active. Returns what is to be done
/// to the system output.
pub fn cancel_current_operation(
    recording: &mut AudioRecordingManager,
    ask_ai: &mut AskAiManager,
    dictation: &mut TranscribeState,
    toggles: &mut ShortcutToggles,
) -> (command: MuteCommand)
    ensures
        final(recording)@ == after_cancel(old(recording)@),
        command == cancel_command(old(recording)@),
        final(ask_ai)@ == (AskAiView { cancelled: true, ..cleared(old(ask_ai)@) }),
        *final(dictation) == TranscribeState::Idle,
        forall|id: Seq<char>| !final(toggles).active(id),
{
    let command = recording.cancel_recording();
    ask_ai.cancel();
    *dictation = TranscribeState::Idle;
    toggles.reset();
    command
}

/// After the global cancel nothing is in work: no recording runs, and the Ask AI
/// session is idle.
pub proof fn lemma_cancel_returns_to_idle(recording: crate::recording::RecorderView, ask_ai: AskAiView)
    ensures
        after_cancel(recording).owner is None,
        cleared(ask_ai).state == crate::ask_ai::AskAiState::Idle,
        cleared(ask_ai).conversation is None,
{
}

} // verus!
