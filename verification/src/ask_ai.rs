//! Ask AI: a spoken question, a streamed answer, and follow-up questions in one
//! conversation.

use vstd::prelude::*;
use crate::clock::{fresh_id, now_seconds};
use crate::transcription::{transcription_error_text, TranscriptionError};
use crate::text::{
    chars_of, copy_opt_string, copy_string, opt_chars, push_text, string_between, trim_bounds, trimmed,
};

verus! {

/// How many of the latest turns go into a prompt.
pub const MAX_CONTEXT_TURNS: usize = 10;

/// Where an Ask AI session stands.
#[derive(Clone, Copy, Debug, PartialEq, Eq, Structural)]
pub enum AskAiState {
    /// No session.
    Idle,
    /// The question is being recorded.
    Recording,
    /// The recording is being transcribed.
    Transcribing,
    /// The answer is being generated.
    Generating,
    /// The answer is complete; a follow-up may come.
    Complete,
    /// A conversation is open and waits for a follow-up.
    ConversationActive,
    /// Something failed.
    Error,
}

impl Default for AskAiState {
    fn default() -> (s: Self)
        ensures
            s == AskAiState::Idle,
    {
        AskAiState::Idle
    }
}

/// One question with its answer.
#[derive(Clone, Debug)]
pub struct ConversationTurn {
    pub id: String,
    pub question: String,
    pub response: String,
    /// Seconds since the epoch.
    pub timestamp: i64,
    pub audio_file_name: Option<String>,
}

/// The turns of one conversation.
#[derive(Clone, Debug)]
pub struct AskAiConversation {
    pub id: String,
    pub turns: Vec<ConversationTurn>,
    /// Seconds since the epoch.
    pub created_at: i64,
    /// Seconds since the epoch.
    pub updated_at: i64,
    /// Made from the first question.
    pub title: Option<String>,
}

/// Tells that the session's state changed.
#[derive(Clone, Debug)]
pub struct AskAiStateEvent {
    pub state: AskAiState,
    pub question: Option<String>,
    pub error: Option<String>,
    pub conversation: Option<AskAiConversation>,
}

/// Carries one piece of the answer as it is generated.
#[derive(Clone, Debug)]
pub struct AskAiResponseEvent {
    pub chunk: String,
    pub done: bool,
}

/// A turn as plain values.
pub struct TurnView {
    pub id: Seq<char>,
    pub question: Seq<char>,
    pub response: Seq<char>,
    pub timestamp: i64,
    pub audio_file_name: Option<Seq<char>>,
}

/// A conversation as plain values.
pub struct ConversationView {
    pub id: Seq<char>,
    pub turns: Seq<TurnView>,
    pub created_at: i64,
    pub updated_at: i64,
    pub title: Option<Seq<char>>,
}

impl View for ConversationTurn {
    type V = TurnView;

    open spec fn view(&self) -> TurnView {
        TurnView {
            id: self.id@,
            question: self.question@,
            response: self.response@,
            timestamp: self.timestamp,
            audio_file_name: opt_chars(self.audio_file_name),
        }
    }
}

/// The turns of `v` as plain values.
pub open spec fn turn_views(v: Seq<ConversationTurn>) -> Seq<TurnView> {
    v.map_values(|t: ConversationTurn| t@)
}

impl View for AskAiConversation {
    type V = ConversationView;

    open spec fn view(&self) -> ConversationView {
        ConversationView {
            id: self.id@,
            turns: turn_views(self.turns@),
            created_at: self.created_at,
            updated_at: self.updated_at,
            title: opt_chars(self.title),
        }
    }
}

/// The conversation inside `c`, as plain values.
pub open spec fn opt_conversation_view(c: Option<AskAiConversation>) -> Option<ConversationView> {
    match c {
        Some(x) => Some(x@),
        None => None,
    }
}

/// The title made from a question: the question without white space around it, cut to
/// 47 characters and "..." where it has more than 50.
pub open spec fn title_of(question: Seq<char>) -> Seq<char> {
    let t = trimmed(question);
    if t.len() <= 50 {
        t
    } else {
        t.take(47) + "..."@
    }
}

/// One turn as it stands in a prompt.
pub open spec fn turn_text(t: TurnView) -> Seq<char> {
    "User: "@ + t.question + "\n"@ + "Assistant: "@ + t.response + "\n\n"@
}

/// The turns from `k` on as they stand in a prompt.
pub open spec fn turns_text(turns: Seq<TurnView>, k: int) -> Seq<char>
    decreases turns.len() - k,
{
    if k < 0 || k >= turns.len() {
        Seq::empty()
    } else {
        turn_text(turns[k]) + turns_text(turns, k + 1)
    }
}

/// Where the turns that go into a prompt begin: the last `MAX_CONTEXT_TURNS`.
pub open spec fn context_start(turns: Seq<TurnView>) -> int {
    if turns.len() > MAX_CONTEXT_TURNS {
        turns.len() - MAX_CONTEXT_TURNS
    } else {
        0
    }
}

/// What a prompt says of the conversation so far.
pub open spec fn context_of(turns: Seq<TurnView>) -> Seq<char> {
    turns_text(turns, context_start(turns))
}

/// The time stamp of a turn added at `now`: `now`, but never earlier than the turn
/// before it.
pub open spec fn turn_stamp(turns: Seq<TurnView>, now: i64) -> i64 {
    if turns.len() > 0 && turns.last().timestamp > now {
        turns.last().timestamp
    } else {
        now
    }
}

/// The conversation after a turn is added at `now` under the id `turn_id`.
pub open spec fn with_turn(
    c: ConversationView,
    turn_id: Seq<char>,
    question: Seq<char>,
    response: Seq<char>,
    audio_file_name: Option<Seq<char>>,
    now: i64,
) -> ConversationView {
    ConversationView {
        id: c.id,
        turns: c.turns.push(
            TurnView {
                id: turn_id,
                question,
                response,
                timestamp: turn_stamp(c.turns, now),
                audio_file_name,
            },
        ),
        created_at: c.created_at,
        updated_at: turn_stamp(c.turns, now),
        title: match c.title {
            Some(t) => Some(t),
            None => Some(title_of(question)),
        },
    }
}

/// Turns are in the order of their time stamps.
pub open spec fn turns_in_order(turns: Seq<TurnView>) -> bool {
    forall|i: int, j: int| 0 <= i <= j < turns.len() ==> turns[i].timestamp <= turns[j].timestamp
}

/// A conversation's record is in order: its turns are in the order of their time
/// stamps, the last update is the latest turn, and with a turn there is a title.
pub open spec fn conversation_in_order(c: ConversationView) -> bool {
    &&& turns_in_order(c.turns)
    &&& c.turns.len() > 0 ==> c.updated_at == c.turns.last().timestamp && c.title is Some
}

/// Adding a turn keeps a conversation's record in order, and only the first turn sets
/// the title.
pub proof fn lemma_turn_keeps_order(
    c: ConversationView,
    turn_id: Seq<char>,
    question: Seq<char>,
    response: Seq<char>,
    audio_file_name: Option<Seq<char>>,
    now: i64,
)
    requires
        conversation_in_order(c),
    ensures
        conversation_in_order(with_turn(c, turn_id, question, response, audio_file_name, now)),
        c.turns.len() > 0 ==> with_turn(c, turn_id, question, response, audio_file_name, now).title
            == c.title,
        c.title is None ==> with_turn(c, turn_id, question, response, audio_file_name, now).title
            == Some(title_of(question)),
{
    let d = with_turn(c, turn_id, question, response, audio_file_name, now);
    assert forall|i: int, j: int| 0 <= i <= j < d.turns.len() implies d.turns[i].timestamp
        <= d.turns[j].timestamp by {
        if j < c.turns.len() {
            assert(d.turns[i] == c.turns[i] && d.turns[j] == c.turns[j]);
        } else if i < c.turns.len() {
            assert(d.turns[i] == c.turns[i]);
            assert(c.turns[i].timestamp <= c.turns.last().timestamp);
        }
    }
}

/// A prompt holds the last `MAX_CONTEXT_TURNS` turns and nothing of the turns before
/// them: two conversations that end in the same turns give the same context.
pub proof fn lemma_context_is_last_turns(a: Seq<TurnView>, b: Seq<TurnView>)
    requires
        a.len() >= MAX_CONTEXT_TURNS,
        b.len() >= MAX_CONTEXT_TURNS,
        a.skip(a.len() - MAX_CONTEXT_TURNS) == b.skip(b.len() - MAX_CONTEXT_TURNS),
    ensures
        context_of(a) == context_of(b),
{
    lemma_turns_text_of_tail(a, context_start(a));
    lemma_turns_text_of_tail(b, context_start(b));
}

/// The text of the turns from `k` on is the text of the tail that begins at `k`.
pub proof fn lemma_turns_text_of_tail(turns: Seq<TurnView>, k: int)
    requires
        0 <= k <= turns.len(),
    ensures
        turns_text(turns, k) == turns_text(turns.skip(k), 0),
    decreases turns.len() - k,
{
    let tail = turns.skip(k);
    if k < turns.len() {
        lemma_turns_text_of_tail(turns, k + 1);
        lemma_turns_text_of_tail(tail, 1);
        assert(tail.skip(1) =~= turns.skip(k + 1));
        assert(tail[0] == turns[k]);
    }
}

/// A copy of `turn`.
pub fn copy_turn(turn: &ConversationTurn) -> (r: ConversationTurn)
    ensures
        r@ == turn@,
{
    ConversationTurn {
        id: copy_string(&turn.id),
        question: copy_string(&turn.question),
        response: copy_string(&turn.response),
        timestamp: turn.timestamp,
        audio_file_name: copy_opt_string(&turn.audio_file_name),
    }
}

/// A copy of `conversation`.
pub fn copy_conversation(conversation: &AskAiConversation) -> (r: AskAiConversation)
    ensures
        r@ == conversation@,
{
    let mut turns: Vec<ConversationTurn> = Vec::new();
    let mut i: usize = 0;
    while i < conversation.turns.len()
        invariant
            i <= conversation.turns.len(),
            turns@.len() == i,
            forall|j: int| 0 <= j < i ==> (#[trigger] turns@[j])@ == conversation.turns@[j]@,
        decreases conversation.turns.len() - i,
    {
        turns.push(copy_turn(&conversation.turns[i]));
        i += 1;
    }
    assert(turn_views(turns@) =~= turn_views(conversation.turns@));
    AskAiConversation {
        id: copy_string(&conversation.id),
        turns,
        created_at: conversation.created_at,
        updated_at: conversation.updated_at,
        title: copy_opt_string(&conversation.title),
    }
}

impl AskAiConversation {
    /// An empty conversation under the id `id`, created at `now`.
    pub fn with_id(id: String, now: i64) -> (c: AskAiConversation)
        ensures
            conversation_in_order(c@),
            c@ == (ConversationView {
                id: id@,
                turns: Seq::empty(),
                created_at: now,
                updated_at: now,
                title: None,
            }),
    {
        let c = AskAiConversation { id, turns: Vec::new(), created_at: now, updated_at: now, title: None };
        assert(turn_views(c.turns@) =~= Seq::<TurnView>::empty());
        c
    }

    /// An empty conversation under a fresh random id, created now.
    pub fn new() -> (c: AskAiConversation)
        ensures
            conversation_in_order(c@),
            c@.turns == Seq::<TurnView>::empty(),
            c@.title is None,
            c@.created_at == c@.updated_at,
            c@.id.len() == 36,
    {
        Self::with_id(fresh_id(), now_seconds())
    }

    /// Adds a turn under the id `turn_id` at the time `now`. The turn is stamped with
    /// `now`, or with the stamp of the turn before it where the clock ran back, and the
    /// conversation's last update is that stamp. A conversation without a title gets
    /// one from the question.
    pub fn add_turn_at(
        &mut self,
        question: String,
        response: String,
        audio_file_name: Option<String>,
        turn_id: String,
        now: i64,
    )
        ensures
            conversation_in_order(old(self)@) ==> conversation_in_order(final(self)@),
            final(self)@ == with_turn(
                old(self)@,
                turn_id@,
                question@,
                response@,
                opt_chars(audio_file_name),
                now,
            ),
    {
        proof {
            if conversation_in_order(old(self)@) {
                lemma_turn_keeps_order(
                    old(self)@,
                    turn_id@,
                    question@,
                    response@,
                    opt_chars(audio_file_name),
                    now,
                );
            }
        }
        let n = self.turns.len();
        let timestamp = if n > 0 && self.turns[n - 1].timestamp > now {
            self.turns[n - 1].timestamp
        } else {
            now
        };
        proof {
            if n > 0 {
                assert(turn_views(self.turns@).last() == self.turns@[n - 1]@);
            }
        }
        if self.title.is_none() {
            self.title = Some(Self::generate_title(question.as_str()));
        }
        let turn = ConversationTurn { id: turn_id, question, response, timestamp, audio_file_name };
        self.turns.push(turn);
        self.updated_at = timestamp;
        assert(turn_views(self.turns@) =~= turn_views(old(self).turns@).push(turn@));
    }

    /// Adds a turn under a fresh random id, stamped with the present time.
    pub fn add_turn(&mut self, question: String, response: String, audio_file_name: Option<String>)
        ensures
            conversation_in_order(old(self)@) ==> conversation_in_order(final(self)@),
            exists|turn_id: Seq<char>, now: i64|
                final(self)@ == with_turn(
                    old(self)@,
                    turn_id,
                    question@,
                    response@,
                    opt_chars(audio_file_name),
                    now,
                ),
    {
        let turn_id = fresh_id();
        let now = now_seconds();
        self.add_turn_at(question, response, audio_file_name, turn_id, now);
    }

    /// The title made from a question.
    pub fn generate_title(question: &str) -> (title: String)
        ensures
            title@ == title_of(question@),
    {
        let q = chars_of(question);
        let (lo, hi) = trim_bounds(q.as_slice());
        if hi - lo <= 50 {
            string_between(q.as_slice(), lo, hi)
        } else {
            let mut title = string_between(q.as_slice(), lo, lo + 47);
            push_text(&mut title, "...");
            assert(trimmed(question@).take(47) =~= q@.subrange(lo as int, lo + 47));
            title
        }
    }

    /// What a prompt says of the conversation so far: for each of the last
    /// `MAX_CONTEXT_TURNS` turns the question and the answer.
    pub fn build_context(&self) -> (context: String)
        ensures
            context@ == context_of(self@.turns),
    {
        let n = self.turns.len();
        let start = if n > MAX_CONTEXT_TURNS {
            n - MAX_CONTEXT_TURNS
        } else {
            0
        };
        let ghost turns = turn_views(self.turns@);
        let mut context = String::new();
        let mut k: usize = n;
        while k > start
            invariant
                n == self.turns@.len(),
                start <= k <= n,
                turns == turn_views(self.turns@),
                context@ == turns_text(turns, k as int),
            decreases k,
        {
            k -= 1;
            let mut part = "User: ".to_owned();
            push_text(&mut part, self.turns[k].question.as_str());
            push_text(&mut part, "\n");
            push_text(&mut part, "Assistant: ");
            push_text(&mut part, self.turns[k].response.as_str());
            push_text(&mut part, "\n\n");
            assert(part@ =~= turn_text(turns[k as int]));
            push_text(&mut part, context.as_str());
            context = part;
        }
        context
    }
}

impl Default for AskAiConversation {
    fn default() -> (c: Self)
        ensures
            c@.turns == Seq::<TurnView>::empty(),
            c@.title is None,
    {
        Self::new()
    }
}

/// The manager as plain values.
pub struct AskAiView {
    pub state: AskAiState,
    /// The question of the turn in work.
    pub question: Option<Seq<char>>,
    /// The answer of the turn in work, as far as it has come in.
    pub response: Seq<char>,
    /// The recording of the turn in work.
    pub samples: Seq<u32>,
    pub conversation: Option<ConversationView>,
    /// Whether the work in progress was cancelled.
    pub cancelled: bool,
}

/// Whether a recording can start in `state`.
pub open spec fn can_record(state: AskAiState) -> bool {
    state == AskAiState::Idle || state == AskAiState::Complete || state == AskAiState::ConversationActive
}

/// Whether there is a conversation with at least one turn.
pub open spec fn has_turns(c: Option<ConversationView>) -> bool {
    c is Some && c->0.turns.len() > 0
}

/// The manager at rest, without a conversation.
pub open spec fn cleared(v: AskAiView) -> AskAiView {
    AskAiView { state: AskAiState::Idle, question: None, response: Seq::empty(), conversation: None, ..v }
}

/// Where the manager comes to rest after a failure: in the open conversation if it has
/// a turn, else idle with everything cleared.
pub open spec fn rested(v: AskAiView) -> AskAiView {
    if has_turns(v.conversation) {
        AskAiView { state: AskAiState::ConversationActive, ..v }
    } else {
        cleared(v)
    }
}

/// The part of a prompt that carries the system prompt.
pub open spec fn system_section(system_prompt: Seq<char>) -> Seq<char> {
    if system_prompt.len() == 0 {
        Seq::empty()
    } else {
        "System: "@ + system_prompt + "\n\n"@
    }
}

/// The prompt for a new question: the system prompt, the conversation so far, and the
/// question.
pub open spec fn prompt_of(
    conversation: Option<ConversationView>,
    new_question: Seq<char>,
    system_prompt: Seq<char>,
) -> Seq<char> {
    system_section(system_prompt) + (if has_turns(conversation) {
        context_of(conversation->0.turns)
    } else {
        Seq::empty()
    }) + "User: "@ + new_question
}

/// What follows a step of the work on a question.
pub enum AskAiStep {
    /// The work was cancelled: nothing is reported and nothing changes.
    Stop,
    /// The step failed: the event reports the error.
    Fail(AskAiStateEvent),
    /// The work goes on: the event reports the new state.
    Proceed(AskAiStateEvent),
}

/// Whether `event` reports `state` with the given question and error and carries the
/// conversation `conversation`.
pub open spec fn event_is(
    event: AskAiStateEvent,
    state: AskAiState,
    question: Option<Seq<char>>,
    error: Option<Seq<char>>,
    conversation: Option<ConversationView>,
) -> bool {
    &&& event.state == state
    &&& opt_chars(event.question) == question
    &&& opt_chars(event.error) == error
    &&& opt_conversation_view(event.conversation) == conversation
}

/// Whether `step` is a failure that reports `message`.
pub open spec fn fails_with(step: AskAiStep, message: Seq<char>, conversation: Option<ConversationView>) -> bool {
    match step {
        AskAiStep::Fail(e) => event_is(e, AskAiState::Error, None, Some(message), conversation),
        _ => false,
    }
}

/// Whether `step` goes on and reports `state` with `question`.
pub open spec fn proceeds_with(
    step: AskAiStep,
    state: AskAiState,
    question: Option<Seq<char>>,
    conversation: Option<ConversationView>,
) -> bool {
    match step {
        AskAiStep::Proceed(e) => event_is(e, state, question, None, conversation),
        _ => false,
    }
}

/// Drives one Ask AI session.
pub struct AskAiManager {
    state: AskAiState,
    current_question: Option<String>,
    current_response: String,
    current_audio_samples: Vec<u32>,
    active_conversation: Option<AskAiConversation>,
    cancel_signal: bool,
}

impl View for AskAiManager {
    type V = AskAiView;

    closed spec fn view(&self) -> AskAiView {
        AskAiView {
            state: self.state,
            question: opt_chars(self.current_question),
            response: self.current_response@,
            samples: self.current_audio_samples@,
            conversation: opt_conversation_view(self.active_conversation),
            cancelled: self.cancel_signal,
        }
    }
}

impl AskAiManager {
    /// A manager at rest.
    pub fn new() -> (m: AskAiManager)
        ensures
            m@ == (AskAiView {
                state: AskAiState::Idle,
                question: None,
                response: Seq::empty(),
                samples: Seq::empty(),
                conversation: None,
                cancelled: false,
            }),
    {
        AskAiManager {
            state: AskAiState::Idle,
            current_question: None,
            current_response: String::new(),
            current_audio_samples: Vec::new(),
            active_conversation: None,
            cancel_signal: false,
        }
    }

    pub fn get_state(&self) -> (s: AskAiState)
        ensures
            s == self@.state,
    {
        self.state
    }

    pub fn get_question(&self) -> (q: Option<String>)
        ensures
            opt_chars(q) == self@.question,
    {
        copy_opt_string(&self.current_question)
    }

    pub fn get_response(&self) -> (r: String)
        ensures
            r@ == self@.response,
    {
        copy_string(&self.current_response)
    }

    pub fn get_conversation(&self) -> (c: Option<AskAiConversation>)
        ensures
            opt_conversation_view(c) == self@.conversation,
    {
        match &self.active_conversation {
            Some(c) => Some(copy_conversation(c)),
            None => None,
        }
    }

    /// Whether a session is in work.
    pub fn is_active(&self) -> (b: bool)
        ensures
            b == (self@.state != AskAiState::Idle),
    {
        self.state != AskAiState::Idle
    }

    /// Whether a recording can start: from rest, or as a follow-up.
    pub fn can_start_recording(&self) -> (b: bool)
        ensures
            b == can_record(self@.state),
    {
        self.state == AskAiState::Idle || self.state == AskAiState::Complete || self.state
            == AskAiState::ConversationActive
    }

    /// Whether the work in progress was cancelled.
    pub fn is_cancelled(&self) -> (b: bool)
        ensures
            b == self@.cancelled,
    {
        self.cancel_signal
    }

    fn conversation_has_turns(&self) -> (b: bool)
        ensures
            b == has_turns(self@.conversation),
    {
        match &self.active_conversation {
            Some(c) => c.turns.len() > 0,
            None => false,
        }
    }

    fn event(&self, state: AskAiState, question: Option<String>, error: Option<String>) -> (e:
        AskAiStateEvent)
        ensures
            event_is(e, state, opt_chars(question), opt_chars(error), self@.conversation),
    {
        AskAiStateEvent { state, question, error, conversation: self.get_conversation() }
    }

    /// Starts recording a question. Fails with "Ask AI session busy", and changes
    /// nothing, unless the manager is at rest or a follow-up can come. From rest a new
    /// conversation is begun; a follow-up keeps the conversation. What the turn before
    /// left is cleared, and so is a cancellation.
    pub fn start_recording(&mut self) -> (r: Result<AskAiStateEvent, String>)
        ensures
            !can_record(old(self)@.state) ==> r is Err && r->Err_0@ == "Ask AI session busy"@ && final(self)@ == old(self)@,
            can_record(old(self)@.state) ==> r is Ok && final(self)@.state == AskAiState::Recording
                && final(self)@.question is None && final(self)@.response == Seq::<char>::empty()
                && final(self)@.samples == Seq::<u32>::empty() && !final(self)@.cancelled && event_is(
                r->Ok_0,
                AskAiState::Recording,
                None,
                None,
                final(self)@.conversation,
            ),
            can_record(old(self)@.state) && old(self)@.state != AskAiState::Idle ==> final(self)@.conversation == old(self)@.conversation,
            old(self)@.state == AskAiState::Idle ==> final(self)@.conversation is Some && final(self)@.conversation->0.turns == Seq::<TurnView>::empty() && final(self)@.conversation->0.title
                is None,
    {
        if !self.can_start_recording() {
            return Err("Ask AI session busy".to_owned());
        }
        let is_follow_up = self.state != AskAiState::Idle;
        self.state = AskAiState::Recording;
        self.current_question = None;
        self.current_response = String::new();
        self.current_audio_samples.clear();
        if !is_follow_up {
            self.active_conversation = Some(AskAiConversation::new());
        }
        self.cancel_signal = false;
        Ok(self.event(AskAiState::Recording, None, None))
    }

    /// Drops everything and begins a new conversation.
    pub fn start_new_conversation(&mut self) -> (r: Result<(), String>)
        ensures
            r is Ok,
            final(self)@.state == AskAiState::Idle,
            final(self)@.question is None,
            final(self)@.response == Seq::<char>::empty(),
            final(self)@.samples == old(self)@.samples,
            final(self)@.cancelled == old(self)@.cancelled,
            final(self)@.conversation is Some && final(self)@.conversation->0.turns == Seq::<
                TurnView,
            >::empty(),
    {
        self.reset();
        self.active_conversation = Some(AskAiConversation::new());
        Ok(())
    }

    /// Takes the recording of a question. Without samples the error "No audio recorded"
    /// is reported and the manager comes to rest. Otherwise the samples are kept and the
    /// manager goes to transcribing.
    pub fn process_question(&mut self, samples: Vec<u32>) -> (step: AskAiStep)
        ensures
            samples@.len() == 0 ==> final(self)@ == rested(old(self)@) && fails_with(step, "No audio recorded"@, old(self)@.conversation),
            samples@.len() > 0 ==> final(self)@ == (AskAiView {
                state: AskAiState::Transcribing,
                samples: samples@,
                ..old(self)@
            }) && proceeds_with(step, AskAiState::Transcribing, None, old(self)@.conversation),
    {
        if samples.len() == 0 {
            return self.fail("No audio recorded".to_owned());
        }
        self.current_audio_samples = samples;
        self.state = AskAiState::Transcribing;
        AskAiStep::Proceed(self.event(AskAiState::Transcribing, None, None))
    }

    /// Reports `message` as an error and brings the manager to rest.
    fn fail(&mut self, message: String) -> (step: AskAiStep)
        ensures
            final(self)@ == rested(old(self)@),
            fails_with(step, message@, old(self)@.conversation),
    {
        let e = self.event(AskAiState::Error, None, Some(message));
        if self.conversation_has_turns() {
            self.state = AskAiState::ConversationActive;
        } else {
            self.reset();
        }
        AskAiStep::Fail(e)
    }

    /// Takes the transcription of the question. After a cancellation nothing happens.
    /// A cancelled transcription brings the manager to rest without a report. Any other
    /// failure, a transcript of white space alone, and a missing model are reported as
    /// errors and bring the manager to rest. Otherwise the transcript becomes the
    /// question and the manager goes to generating.
    pub fn on_transcription(&mut self, transcription: Result<String, TranscriptionError>, ollama_model: &str) -> (step:
        AskAiStep)
        ensures
            old(self)@.cancelled ==> step is Stop && final(self)@ == old(self)@,
            !old(self)@.cancelled ==> match transcription {
                Err(e) => final(self)@ == rested(old(self)@) && (if e is Cancelled {
                    step is Stop
                } else {
                    fails_with(
                        step,
                        "Transcription failed: "@ + transcription_error_text(e),
                        old(self)@.conversation,
                    )
                }),
                Ok(text) => if crate::text::is_blank(text@) {
                    final(self)@ == rested(old(self)@) && fails_with(
                        step,
                        "No speech detected"@,
                        old(self)@.conversation,
                    )
                } else if ollama_model@.len() == 0 {
                    final(self)@ == rested(AskAiView { question: Some(text@), ..old(self)@ })
                        && fails_with(
                        step,
                        "No Ollama model configured. Please configure an Ollama model in Ask AI settings."@,
                        old(self)@.conversation,
                    )
                } else {
                    final(self)@ == (AskAiView {
                        state: AskAiState::Generating,
                        question: Some(text@),
                        ..old(self)@
                    }) && proceeds_with(
                        step,
                        AskAiState::Generating,
                        Some(text@),
                        old(self)@.conversation,
                    )
                },
            },
    {
        if self.cancel_signal {
            return AskAiStep::Stop;
        }
        match transcription {
            Err(e) => {
                if e.is_cancelled() {
                    let _ = self.fail(String::new());
                    return AskAiStep::Stop;
                }
                let mut message = "Transcription failed: ".to_owned();
                let text = e.to_string();
                push_text(&mut message, text.as_str());
                self.fail(message)
            },
            Ok(text) => {
                let t = chars_of(text.as_str());
                let blank = crate::text::blank_between(t.as_slice(), 0, t.len());
                assert(t@.subrange(0, t.len() as int) =~= t@);
                if blank {
                    return self.fail("No speech detected".to_owned());
                }
                self.current_question = Some(copy_string(&text));
                if ollama_model.unicode_len() == 0 {
                    return self.fail(
                        "No Ollama model configured. Please configure an Ollama model in Ask AI settings.".to_owned(),
                    );
                }
                self.state = AskAiState::Generating;
                AskAiStep::Proceed(self.event(AskAiState::Generating, Some(text), None))
            },
        }
    }

    /// The prompt for `new_question`: the system prompt if there is one, the
    /// conversation so far if it has a turn, and the question.
    pub fn build_prompt(&self, new_question: &str, system_prompt: &str) -> (prompt: String)
        ensures
            prompt@ == prompt_of(self@.conversation, new_question@, system_prompt@),
    {
        let mut prompt = String::new();
        if system_prompt.unicode_len() != 0 {
            push_text(&mut prompt, "System: ");
            push_text(&mut prompt, system_prompt);
            push_text(&mut prompt, "\n\n");
        }
        assert(prompt@ =~= system_section(system_prompt@));
        match &self.active_conversation {
            Some(c) => {
                if c.turns.len() > 0 {
                    let context = c.build_context();
                    push_text(&mut prompt, context.as_str());
                }
            },
            None => {},
        }
        push_text(&mut prompt, "User: ");
        push_text(&mut prompt, new_question);
        assert(prompt@ =~= prompt_of(self@.conversation, new_question@, system_prompt@));
        prompt
    }

    /// Takes one piece of the answer. After a cancellation the piece is dropped and the
    /// stream is to stop; otherwise the piece is added to the answer. Returns whether
    /// the stream goes on.
    pub fn on_chunk(&mut self, chunk: &str) -> (go_on: bool)
        ensures
            go_on == !old(self)@.cancelled,
            old(self)@.cancelled ==> final(self)@ == old(self)@,
            !old(self)@.cancelled ==> final(self)@ == (AskAiView {
                response: old(self)@.response + chunk@,
                ..old(self)@
            }),
    {
        if self.cancel_signal {
            return false;
        }
        push_text(&mut self.current_response, chunk);
        true
    }

    /// Closes the turn when generation has ended. After a cancellation nothing happens:
    /// no turn is added. A failed generation is reported as an error and brings the
    /// manager to rest. Otherwise the question and `full_response` become a turn of the
    /// conversation, under the id `turn_id` and at the time `now`, and the manager goes
    /// to complete.
    pub fn on_generated(
        &mut self,
        outcome: Result<(), String>,
        full_response: String,
        turn_id: String,
        now: i64,
    ) -> (step: AskAiStep)
        ensures
            old(self)@.cancelled ==> step is Stop && final(self)@ == old(self)@,
            !old(self)@.cancelled ==> match outcome {
                Err(e) => final(self)@ == rested(old(self)@) && fails_with(step, "AI generation failed: "@ + e@, old(self)@.conversation),
                Ok(_) => final(self)@ == (AskAiView {
                    state: AskAiState::Complete,
                    conversation: match old(self)@.conversation {
                        Some(c) => Some(
                            with_turn(c, turn_id@, asked(old(self)@), full_response@, None, now),
                        ),
                        None => None,
                    },
                    ..old(self)@
                }) && proceeds_with(step, AskAiState::Complete, Some(asked(old(self)@)), final(self)@.conversation),
            },
    {
        if self.cancel_signal {
            return AskAiStep::Stop;
        }
        match outcome {
            Err(e) => {
                let mut message = "AI generation failed: ".to_owned();
                push_text(&mut message, e.as_str());
                self.fail(message)
            },
            Ok(_) => {
                let question = match &self.current_question {
                    Some(q) => copy_string(q),
                    None => String::new(),
                };
                match self.active_conversation.take() {
                    Some(mut c) => {
                        c.add_turn_at(copy_string(&question), full_response, None, turn_id, now);
                        self.active_conversation = Some(c);
                    },
                    None => {},
                }
                self.state = AskAiState::Complete;
                AskAiStep::Proceed(self.event(AskAiState::Complete, Some(question), None))
            },
        }
    }

    /// Cancels the work in progress: the manager goes to rest without a conversation,
    /// and later steps of the cancelled work do nothing.
    pub fn cancel(&mut self)
        ensures
            final(self)@ == (AskAiView { cancelled: true, ..cleared(old(self)@) }),
    {
        self.cancel_signal = true;
        self.reset();
    }

    /// Goes to rest and drops the conversation.
    pub fn reset(&mut self)
        ensures
            final(self)@ == cleared(old(self)@),
    {
        self.state = AskAiState::Idle;
        self.active_conversation = None;
        self.current_question = None;
        self.current_response = String::new();
    }

    /// Closes the overlay: a conversation with a turn is kept for later, anything else
    /// is dropped. Either way the manager is idle afterwards.
    pub fn dismiss(&mut self)
        ensures
            final(self)@ == (if has_turns(old(self)@.conversation) {
                AskAiView { state: AskAiState::Idle, ..old(self)@ }
            } else {
                cleared(old(self)@)
            }),
    {
        if self.conversation_has_turns() {
            self.state = AskAiState::Idle;
        } else {
            self.reset();
        }
    }
}

/// The question of the turn in work; empty where none was transcribed.
pub open spec fn asked(v: AskAiView) -> Seq<char> {
    match v.question {
        Some(q) => q,
        None => Seq::empty(),
    }
}

/// While a recording, a transcription or a generation is in work, no recording can
/// start.
pub proof fn lemma_busy_states_refuse_recording(state: AskAiState)
    ensures
        !can_record(state) <==> (state == AskAiState::Recording || state == AskAiState::Transcribing
            || state == AskAiState::Generating || state == AskAiState::Error),
{
}

/// After a failure the manager is idle or in an open conversation, never in work.
pub proof fn lemma_rest_allows_recording(v: AskAiView)
    ensures
        can_record(rested(v).state),
        rested(v).state == AskAiState::ConversationActive <==> has_turns(v.conversation),
{
}

/// The conversations that are deleted when only the `keep_count` most recently updated
/// ones are kept: of the ids given, most recently updated first, those behind the first
/// `keep_count`.
pub fn conversations_beyond(ids_newest_first: &Vec<String>, keep_count: usize) -> (old_ids: Vec<String>)
    ensures
        crate::text::each_chars(old_ids@) == (if keep_count < ids_newest_first@.len() {
            crate::text::each_chars(ids_newest_first@).skip(keep_count as int)
        } else {
            Seq::empty()
        }),
{
    let mut old_ids: Vec<String> = Vec::new();
    if keep_count >= ids_newest_first.len() {
        assert(crate::text::each_chars(old_ids@) =~= Seq::<Seq<char>>::empty());
        return old_ids;
    }
    let mut k: usize = keep_count;
    while k < ids_newest_first.len()
        invariant
            keep_count <= k <= ids_newest_first@.len(),
            old_ids@.len() == k - keep_count,
            forall|j: int|
                0 <= j < old_ids@.len() ==> (#[trigger] old_ids@[j])@ == ids_newest_first@[keep_count + j]@,
        decreases ids_newest_first@.len() - k,
    {
        old_ids.push(copy_string(&ids_newest_first[k]));
        k += 1;
    }
    assert(crate::text::each_chars(old_ids@) =~= crate::text::each_chars(ids_newest_first@).skip(
        keep_count as int,
    ));
    old_ids
}

} // verus!
