//! Active listening: a session that gathers audio into segments and insights into a
//! session record.

use vstd::prelude::*;
use crate::clock::now_millis;
use crate::transcription::{transcription_error_text, TranscriptionError};
use crate::diarization::{
    initial_state, step_state, step_update, DiarizationConfig, DiarizerState, EnergyBasedDiarizer,
    EnergyUpdate,
};
use crate::text::{
    copy_opt_string, copy_string, digits_of, each_chars, opt_chars, push_decimal, push_signed_decimal,
    push_text, same_text, signed_digits_of,
};

verus! {

/// A flush keeps a segment only if it holds at least this many samples: half a second.
pub const MIN_FLUSH_SAMPLES: usize = 8000;

/// Where an active-listening session stands.
#[derive(Clone, Copy, Debug, PartialEq, Eq, Structural)]
pub enum ActiveListeningState {
    /// No session.
    Idle,
    /// Gathering audio.
    Listening,
    /// A segment is being transcribed and summarized.
    Processing,
    /// Something failed.
    Error,
}

impl Default for ActiveListeningState {
    fn default() -> (s: Self)
        ensures
            s == ActiveListeningState::Idle,
    {
        ActiveListeningState::Idle
    }
}

/// One insight, made from one segment.
#[derive(Clone, Debug)]
pub struct SessionInsight {
    /// When the insight was recorded, in milliseconds since the epoch.
    pub timestamp: i64,
    pub transcription: String,
    pub insight: String,
    /// How long the segment took, in milliseconds.
    pub duration_ms: u64,
    /// 0 is the primary speaker.
    pub speaker_id: Option<u32>,
    pub speaker_label: Option<String>,
}

/// A session and the insights gathered in it.
#[derive(Clone, Debug)]
pub struct ActiveListeningSession {
    pub id: String,
    /// Milliseconds since the epoch.
    pub started_at: i64,
    /// Milliseconds since the epoch; `None` while the session runs.
    pub ended_at: Option<i64>,
    pub topic: Option<String>,
    pub insights: Vec<SessionInsight>,
}

/// A task that came up in a meeting.
#[derive(Clone, Debug)]
pub struct ActionItem {
    pub description: String,
    pub assignee: Option<String>,
    pub deadline: Option<String>,
}

/// The summary of a whole session.
#[derive(Clone, Debug)]
pub struct MeetingSummary {
    pub session_id: String,
    pub executive_summary: String,
    pub decisions: Vec<String>,
    pub action_items: Vec<ActionItem>,
    pub topics: Vec<String>,
    pub follow_ups: Vec<String>,
    pub duration_minutes: u32,
    pub generated_at: i64,
}

/// Tells that a segment was transcribed.
#[derive(Clone, Debug)]
pub struct ActiveListeningSegmentEvent {
    pub session_id: String,
    pub transcription: String,
    pub timestamp: i64,
    pub speaker_id: Option<u32>,
    pub speaker_label: Option<String>,
}

/// Carries one piece of an insight as it is generated.
#[derive(Clone, Debug)]
pub struct ActiveListeningInsightEvent {
    pub session_id: String,
    pub chunk: String,
    pub done: bool,
}

/// Tells that the session's state changed.
#[derive(Clone, Debug)]
pub struct ActiveListeningStateEvent {
    pub state: ActiveListeningState,
    pub session_id: Option<String>,
    pub error: Option<String>,
}

/// An insight as plain values.
pub struct InsightView {
    pub timestamp: i64,
    pub transcription: Seq<char>,
    pub insight: Seq<char>,
    pub duration_ms: u64,
    pub speaker_id: Option<u32>,
    pub speaker_label: Option<Seq<char>>,
}

/// A session as plain values.
pub struct SessionView {
    pub id: Seq<char>,
    pub started_at: i64,
    pub ended_at: Option<i64>,
    pub topic: Option<Seq<char>>,
    pub insights: Seq<InsightView>,
}

impl View for SessionInsight {
    type V = InsightView;

    open spec fn view(&self) -> InsightView {
        InsightView {
            timestamp: self.timestamp,
            transcription: self.transcription@,
            insight: self.insight@,
            duration_ms: self.duration_ms,
            speaker_id: self.speaker_id,
            speaker_label: opt_chars(self.speaker_label),
        }
    }
}

/// The insights of `v` as plain values.
pub open spec fn insight_views(v: Seq<SessionInsight>) -> Seq<InsightView> {
    v.map_values(|i: SessionInsight| i@)
}

impl View for ActiveListeningSession {
    type V = SessionView;

    open spec fn view(&self) -> SessionView {
        SessionView {
            id: self.id@,
            started_at: self.started_at,
            ended_at: self.ended_at,
            topic: opt_chars(self.topic),
            insights: insight_views(self.insights@),
        }
    }
}

/// The session inside `s`, as plain values.
pub open spec fn opt_session_view(s: Option<ActiveListeningSession>) -> Option<SessionView> {
    match s {
        Some(x) => Some(x@),
        None => None,
    }
}

/// Insights are in the order of their time stamps.
pub open spec fn insights_in_order(insights: Seq<InsightView>) -> bool {
    forall|i: int, j: int| 0 <= i <= j < insights.len() ==> insights[i].timestamp <= insights[j].timestamp
}

/// A session's record is in order: its insights are in the order of their time stamps,
/// and it did not end before it began.
pub open spec fn session_in_order(s: SessionView) -> bool {
    &&& insights_in_order(s.insights)
    &&& match s.ended_at {
        Some(e) => s.started_at <= e,
        None => true,
    }
}

/// The later of two times.
pub open spec fn later_of(a: i64, b: i64) -> i64 {
    if a >= b {
        a
    } else {
        b
    }
}

/// The time stamp that an insight recorded at `now` gets: `now`, but never earlier than
/// the insight before it.
pub open spec fn next_stamp(insights: Seq<InsightView>, now: i64) -> i64 {
    if insights.len() == 0 {
        now
    } else {
        later_of(now, insights.last().timestamp)
    }
}

/// The label shown for speaker `id`: the primary speaker is "You", the others are
/// counted from 2.
pub open spec fn speaker_label_of(id: u32) -> Seq<char> {
    if id == 0 {
        "You"@
    } else {
        "Speaker "@ + digits_of((id + 1) as nat)
    }
}

/// The label shown for speaker `id`.
pub fn speaker_label(id: u32) -> (label: String)
    ensures
        label@ == speaker_label_of(id),
{
    if id == 0 {
        "You".to_owned()
    } else {
        let mut label = "Speaker ".to_owned();
        push_decimal(&mut label, id as u64 + 1);
        label
    }
}

/// The id of a session started at `now`.
pub open spec fn session_id_of(now: i64) -> Seq<char> {
    "al_"@ + signed_digits_of(now as int)
}

/// A segment handed out for transcription and summary.
pub struct SegmentJob {
    pub samples: Vec<u32>,
    /// The session that the segment belongs to, fixed when the segment was cut.
    pub session_id: String,
    pub topic: Option<String>,
    pub speaker_id: Option<u32>,
}

/// How the summary of a segment ended.
pub enum InsightOutcome {
    /// The model answered with this text.
    Generated(String),
    /// The request failed.
    Failed,
    /// No model is configured.
    NoModel,
}

/// What goes into the history for a segment.
pub struct HistoryRecord {
    pub transcription: String,
    pub post_processed_text: Option<String>,
    pub post_process_prompt: Option<String>,
}

/// The manager as plain values.
pub struct ManagerView {
    pub state: ActiveListeningState,
    pub session: Option<SessionView>,
    /// The samples of the segment being gathered.
    pub buffer: Seq<u32>,
    /// The reading of the steady clock, in milliseconds, when the segment began.
    pub segment_start: Option<u64>,
    /// Earlier insights, oldest first.
    pub context: Seq<Seq<char>>,
    /// The speaker of the segment being gathered: the one who holds the turn at the
    /// first frame of the segment that is not silent. `None` until such a frame is seen.
    pub segment_speaker: Option<u32>,
    pub diarizer: DiarizerState,
    /// The record of the session that was stopped last. Insights of segments that were
    /// still in work when it stopped are added to it.
    pub closed: Option<SessionView>,
}

/// The records that the manager holds are in order: that of the current session and
/// that of the session stopped last.
pub open spec fn records_in_order(m: ManagerView) -> bool {
    &&& m.session is Some ==> session_in_order(m.session->0)
    &&& m.closed is Some ==> session_in_order(m.closed->0)
}

/// Whether `session` is there and has the id `session_id`.
pub open spec fn is_session(session: Option<SessionView>, session_id: Seq<char>) -> bool {
    session is Some && session->0.id == session_id
}

/// The record of the stopped session when an insight is added for the session
/// `session_id`: the insight is appended if that session is the stopped one and not the
/// current one.
pub open spec fn with_late_insight(
    closed: Option<SessionView>,
    current: Option<SessionView>,
    session_id: Seq<char>,
    insight: InsightView,
    now: i64,
) -> Option<SessionView> {
    if is_session(current, session_id) {
        closed
    } else {
        with_insight(closed, session_id, insight, now)
    }
}

/// The session's record when an insight is added for the session `session_id` at `now`:
/// the insight is appended if that session is the current one.
pub open spec fn with_insight(
    session: Option<SessionView>,
    session_id: Seq<char>,
    insight: InsightView,
    now: i64,
) -> Option<SessionView> {
    match session {
        Some(s) => if s.id == session_id {
            Some(
                SessionView {
                    insights: s.insights.push(
                        InsightView { timestamp: next_stamp(s.insights, now), ..insight },
                    ),
                    ..s
                },
            )
        } else {
            Some(s)
        },
        None => None,
    }
}

/// The context after `insight` is recorded: an empty insight is not recorded, and only
/// the last `window` entries are kept.
pub open spec fn with_context(context: Seq<Seq<char>>, insight: Seq<char>, window: nat) -> Seq<Seq<char>> {
    if insight.len() == 0 {
        context
    } else if context.len() + 1 > window {
        context.push(insight).skip(context.len() + 1 - window)
    } else {
        context.push(insight)
    }
}

/// The state after a segment is dealt with: processing goes back to listening, any
/// other state stays.
pub open spec fn resumed(state: ActiveListeningState) -> ActiveListeningState {
    if state == ActiveListeningState::Processing {
        ActiveListeningState::Listening
    } else {
        state
    }
}

/// Whether the segment that began at `start` is due at `now`.
pub open spec fn segment_due(start: u64, now: u64, segment_duration_seconds: u32) -> bool {
    now >= start && now - start >= segment_duration_seconds as int * 1000
}

/// The manager after the gathered segment is cut at `now`.
pub open spec fn after_cut(m: ManagerView, now: u64) -> ManagerView {
    if m.buffer.len() == 0 {
        ManagerView { segment_start: Some(now), ..m }
    } else if m.session is None {
        ManagerView { buffer: Seq::empty(), segment_start: Some(now), segment_speaker: None, ..m }
    } else {
        ManagerView {
            state: ActiveListeningState::Processing,
            buffer: Seq::empty(),
            segment_start: Some(now),
            segment_speaker: None,
            ..m
        }
    }
}

/// Whether cutting the gathered segment hands out a job.
pub open spec fn cut_gives_job(m: ManagerView) -> bool {
    m.buffer.len() > 0 && m.session is Some
}

/// Whether `job` is the segment cut from `m`.
pub open spec fn is_job_of(job: SegmentJob, m: ManagerView) -> bool {
    &&& m.session is Some
    &&& job.samples@ == m.buffer
    &&& job.session_id@ == m.session->0.id
    &&& opt_chars(job.topic) == m.session->0.topic
    &&& job.speaker_id == m.segment_speaker
}

/// The manager after samples were pushed at `now`, before any cut.
pub open spec fn after_push(m: ManagerView, samples: Seq<u32>, now: u64) -> ManagerView {
    ManagerView {
        buffer: m.buffer + samples,
        segment_start: match m.segment_start {
            Some(s) => Some(s),
            None => Some(now),
        },
        ..m
    }
}

/// The speaker of the segment after a frame was observed. It is fixed once in a
/// segment: at the first frame that is not silent, to the speaker who holds the turn
/// after that frame, a change of speaker at that very frame included. Silent frames
/// fix nothing.
pub open spec fn seen_speaker(segment_speaker: Option<u32>, is_silence: bool, after: DiarizerState) -> Option<
    u32,
> {
    match segment_speaker {
        Some(s) => Some(s),
        None => if is_silence {
            None
        } else {
            Some(after.current_speaker)
        },
    }
}

/// The manager after a frame was observed while it listens.
pub open spec fn after_frame(m: ManagerView, frame_len: nat, is_silence: bool, energy_differs: bool) -> ManagerView {
    let after = step_state(session_diarizer_config(), m.diarizer, frame_len, is_silence, energy_differs);
    ManagerView { diarizer: after, segment_speaker: seen_speaker(m.segment_speaker, is_silence, after), ..m }
}

/// The speaker of a segment is that of its first frame that is not silent. Pushed
/// samples and silent frames leave it open; the first other frame fixes it, to the new
/// speaker where the frame reports a change and to the speaker of before where it does
/// not; once fixed it stays until the segment is cut.
pub proof fn lemma_segment_speaker_is_first_voice(
    m: ManagerView,
    frame_len: nat,
    is_silence: bool,
    energy_differs: bool,
    samples: Seq<u32>,
    now: u64,
)
    ensures
        after_push(m, samples, now).segment_speaker == m.segment_speaker,
        m.segment_speaker is Some ==> after_frame(m, frame_len, is_silence, energy_differs).segment_speaker
            == m.segment_speaker,
        m.segment_speaker is None && is_silence ==> after_frame(
            m,
            frame_len,
            is_silence,
            energy_differs,
        ).segment_speaker is None,
        m.segment_speaker is None && !is_silence ==> after_frame(
            m,
            frame_len,
            is_silence,
            energy_differs,
        ).segment_speaker == Some(
            match crate::diarization::step_change(
                session_diarizer_config(),
                m.diarizer,
                frame_len,
                is_silence,
                energy_differs,
            ) {
                Some(change) => change.new_speaker,
                None => m.diarizer.current_speaker,
            },
        ),
{
}

/// The manager after a session was started at `now` with the topic `topic`.
pub open spec fn started(m: ManagerView, topic: Option<Seq<char>>, now: i64) -> ManagerView {
    ManagerView {
        state: ActiveListeningState::Listening,
        session: Some(
            SessionView { id: session_id_of(now), started_at: now, ended_at: None, topic, insights: Seq::empty() },
        ),
        buffer: Seq::empty(),
        segment_start: None,
        context: Seq::empty(),
        segment_speaker: None,
        diarizer: initial_state(),
        closed: m.closed,
    }
}

/// The record of the current session closed at `now`, or at the time it began if the
/// clock ran back; `None` without a session.
pub open spec fn closed_record(m: ManagerView, now: i64) -> Option<SessionView> {
    match m.session {
        Some(s) => Some(SessionView { ended_at: Some(later_of(now, s.started_at)), ..s }),
        None => None,
    }
}

/// The manager after its session was stopped at `now`: it is idle without a session,
/// what was gathered is gone with its clock and its speaker, and the closed record is
/// kept.
pub open spec fn stopped(m: ManagerView, now: i64) -> ManagerView {
    ManagerView {
        state: ActiveListeningState::Idle,
        session: None,
        buffer: Seq::empty(),
        segment_start: None,
        segment_speaker: None,
        closed: match m.session {
            Some(s) => closed_record(m, now),
            None => m.closed,
        },
        ..m
    }
}

/// The lines that put earlier insights into a prompt, from entry `k` on: each entry on a
/// line of its own, numbered from 1.
pub open spec fn numbered_lines(context: Seq<Seq<char>>, k: int) -> Seq<char>
    decreases context.len() - k,
{
    if k < 0 || k >= context.len() {
        Seq::empty()
    } else {
        let line = digits_of((k + 1) as nat) + ". "@ + context[k];
        if k + 1 == context.len() {
            line
        } else {
            line + "\n"@ + numbered_lines(context, k + 1)
        }
    }
}

/// What a prompt says of earlier insights.
pub open spec fn previous_context_of(context: Seq<Seq<char>>) -> Seq<char> {
    if context.len() == 0 {
        "No previous context."@
    } else {
        numbered_lines(context, 0)
    }
}

/// The entries of `context` from `k` on, one per line.
pub open spec fn joined_lines(context: Seq<Seq<char>>, k: int) -> Seq<char>
    decreases context.len() - k,
{
    if k < 0 || k >= context.len() {
        Seq::empty()
    } else if k + 1 == context.len() {
        context[k]
    } else {
        context[k] + "\n"@ + joined_lines(context, k + 1)
    }
}

/// What the suggestion engine is told of earlier insights: the last three, one per line.
pub open spec fn suggestion_context_of(context: Seq<Seq<char>>) -> Seq<char> {
    if context.len() > 3 {
        joined_lines(context, context.len() - 3)
    } else {
        joined_lines(context, 0)
    }
}

/// The settings of the diarizer that a session runs.
pub open spec fn session_diarizer_config() -> DiarizationConfig {
    DiarizationConfig { min_silence_duration_ms: 500, sample_rate: 16000, history_window_size: 20 }
}

/// Drives one active-listening session at a time.
pub struct ActiveListeningManager {
    state: ActiveListeningState,
    current_session: Option<ActiveListeningSession>,
    segment_buffer: Vec<u32>,
    segment_start: Option<u64>,
    context_buffer: Vec<String>,
    diarizer: EnergyBasedDiarizer,
    current_segment_speaker: Option<u32>,
    closed_session: Option<ActiveListeningSession>,
}

impl View for ActiveListeningManager {
    type V = ManagerView;

    closed spec fn view(&self) -> ManagerView {
        ManagerView {
            state: self.state,
            session: opt_session_view(self.current_session),
            buffer: self.segment_buffer@,
            segment_start: self.segment_start,
            context: each_chars(self.context_buffer@),
            segment_speaker: self.current_segment_speaker,
            diarizer: self.diarizer.state(),
            closed: opt_session_view(self.closed_session),
        }
    }
}

/// A copy of `insight`.
pub fn copy_insight(insight: &SessionInsight) -> (r: SessionInsight)
    ensures
        r@ == insight@,
{
    SessionInsight {
        timestamp: insight.timestamp,
        transcription: copy_string(&insight.transcription),
        insight: copy_string(&insight.insight),
        duration_ms: insight.duration_ms,
        speaker_id: insight.speaker_id,
        speaker_label: copy_opt_string(&insight.speaker_label),
    }
}

/// A copy of `session`.
pub fn copy_session(session: &ActiveListeningSession) -> (r: ActiveListeningSession)
    ensures
        r@ == session@,
{
    let mut insights: Vec<SessionInsight> = Vec::new();
    let mut i: usize = 0;
    while i < session.insights.len()
        invariant
            i <= session.insights.len(),
            insights@.len() == i,
            forall|j: int| 0 <= j < i ==> (#[trigger] insights@[j])@ == session.insights@[j]@,
        decreases session.insights.len() - i,
    {
        insights.push(copy_insight(&session.insights[i]));
        i += 1;
    }
    assert(insight_views(insights@) =~= insight_views(session.insights@));
    ActiveListeningSession {
        id: copy_string(&session.id),
        started_at: session.started_at,
        ended_at: session.ended_at,
        topic: copy_opt_string(&session.topic),
        insights,
    }
}

/// `session` with `entry` behind its insights, stamped with `now` or with the stamp of
/// the insight before it where the clock ran back.
fn append_insight(session: ActiveListeningSession, entry: SessionInsight, now: i64) -> (out:
    ActiveListeningSession)
    ensures
        Some(out@) == with_insight(Some(session@), session@.id, entry@, now),
{
    let mut session = session;
    let ghost before = session;
    let mut entry = entry;
    let n = session.insights.len();
    entry.timestamp = if n > 0 && session.insights[n - 1].timestamp > now {
        session.insights[n - 1].timestamp
    } else {
        now
    };
    proof {
        if n > 0 {
            assert(insight_views(before.insights@).last() == before.insights@[n - 1]@);
        }
    }
    session.insights.push(entry);
    assert(insight_views(session.insights@) =~= insight_views(before.insights@).push(entry@));
    session
}

impl ActiveListeningManager {
    /// The diarizer's settings stay as they are and its counters are in order.
    pub closed spec fn wf(&self) -> bool {
        self.diarizer.wf() && self.diarizer.config() == session_diarizer_config()
    }

    /// A manager without a session.
    pub fn new() -> (m: ActiveListeningManager)
        ensures
            m.wf(),
            records_in_order(m@),
            m@ == (ManagerView {
                state: ActiveListeningState::Idle,
                session: None,
                buffer: Seq::empty(),
                segment_start: None,
                context: Seq::empty(),
                segment_speaker: None,
                diarizer: initial_state(),
                closed: None,
            }),
    {
        let m = ActiveListeningManager {
            state: ActiveListeningState::Idle,
            current_session: None,
            segment_buffer: Vec::new(),
            segment_start: None,
            context_buffer: Vec::new(),
            diarizer: EnergyBasedDiarizer::new(),
            current_segment_speaker: None,
            closed_session: None,
        };
        assert(m@.context =~= Seq::<Seq<char>>::empty());
        m
    }

    pub fn get_state(&self) -> (s: ActiveListeningState)
        ensures
            s == self@.state,
    {
        self.state
    }

    /// Whether a session runs.
    pub fn is_session_active(&self) -> (b: bool)
        ensures
            b == (self@.state != ActiveListeningState::Idle),
    {
        self.state != ActiveListeningState::Idle
    }

    /// A copy of the current session's record.
    pub fn get_current_session(&self) -> (s: Option<ActiveListeningSession>)
        ensures
            opt_session_view(s) == self@.session,
    {
        match &self.current_session {
            Some(x) => Some(copy_session(x)),
            None => None,
        }
    }

    /// Starts a session at the time `now`, in milliseconds since the epoch, and returns
    /// its id. Fails, and changes nothing, if a session runs already.
    pub fn start_session_at(&mut self, topic: Option<String>, now: i64) -> (r: Result<String, String>)
        requires
            old(self).wf(),
        ensures
            final(self).wf(),
            records_in_order(old(self)@) ==> records_in_order(final(self)@),
            old(self)@.state != ActiveListeningState::Idle ==> r is Err && r->Err_0@
                == "A session is already active"@ && final(self)@ == old(self)@,
            old(self)@.state == ActiveListeningState::Idle ==> r is Ok && r->Ok_0@ == session_id_of(now)
                && final(self)@ == started(old(self)@, opt_chars(topic), now),
    {
        if self.state != ActiveListeningState::Idle {
            return Err("A session is already active".to_owned());
        }
        let mut id = "al_".to_owned();
        push_signed_decimal(&mut id, now);
        let session = ActiveListeningSession {
            id: copy_string(&id),
            started_at: now,
            ended_at: None,
            topic,
            insights: Vec::new(),
        };
        assert(insight_views(session.insights@) =~= Seq::<InsightView>::empty());
        self.state = ActiveListeningState::Listening;
        self.current_session = Some(session);
        self.segment_buffer.clear();
        self.segment_start = None;
        self.context_buffer.clear();
        self.diarizer.reset();
        self.current_segment_speaker = None;
        assert(self@.context =~= Seq::<Seq<char>>::empty());
        Ok(id)
    }

    /// Starts a session at the present time and returns its id. Fails, and changes
    /// nothing, if a session runs already. The manager is then as `start_session_at`
    /// leaves it for the time that the clock gave.
    pub fn start_session(&mut self, topic: Option<String>) -> (r: Result<String, String>)
        requires
            old(self).wf(),
        ensures
            final(self).wf(),
            records_in_order(old(self)@) ==> records_in_order(final(self)@),
            old(self)@.state != ActiveListeningState::Idle ==> r is Err && r->Err_0@
                == "A session is already active"@ && final(self)@ == old(self)@,
            old(self)@.state == ActiveListeningState::Idle ==> r is Ok && exists|now: i64|
                r->Ok_0@ == session_id_of(now) && final(self)@ == #[trigger] started(
                    old(self)@,
                    opt_chars(topic),
                    now,
                ),
    {
        let now = now_millis();
        let ghost told = opt_chars(topic);
        let r = self.start_session_at(topic, now);
        proof {
            if old(self)@.state == ActiveListeningState::Idle {
                assert(r->Ok_0@ == session_id_of(now) && self@ == started(old(self)@, told, now));
            }
        }
        r
    }

    /// Stops the session at the present time and returns its record. The manager and
    /// the record are then as `stop_session_at` leaves them for the time that the clock
    /// gave.
    pub fn stop_session(&mut self) -> (r: Result<Option<ActiveListeningSession>, String>)
        ensures
            final(self).wf() == old(self).wf(),
            records_in_order(old(self)@) ==> records_in_order(final(self)@) && (r->Ok_0 is Some
                ==> session_in_order(r->Ok_0->0@)),
            r is Ok,
            old(self)@.state == ActiveListeningState::Idle ==> r->Ok_0 is None && final(self)@ == old(self)@,
            old(self)@.state != ActiveListeningState::Idle ==> exists|now: i64|
                final(self)@ == #[trigger] stopped(old(self)@, now) && opt_session_view(r->Ok_0)
                    == closed_record(old(self)@, now),
    {
        let now = now_millis();
        let r = self.stop_session_at(now);
        proof {
            if old(self)@.state != ActiveListeningState::Idle {
                assert(self@ == stopped(old(self)@, now) && opt_session_view(r->Ok_0) == closed_record(
                    old(self)@,
                    now,
                ));
            }
        }
        r
    }

    /// Stops the session at the time `now` and returns its record, closed at `now` or,
    /// if the clock ran back, at the time it began. No new segment is begun for it; a
    /// copy of the record is kept for the insights of segments still in work. What was
    /// gathered and not cut is dropped. Without a session nothing changes.
    pub fn stop_session_at(&mut self, now: i64) -> (r: Result<Option<ActiveListeningSession>, String>)
        ensures
            final(self).wf() == old(self).wf(),
            records_in_order(old(self)@) ==> records_in_order(final(self)@) && (r->Ok_0 is Some
                ==> session_in_order(r->Ok_0->0@)),
            r is Ok,
            old(self)@.state == ActiveListeningState::Idle ==> r->Ok_0 is None && final(self)@ == old(self)@,
            old(self)@.state != ActiveListeningState::Idle ==> final(self)@ == stopped(old(self)@, now)
                && opt_session_view(r->Ok_0) == closed_record(old(self)@, now),
    {
        if self.state == ActiveListeningState::Idle {
            return Ok(None);
        }
        self.state = ActiveListeningState::Idle;
        let session = match self.current_session.take() {
            Some(mut s) => {
                let end = if now >= s.started_at {
                    now
                } else {
                    s.started_at
                };
                s.ended_at = Some(end);
                self.closed_session = Some(copy_session(&s));
                Some(s)
            },
            None => None,
        };
        self.segment_buffer.clear();
        self.segment_start = None;
        self.current_segment_speaker = None;
        Ok(session)
    }

    /// Whether the next frame, if it is not silent and has `frame_len` samples, is the
    /// one at which the caller fixes the primary speaker's baseline energy.
    pub fn baseline_due(&self, frame_len: usize) -> (due: bool)
        requires
            self.wf(),
        ensures
            due == crate::diarization::baseline_due_spec(
                session_diarizer_config(),
                self@.diarizer,
                frame_len as nat,
            ),
    {
        self.diarizer.baseline_due(frame_len)
    }

    /// How many frame energies the diarizer's rolling window holds.
    pub fn energy_history_len(&self) -> (n: usize)
        ensures
            n == self@.diarizer.history_len,
    {
        self.diarizer.history_len()
    }

    /// Hands the evidence of one frame to the diarizer, while the session listens, before
    /// the frame's samples are pushed. The first frame of a segment that is not silent
    /// fixes the segment's speaker. In any other state the frame is ignored.
    pub fn observe_frame(&mut self, frame_len: usize, is_silence: bool, energy_differs: bool) -> (u:
        EnergyUpdate)
        requires
            old(self).wf(),
        ensures
            final(self).wf(),
            old(self)@.state != ActiveListeningState::Listening ==> u == EnergyUpdate::Keep && final(self)@ == old(self)@,
            old(self)@.state == ActiveListeningState::Listening ==> u == step_update(
                session_diarizer_config(),
                old(self)@.diarizer,
                frame_len as nat,
                is_silence,
                energy_differs,
            ) && final(self)@ == after_frame(old(self)@, frame_len as nat, is_silence, energy_differs),
    {
        if self.state != ActiveListeningState::Listening {
            return EnergyUpdate::Keep;
        }
        let (_, update) = self.diarizer.process_frame(frame_len, is_silence, energy_differs);
        if self.current_segment_speaker.is_none() && !is_silence {
            self.current_segment_speaker = Some(self.diarizer.get_current_speaker());
        }
        update
    }

    /// Cuts the gathered segment at `now`: the buffer is emptied and the segment clock
    /// starts again. An empty buffer gives no job. Otherwise the segment's speaker is
    /// taken, and with a current session the manager goes to processing and hands out
    /// the job.
    fn trigger_segment_processing(&mut self, now: u64) -> (job: Option<SegmentJob>)
        requires
            old(self).wf(),
        ensures
            final(self).wf(),
            final(self)@ == after_cut(old(self)@, now),
            job is Some == cut_gives_job(old(self)@),
            job is Some ==> is_job_of(job->0, old(self)@),
    {
        let mut samples: Vec<u32> = Vec::new();
        core::mem::swap(&mut samples, &mut self.segment_buffer);
        self.segment_start = Some(now);
        if samples.len() == 0 {
            assert(self@.buffer =~= old(self)@.buffer);
            return None;
        }
        let speaker_id = self.current_segment_speaker;
        self.current_segment_speaker = None;
        let (session_id, topic) = match &self.current_session {
            Some(s) => (copy_string(&s.id), copy_opt_string(&s.topic)),
            None => {
                return None;
            },
        };
        self.state = ActiveListeningState::Processing;
        Some(SegmentJob { samples, session_id, topic, speaker_id })
    }

    /// Adds samples to the segment being gathered, while the session listens; in any
    /// other state they are dropped. The first push of a segment starts its clock at
    /// `now`, a reading of a steady clock in milliseconds. The segment's speaker is the
    /// one that `observe_frame` fixed. Once the segment has lasted
    /// `segment_duration_seconds`, it is cut.
    pub fn push_audio_samples(&mut self, samples: &[u32], now: u64, segment_duration_seconds: u32) -> (job:
        Option<SegmentJob>)
        requires
            old(self).wf(),
        ensures
            final(self).wf(),
            old(self)@.state != ActiveListeningState::Listening ==> job is None && final(self)@ == old(self)@,
            old(self)@.state == ActiveListeningState::Listening ==> ({
                let pushed = after_push(old(self)@, samples@, now);
                if segment_due(pushed.segment_start->0, now, segment_duration_seconds) {
                    &&& final(self)@ == after_cut(pushed, now)
                    &&& job is Some == cut_gives_job(pushed)
                    &&& job is Some ==> is_job_of(job->0, pushed)
                } else {
                    final(self)@ == pushed && job is None
                }
            }),
    {
        if self.state != ActiveListeningState::Listening {
            return None;
        }
        let start = match self.segment_start {
            Some(s) => s,
            None => {
                self.segment_start = Some(now);
                now
            },
        };
        let ghost before = self.segment_buffer@;
        let mut i: usize = 0;
        while i < samples.len()
            invariant
                i <= samples.len(),
                self.wf(),
                self.segment_buffer@ == before + samples@.take(i as int),
                self@ == (ManagerView {
                    buffer: before + samples@.take(i as int),
                    ..after_push(old(self)@, samples@, now)
                }),
            decreases samples.len() - i,
        {
            self.segment_buffer.push(samples[i]);
            assert((before + samples@.take(i as int)).push(samples@[i as int]) =~= before + samples@.take(
                i + 1,
            ));
            i += 1;
        }
        assert(samples@.take(samples.len() as int) =~= samples@);
        let due = now >= start && now - start >= (segment_duration_seconds as u64) * 1000;
        if due {
            self.trigger_segment_processing(now)
        } else {
            None
        }
    }

    /// Cuts the gathered segment at `now` if the session listens and at least half a
    /// second of audio was gathered; otherwise nothing changes.
    pub fn flush_segment(&mut self, now: u64) -> (job: Option<SegmentJob>)
        requires
            old(self).wf(),
        ensures
            final(self).wf(),
            if old(self)@.state == ActiveListeningState::Listening && old(self)@.buffer.len()
                >= MIN_FLUSH_SAMPLES {
                &&& final(self)@ == after_cut(old(self)@, now)
                &&& job is Some == cut_gives_job(old(self)@)
                &&& job is Some ==> is_job_of(job->0, old(self)@)
            } else {
                final(self)@ == old(self)@ && job is None
            },
    {
        if self.state != ActiveListeningState::Listening {
            return None;
        }
        if self.segment_buffer.len() >= MIN_FLUSH_SAMPLES {
            self.trigger_segment_processing(now)
        } else {
            None
        }
    }

    /// Appends an insight to the session `session_id`: to the current session if that is
    /// the one, else to the record of the stopped session if that is the one. An insight
    /// for any other session is dropped. The insight is stamped with `now`, or with the
    /// stamp of the insight before it where the clock ran back.
    pub fn add_insight_to_session(
        &mut self,
        session_id: &str,
        transcription: String,
        insight: String,
        duration_ms: u64,
        speaker_id: Option<u32>,
        speaker_label: Option<String>,
        now: i64,
    )
        ensures
            final(self).wf() == old(self).wf(),
            records_in_order(old(self)@) ==> records_in_order(final(self)@),
            final(self)@ == (ManagerView {
                session: with_insight(
                    old(self)@.session,
                    session_id@,
                    InsightView {
                        timestamp: now,
                        transcription: transcription@,
                        insight: insight@,
                        duration_ms,
                        speaker_id,
                        speaker_label: opt_chars(speaker_label),
                    },
                    now,
                ),
                closed: with_late_insight(
                    old(self)@.closed,
                    old(self)@.session,
                    session_id@,
                    InsightView {
                        timestamp: now,
                        transcription: transcription@,
                        insight: insight@,
                        duration_ms,
                        speaker_id,
                        speaker_label: opt_chars(speaker_label),
                    },
                    now,
                ),
                ..old(self)@
            }),
    {
        let entry =
            SessionInsight { timestamp: now, transcription, insight, duration_ms, speaker_id, speaker_label };
        proof {
            if records_in_order(old(self)@) {
                if old(self)@.session is Some {
                    lemma_insight_keeps_order(old(self)@.session->0, session_id@, entry@, now);
                }
                if old(self)@.closed is Some {
                    lemma_insight_keeps_order(old(self)@.closed->0, session_id@, entry@, now);
                }
            }
        }
        let is_current = match &self.current_session {
            Some(s) => same_text(s.id.as_str(), session_id),
            None => false,
        };
        if is_current {
            match self.current_session.take() {
                Some(session) => {
                    self.current_session = Some(append_insight(session, entry, now));
                },
                None => {},
            }
        } else {
            match self.closed_session.take() {
                Some(session) => {
                    if same_text(session.id.as_str(), session_id) {
                        self.closed_session = Some(append_insight(session, entry, now));
                    } else {
                        self.closed_session = Some(session);
                    }
                },
                None => {},
            }
        }
    }

    /// A copy of the record of the session that was stopped last, with the insights
    /// that came in after it stopped.
    pub fn get_closed_session(&self) -> (s: Option<ActiveListeningSession>)
        ensures
            opt_session_view(s) == self@.closed,
    {
        match &self.closed_session {
            Some(x) => Some(copy_session(x)),
            None => None,
        }
    }

    /// Records an insight for later prompts; an empty one is not recorded. Only the last
    /// `context_window_size` insights are kept.
    pub fn record_context(&mut self, insight: &str, context_window_size: usize)
        ensures
            final(self).wf() == old(self).wf(),
            final(self)@ == (ManagerView {
                context: with_context(old(self)@.context, insight@, context_window_size as nat),
                ..old(self)@
            }),
    {
        if insight.unicode_len() == 0 {
            return ;
        }
        self.context_buffer.push(insight.to_owned());
        assert(each_chars(self.context_buffer@) =~= old(self)@.context.push(insight@));
        let ghost all = each_chars(self.context_buffer@);
        assert(all.skip(0) =~= all);
        while self.context_buffer.len() > context_window_size
            invariant
                self.wf() == old(self).wf(),
                self@ == (ManagerView { context: self@.context, ..old(self)@ }),
                self@.context.len() <= all.len(),
                self@.context.len() >= context_window_size || self@.context.len() == all.len(),
                self@.context == all.skip(all.len() - self@.context.len()),
                self@.context.len() == self.context_buffer@.len(),
            decreases self.context_buffer@.len(),
        {
            let ghost before = each_chars(self.context_buffer@);
            let _ = self.context_buffer.remove(0);
            assert(each_chars(self.context_buffer@) =~= before.skip(1));
            assert(self@.context =~= all.skip(all.len() - self@.context.len()));
        }
    }

    /// Goes back to listening after a segment was dealt with. A session that was
    /// stopped meanwhile stays stopped. Returns whether the state changed.
    pub fn transition_to_listening(&mut self) -> (changed: bool)
        ensures
            final(self).wf() == old(self).wf(),
            final(self)@ == (ManagerView { state: resumed(old(self)@.state), ..old(self)@ }),
            changed == (old(self)@.state == ActiveListeningState::Processing),
    {
        if self.state == ActiveListeningState::Processing {
            self.state = ActiveListeningState::Listening;
            true
        } else {
            false
        }
    }

    /// Closes the work on a transcribed segment of the session `session_id`. A generated
    /// insight that is not empty goes into the context. The insight, empty where none
    /// was generated, is added to the session. Then the manager goes back to listening.
    /// Returns what the history keeps of the segment: the transcript, and with a
    /// generated insight that is not empty, the insight and the prompt template used.
    pub fn conclude_segment(
        &mut self,
        session_id: &str,
        transcription: &str,
        outcome: InsightOutcome,
        prompt_template: &str,
        duration_ms: u64,
        speaker_id: Option<u32>,
        now: i64,
        context_window_size: usize,
    ) -> (record: HistoryRecord)
        ensures
            final(self).wf() == old(self).wf(),
            records_in_order(old(self)@) ==> records_in_order(final(self)@),
            final(self)@ == (ManagerView {
                state: resumed(old(self)@.state),
                context: with_context(
                    old(self)@.context,
                    generated_text(outcome),
                    context_window_size as nat,
                ),
                session: with_insight(
                    old(self)@.session,
                    session_id@,
                    InsightView {
                        timestamp: now,
                        transcription: transcription@,
                        insight: generated_text(outcome),
                        duration_ms,
                        speaker_id,
                        speaker_label: match speaker_id {
                            Some(id) => Some(speaker_label_of(id)),
                            None => None,
                        },
                    },
                    now,
                ),
                closed: with_late_insight(
                    old(self)@.closed,
                    old(self)@.session,
                    session_id@,
                    InsightView {
                        timestamp: now,
                        transcription: transcription@,
                        insight: generated_text(outcome),
                        duration_ms,
                        speaker_id,
                        speaker_label: match speaker_id {
                            Some(id) => Some(speaker_label_of(id)),
                            None => None,
                        },
                    },
                    now,
                ),
                ..old(self)@
            }),
            record.transcription@ == transcription@,
            opt_chars(record.post_processed_text) == (if generated_text(outcome).len() > 0 {
                Some(generated_text(outcome))
            } else {
                None
            }),
            opt_chars(record.post_process_prompt) == (if outcome is Generated {
                Some(prompt_template@)
            } else {
                None
            }),
    {
        let label = match speaker_id {
            Some(id) => Some(speaker_label(id)),
            None => None,
        };
        let record = match outcome {
            InsightOutcome::Generated(text) => {
                self.record_context(text.as_str(), context_window_size);
                let post = if text.as_str().unicode_len() == 0 {
                    None
                } else {
                    Some(copy_string(&text))
                };
                self.add_insight_to_session(
                    session_id,
                    transcription.to_owned(),
                    text,
                    duration_ms,
                    speaker_id,
                    label,
                    now,
                );
                HistoryRecord {
                    transcription: transcription.to_owned(),
                    post_processed_text: post,
                    post_process_prompt: Some(prompt_template.to_owned()),
                }
            },
            _ => {
                self.add_insight_to_session(
                    session_id,
                    transcription.to_owned(),
                    String::new(),
                    duration_ms,
                    speaker_id,
                    label,
                    now,
                );
                HistoryRecord {
                    transcription: transcription.to_owned(),
                    post_processed_text: None,
                    post_process_prompt: None,
                }
            },
        };
        let _ = self.transition_to_listening();
        record
    }

    /// What the next prompt says of earlier insights: "No previous context." where
    /// there is none, else the insights on numbered lines, oldest first.
    pub fn previous_context_text(&self) -> (text: String)
        ensures
            text@ == previous_context_of(self@.context),
    {
        if self.context_buffer.len() == 0 {
            return "No previous context.".to_owned();
        }
        let ghost context = each_chars(self.context_buffer@);
        let mut text = String::new();
        let n = self.context_buffer.len();
        let mut k: usize = n;
        while k > 0
            invariant
                n == self.context_buffer@.len(),
                k <= n,
                context == each_chars(self.context_buffer@),
                text@ == numbered_lines(context, k as int),
            decreases k,
        {
            k -= 1;
            let mut line = String::new();
            push_decimal(&mut line, k as u64 + 1);
            push_text(&mut line, ". ");
            push_text(&mut line, self.context_buffer[k].as_str());
            if k + 1 < n {
                push_text(&mut line, "\n");
                push_text(&mut line, text.as_str());
            }
            assert(line@ =~= numbered_lines(context, k as int));
            text = line;
        }
        text
    }

    /// What the suggestion engine is told of earlier insights: the last three, one per
    /// line, oldest first.
    pub fn suggestion_context_text(&self) -> (text: String)
        ensures
            text@ == suggestion_context_of(self@.context),
    {
        let ghost context = each_chars(self.context_buffer@);
        let n = self.context_buffer.len();
        let from = if n > 3 {
            n - 3
        } else {
            0
        };
        let mut text = String::new();
        let mut k: usize = n;
        while k > from
            invariant
                n == self.context_buffer@.len(),
                from <= k <= n,
                context == each_chars(self.context_buffer@),
                text@ == joined_lines(context, k as int),
            decreases k,
        {
            k -= 1;
            let mut line = copy_string(&self.context_buffer[k]);
            if k + 1 < n {
                push_text(&mut line, "\n");
                push_text(&mut line, text.as_str());
            }
            assert(line@ =~= joined_lines(context, k as int));
            text = line;
        }
        text
    }
}

/// The insight that an outcome carries; empty where none was generated.
pub open spec fn generated_text(outcome: InsightOutcome) -> Seq<char> {
    match outcome {
        InsightOutcome::Generated(text) => text@,
        _ => Seq::empty(),
    }
}

/// What to do with a segment once its transcription is in.
#[derive(Debug, PartialEq, Eq)]
pub enum SegmentStep {
    /// Transcription failed: report the error and go back to listening.
    ReportFailure(String),
    /// Nothing was said: go back to listening.
    Skip,
    /// No model is configured: record the transcript without an insight.
    RecordOnly,
    /// Ask the model for an insight.
    Generate,
}

/// Decides what follows a transcription: a cancelled transcription is passed over in
/// silence; any other failure is reported with the text "Transcription failed: " and
/// the error; a transcript of white space alone is skipped; without a configured model
/// the transcript is recorded alone; else an insight is asked for.
pub fn plan_segment(transcription: &Result<String, TranscriptionError>, ollama_model: &str) -> (step:
    SegmentStep)
    ensures
        match transcription {
            Err(e) => if e is Cancelled {
                step is Skip
            } else {
                is_failure_report(step, "Transcription failed: "@ + transcription_error_text(*e))
            },
            Ok(text) => if crate::text::is_blank(text@) {
                step is Skip
            } else if ollama_model@.len() == 0 {
                step is RecordOnly
            } else {
                step is Generate
            },
        },
{
    match transcription {
        Err(e) => {
            if e.is_cancelled() {
                return SegmentStep::Skip;
            }
            let mut msg = "Transcription failed: ".to_owned();
            let text = e.to_string();
            push_text(&mut msg, text.as_str());
            SegmentStep::ReportFailure(msg)
        },
        Ok(text) => {
            let t = crate::text::chars_of(text.as_str());
            let blank = crate::text::blank_between(t.as_slice(), 0, t.len());
            assert(t@.subrange(0, t.len() as int) =~= t@);
            if blank {
                SegmentStep::Skip
            } else if ollama_model.unicode_len() == 0 {
                SegmentStep::RecordOnly
            } else {
                SegmentStep::Generate
            }
        },
    }
}

/// Whether `step` reports a failure in the words `message`.
pub open spec fn is_failure_report(step: SegmentStep, message: Seq<char>) -> bool {
    match step {
        SegmentStep::ReportFailure(msg) => msg@ == message,
        _ => false,
    }
}

/// Adding an insight keeps a session's record in order.
pub proof fn lemma_insight_keeps_order(s: SessionView, session_id: Seq<char>, insight: InsightView, now: i64)
    requires
        session_in_order(s),
    ensures
        session_in_order(with_insight(Some(s), session_id, insight, now)->0),
{
    if s.id == session_id {
        let t = with_insight(Some(s), session_id, insight, now)->0;
        assert forall|i: int, j: int| 0 <= i <= j < t.insights.len() implies t.insights[i].timestamp
            <= t.insights[j].timestamp by {
            if j < s.insights.len() {
                assert(t.insights[i] == s.insights[i] && t.insights[j] == s.insights[j]);
            } else if i < s.insights.len() {
                assert(t.insights[i] == s.insights[i]);
                assert(s.insights[i].timestamp <= s.insights.last().timestamp);
            }
        }
    }
}

/// A session that is started and then stopped has a record in order, whatever the
/// clock said at either time.
pub proof fn lemma_closed_session_in_order(s: SessionView, now: i64)
    requires
        session_in_order(s),
    ensures
        session_in_order(SessionView { ended_at: Some(later_of(now, s.started_at)), ..s }),
{
}

} // verus!
