//! Meeting summaries: what the model is asked, where its answer holds JSON, and how a
//! summary is written out.

use vstd::prelude::*;
use crate::active_listening::{ActionItem, InsightView, MeetingSummary, SessionInsight, insight_views};
use crate::json::{
    elements_member, elements_member_of, json_failure, json_failure_of, json_string, json_string_of,
    text_member, text_member_of,
};
use crate::text::{chars_of, digits_of, each_chars, opt_chars, push_decimal, push_text, string_between};

verus! {

/// The items from `k` on, each on a line of its own behind a dash.
pub open spec fn bulleted(items: Seq<Seq<char>>, k: int) -> Seq<char>
    decreases items.len() - k,
{
    if k < 0 || k >= items.len() {
        Seq::empty()
    } else {
        "- "@ + items[k] + "\n"@ + bulleted(items, k + 1)
    }
}

/// The items from `k` on, each on a line of its own behind its number.
pub open spec fn numbered(items: Seq<Seq<char>>, k: int) -> Seq<char>
    decreases items.len() - k,
{
    if k < 0 || k >= items.len() {
        Seq::empty()
    } else {
        digits_of((k + 1) as nat) + ". "@ + items[k] + "\n"@ + numbered(items, k + 1)
    }
}

/// An action item as plain values.
pub struct ActionView {
    pub description: Seq<char>,
    pub assignee: Option<Seq<char>>,
    pub deadline: Option<Seq<char>>,
}

/// The action items of `v` as plain values.
pub open spec fn action_views(v: Seq<ActionItem>) -> Seq<ActionView> {
    v.map_values(
        |a: ActionItem|
            ActionView {
                description: a.description@,
                assignee: opt_chars(a.assignee),
                deadline: opt_chars(a.deadline),
            },
    )
}

/// An action item in Markdown: a check box, the task, who does it and by when.
pub open spec fn action_markdown(a: ActionView) -> Seq<char> {
    "- [ ] "@ + a.description + (match a.assignee {
        Some(x) => " (@"@ + x + ")"@,
        None => Seq::empty(),
    }) + (match a.deadline {
        Some(x) => " [Due: "@ + x + "]"@,
        None => Seq::empty(),
    })
}

/// An action item in plain text: the task, who does it and by when.
pub open spec fn action_text(a: ActionView) -> Seq<char> {
    a.description + (match a.assignee {
        Some(x) => " (Assignee: "@ + x + ")"@,
        None => Seq::empty(),
    }) + (match a.deadline {
        Some(x) => " [Due: "@ + x + "]"@,
        None => Seq::empty(),
    })
}

/// The lines of the action items, for Markdown or for plain text.
pub open spec fn action_lines(items: Seq<ActionView>, markdown: bool) -> Seq<Seq<char>> {
    items.map_values(
        |a: ActionView|
            if markdown {
                action_markdown(a)
            } else {
                action_text(a)
            },
    )
}

/// The action items from `k` on in Markdown, one on each line.
pub open spec fn actions_markdown_from(items: Seq<ActionView>, k: int) -> Seq<char>
    decreases items.len() - k,
{
    if k < 0 || k >= items.len() {
        Seq::empty()
    } else {
        action_markdown(items[k]) + "\n"@ + actions_markdown_from(items, k + 1)
    }
}

/// A section of a Markdown summary: nothing for an empty body, else the heading, the
/// body and an empty line.
pub open spec fn markdown_section(heading: Seq<char>, body: Seq<char>) -> Seq<char> {
    if body.len() == 0 {
        Seq::empty()
    } else {
        heading + body + "\n"@
    }
}

/// A summary as plain values.
pub struct SummaryView {
    pub executive_summary: Seq<char>,
    pub decisions: Seq<Seq<char>>,
    pub action_items: Seq<ActionView>,
    pub topics: Seq<Seq<char>>,
    pub follow_ups: Seq<Seq<char>>,
    pub duration_minutes: u32,
}

/// The parts of a summary that are written out.
pub open spec fn summary_view(s: MeetingSummary) -> SummaryView {
    SummaryView {
        executive_summary: s.executive_summary@,
        decisions: each_chars(s.decisions@),
        action_items: action_views(s.action_items@),
        topics: each_chars(s.topics@),
        follow_ups: each_chars(s.follow_ups@),
        duration_minutes: s.duration_minutes,
    }
}

/// A summary in Markdown: the duration, the executive summary, and a section for each
/// list that is not empty.
pub open spec fn summary_markdown(s: SummaryView) -> Seq<char> {
    "# Meeting Summary\n\n"@ + "**Duration:** "@ + digits_of(s.duration_minutes as nat) + " minutes\n\n"@
        + "## Executive Summary\n\n"@ + s.executive_summary + "\n\n"@ + markdown_section(
        "## Key Decisions\n\n"@,
        bulleted(s.decisions, 0),
    ) + markdown_section("## Action Items\n\n"@, actions_markdown_from(s.action_items, 0))
        + markdown_section("## Topics Discussed\n\n"@, bulleted(s.topics, 0)) + markdown_section(
        "## Follow-up Questions\n\n"@,
        bulleted(s.follow_ups, 0),
    )
}

/// `n` times the character `c`.
pub open spec fn repeated(c: char, n: nat) -> Seq<char> {
    Seq::new(n, |i: int| c)
}

/// A section of a plain-text summary: nothing for an empty body, else the heading, a
/// rule, the body and an empty line.
pub open spec fn text_section(heading: Seq<char>, body: Seq<char>) -> Seq<char> {
    if body.len() == 0 {
        Seq::empty()
    } else {
        heading + repeated('-', 30) + "\n"@ + body + "\n"@
    }
}

/// A summary in plain text: the duration, the executive summary, and a numbered section
/// for each list that is not empty.
pub open spec fn summary_text(s: SummaryView) -> Seq<char> {
    "MEETING SUMMARY\n"@ + repeated('=', 50) + "\n"@ + "Duration: "@ + digits_of(s.duration_minutes as nat)
        + " minutes\n\n"@ + "EXECUTIVE SUMMARY\n"@ + repeated('-', 30) + "\n"@ + s.executive_summary
        + "\n\n"@ + text_section("KEY DECISIONS\n"@, numbered(s.decisions, 0)) + text_section(
        "ACTION ITEMS\n"@,
        numbered(action_lines(s.action_items, false), 0),
    ) + text_section("TOPICS DISCUSSED\n"@, numbered(s.topics, 0)) + text_section(
        "FOLLOW-UP QUESTIONS\n"@,
        numbered(s.follow_ups, 0),
    )
}

fn bulleted_text(items: &Vec<String>) -> (out: String)
    ensures
        out@ == bulleted(each_chars(items@), 0),
{
    let ghost views = each_chars(items@);
    let n = items.len();
    let mut out = String::new();
    let mut k: usize = n;
    while k > 0
        invariant
            n == items@.len(),
            k <= n,
            views == each_chars(items@),
            out@ == bulleted(views, k as int),
        decreases k,
    {
        k -= 1;
        let mut line = "- ".to_owned();
        push_text(&mut line, items[k].as_str());
        push_text(&mut line, "\n");
        push_text(&mut line, out.as_str());
        assert(line@ =~= bulleted(views, k as int));
        out = line;
    }
    out
}

fn numbered_text(items: &Vec<String>) -> (out: String)
    ensures
        out@ == numbered(each_chars(items@), 0),
{
    let ghost views = each_chars(items@);
    let n = items.len();
    let mut out = String::new();
    let mut k: usize = n;
    while k > 0
        invariant
            n == items@.len(),
            k <= n,
            views == each_chars(items@),
            out@ == numbered(views, k as int),
        decreases k,
    {
        k -= 1;
        let mut line = String::new();
        push_decimal(&mut line, k as u64 + 1);
        push_text(&mut line, ". ");
        push_text(&mut line, items[k].as_str());
        push_text(&mut line, "\n");
        push_text(&mut line, out.as_str());
        assert(line@ =~= numbered(views, k as int));
        out = line;
    }
    out
}

fn action_line(item: &ActionItem, markdown: bool) -> (line: String)
    ensures
        line@ == action_lines(action_views(seq![*item]), markdown)[0],
{
    let mut line = String::new();
    if markdown {
        push_text(&mut line, "- [ ] ");
    }
    push_text(&mut line, item.description.as_str());
    match &item.assignee {
        Some(a) => {
            if markdown {
                push_text(&mut line, " (@");
            } else {
                push_text(&mut line, " (Assignee: ");
            }
            push_text(&mut line, a.as_str());
            push_text(&mut line, ")");
        },
        None => {},
    }
    match &item.deadline {
        Some(d) => {
            push_text(&mut line, " [Due: ");
            push_text(&mut line, d.as_str());
            push_text(&mut line, "]");
        },
        None => {},
    }
    proof {
        let a = action_views(seq![*item])[0];
        if markdown {
            assert(line@ =~= action_markdown(a));
        } else {
            assert(line@ =~= action_text(a));
        }
    }
    line
}

fn action_line_texts(items: &Vec<ActionItem>, markdown: bool) -> (lines: Vec<String>)
    ensures
        each_chars(lines@) == action_lines(action_views(items@), markdown),
{
    let mut lines: Vec<String> = Vec::new();
    let mut i: usize = 0;
    while i < items.len()
        invariant
            i <= items.len(),
            lines@.len() == i,
            forall|j: int|
                0 <= j < i ==> (#[trigger] lines@[j])@ == action_lines(action_views(items@), markdown)[j],
        decreases items.len() - i,
    {
        let line = action_line(&items[i], markdown);
        proof {
            assert(action_views(seq![items@[i as int]])[0] == action_views(items@)[i as int]);
        }
        lines.push(line);
        i += 1;
    }
    assert(each_chars(lines@) =~= action_lines(action_views(items@), markdown));
    lines
}

fn lines_text(lines: &Vec<String>) -> (out: String)
    ensures
        out@ == lines_from(each_chars(lines@), 0),
{
    let ghost views = each_chars(lines@);
    let n = lines.len();
    let mut out = String::new();
    let mut k: usize = n;
    while k > 0
        invariant
            n == lines@.len(),
            k <= n,
            views == each_chars(lines@),
            out@ == lines_from(views, k as int),
        decreases k,
    {
        k -= 1;
        let mut line = lines[k].clone();
        push_text(&mut line, "\n");
        push_text(&mut line, out.as_str());
        assert(line@ =~= lines_from(views, k as int));
        out = line;
    }
    out
}

/// The lines from `k` on, each ended by a line feed.
pub open spec fn lines_from(lines: Seq<Seq<char>>, k: int) -> Seq<char>
    decreases lines.len() - k,
{
    if k < 0 || k >= lines.len() {
        Seq::empty()
    } else {
        lines[k] + "\n"@ + lines_from(lines, k + 1)
    }
}

proof fn lemma_action_lines(items: Seq<ActionView>, k: int)
    requires
        0 <= k <= items.len(),
    ensures
        lines_from(action_lines(items, true), k) == actions_markdown_from(items, k),
    decreases items.len() - k,
{
    if k < items.len() {
        lemma_action_lines(items, k + 1);
    }
}

fn push_markdown_section(out: &mut String, heading: &str, body: &str)
    ensures
        final(out)@ == old(out)@ + markdown_section(heading@, body@),
{
    if body.unicode_len() > 0 {
        push_text(out, heading);
        push_text(out, body);
        push_text(out, "\n");
        assert(out@ =~= old(out)@ + markdown_section(heading@, body@));
    } else {
        assert(old(out)@ + Seq::<char>::empty() =~= old(out)@);
    }
}

fn push_repeated(out: &mut String, c: char, n: usize)
    ensures
        final(out)@ == old(out)@ + repeated(c, n as nat),
{
    let mut i: usize = 0;
    assert(old(out)@ + repeated(c, 0) =~= old(out)@);
    while i < n
        invariant
            i <= n,
            out@ == old(out)@ + repeated(c, i as nat),
        decreases n - i,
    {
        out.push(c);
        assert(out@ =~= old(out)@ + repeated(c, (i + 1) as nat));
        i += 1;
    }
}

fn push_text_section(out: &mut String, heading: &str, body: &str)
    ensures
        final(out)@ == old(out)@ + text_section(heading@, body@),
{
    if body.unicode_len() > 0 {
        push_text(out, heading);
        push_repeated(out, '-', 30);
        push_text(out, "\n");
        push_text(out, body);
        push_text(out, "\n");
        assert(out@ =~= old(out)@ + text_section(heading@, body@));
    } else {
        assert(old(out)@ + Seq::<char>::empty() =~= old(out)@);
    }
}

/// A summary in Markdown.
pub fn export_summary_to_markdown(summary: &MeetingSummary) -> (out: String)
    ensures
        out@ == summary_markdown(summary_view(*summary)),
{
    let ghost s = summary_view(*summary);
    let mut out = "# Meeting Summary\n\n".to_owned();
    push_text(&mut out, "**Duration:** ");
    push_decimal(&mut out, summary.duration_minutes as u64);
    push_text(&mut out, " minutes\n\n");
    push_text(&mut out, "## Executive Summary\n\n");
    push_text(&mut out, summary.executive_summary.as_str());
    push_text(&mut out, "\n\n");
    let decisions = bulleted_text(&summary.decisions);
    push_markdown_section(&mut out, "## Key Decisions\n\n", decisions.as_str());
    let lines = action_line_texts(&summary.action_items, true);
    let actions = lines_text(&lines);
    proof {
        lemma_action_lines(s.action_items, 0);
    }
    push_markdown_section(&mut out, "## Action Items\n\n", actions.as_str());
    let topics = bulleted_text(&summary.topics);
    push_markdown_section(&mut out, "## Topics Discussed\n\n", topics.as_str());
    let follow_ups = bulleted_text(&summary.follow_ups);
    push_markdown_section(&mut out, "## Follow-up Questions\n\n", follow_ups.as_str());
    out
}

/// A summary in plain text.
pub fn export_summary_to_text(summary: &MeetingSummary) -> (out: String)
    ensures
        out@ == summary_text(summary_view(*summary)),
{
    let mut out = "MEETING SUMMARY\n".to_owned();
    push_repeated(&mut out, '=', 50);
    push_text(&mut out, "\n");
    push_text(&mut out, "Duration: ");
    push_decimal(&mut out, summary.duration_minutes as u64);
    push_text(&mut out, " minutes\n\n");
    push_text(&mut out, "EXECUTIVE SUMMARY\n");
    push_repeated(&mut out, '-', 30);
    push_text(&mut out, "\n");
    push_text(&mut out, summary.executive_summary.as_str());
    push_text(&mut out, "\n\n");
    let decisions = numbered_text(&summary.decisions);
    push_text_section(&mut out, "KEY DECISIONS\n", decisions.as_str());
    let lines = action_line_texts(&summary.action_items, false);
    let actions = numbered_text(&lines);
    push_text_section(&mut out, "ACTION ITEMS\n", actions.as_str());
    let topics = numbered_text(&summary.topics);
    push_text_section(&mut out, "TOPICS DISCUSSED\n", topics.as_str());
    let follow_ups = numbered_text(&summary.follow_ups);
    push_text_section(&mut out, "FOLLOW-UP QUESTIONS\n", follow_ups.as_str());
    out
}

/// The transcriptions of the insights from `k` on, with an empty line between each
/// two.
pub open spec fn transcript_from(insights: Seq<InsightView>, k: int) -> Seq<char>
    decreases insights.len() - k,
{
    if k < 0 || k >= insights.len() {
        Seq::empty()
    } else if k + 1 == insights.len() {
        insights[k].transcription
    } else {
        insights[k].transcription + "\n\n"@ + transcript_from(insights, k + 1)
    }
}

/// Everything that was said in a session: the transcriptions of its insights, with an
/// empty line between each two.
pub fn full_transcript(insights: &Vec<SessionInsight>) -> (out: String)
    ensures
        out@ == transcript_from(insight_views(insights@), 0),
{
    let ghost views = insight_views(insights@);
    let n = insights.len();
    let mut out = String::new();
    let mut k: usize = n;
    while k > 0
        invariant
            n == insights@.len(),
            k <= n,
            views == insight_views(insights@),
            out@ == transcript_from(views, k as int),
        decreases k,
    {
        k -= 1;
        let mut part = insights[k].transcription.clone();
        if k + 1 < n {
            push_text(&mut part, "\n\n");
            push_text(&mut part, out.as_str());
        }
        assert(part@ =~= transcript_from(views, k as int));
        out = part;
    }
    out
}

/// How long a session lasted, in whole minutes: from its start to its end, or to `now`
/// while it runs. A session that would have ended before it began lasted no time, and
/// the count stops at the largest number.
pub open spec fn duration_minutes_of(started_at: i64, ended_at: Option<i64>, now: i64) -> u32 {
    let end = match ended_at {
        Some(e) => e,
        None => now,
    };
    if end <= started_at {
        0u32
    } else if (end - started_at) / 60000 > u32::MAX {
        u32::MAX
    } else {
        ((end - started_at) / 60000) as u32
    }
}

/// How long a session lasted, in whole minutes.
pub fn session_duration_minutes(started_at: i64, ended_at: Option<i64>, now: i64) -> (m: u32)
    ensures
        m == duration_minutes_of(started_at, ended_at, now),
{
    let end = match ended_at {
        Some(e) => e,
        None => now,
    };
    if end <= started_at {
        return 0;
    }
    let span: i128 = (end as i128) - (started_at as i128);
    let minutes = span / 60000;
    if minutes > u32::MAX as i128 {
        u32::MAX
    } else {
        minutes as u32
    }
}

/// The first position of `c` in `text` at or after `i`, or -1.
pub open spec fn first_index_of(text: Seq<char>, c: char, i: int) -> int
    decreases text.len() - i,
{
    if i < 0 || i >= text.len() {
        -1
    } else if text[i] == c {
        i
    } else {
        first_index_of(text, c, i + 1)
    }
}

/// The last position of `c` in the first `n` characters of `text`, or -1.
pub open spec fn last_index_of(text: Seq<char>, c: char, n: int) -> int
    decreases n,
{
    if n <= 0 || n > text.len() {
        -1
    } else if text[n - 1] == c {
        n - 1
    } else {
        last_index_of(text, c, n - 1)
    }
}

/// The part of a model's answer that holds the JSON object: from the first opening
/// brace to the last closing brace. An answer without an opening or without a closing
/// brace, or with the last closing brace before the first opening one, is taken whole.
pub open spec fn json_object_part(response: Seq<char>) -> Seq<char> {
    let start = first_index_of(response, '{', 0);
    let end = last_index_of(response, '}', response.len() as int);
    if start >= 0 && end >= start {
        response.subrange(start, end + 1)
    } else {
        response
    }
}

/// The position of the closing bracket that matches the opening bracket before `i`,
/// `depth` brackets being open at `i`; -1 where the brackets are never closed.
pub open spec fn matching_bracket(text: Seq<char>, i: int, depth: nat) -> int
    decreases text.len() - i,
{
    if i < 0 || i >= text.len() {
        -1
    } else if text[i] == '[' {
        matching_bracket(text, i + 1, depth + 1)
    } else if text[i] == ']' {
        if depth <= 1 {
            i
        } else {
            matching_bracket(text, i + 1, (depth - 1) as nat)
        }
    } else {
        matching_bracket(text, i + 1, depth)
    }
}

/// The part of a model's answer that holds the JSON array: from the first opening
/// bracket to the bracket that closes it. `None` where there is no opening bracket or
/// it is never closed.
pub open spec fn json_array_part(text: Seq<char>) -> Option<Seq<char>> {
    let start = first_index_of(text, '[', 0);
    if start < 0 {
        None
    } else {
        let end = matching_bracket(text, start + 1, 1);
        if end < 0 {
            None
        } else {
            Some(text.subrange(start, end + 1))
        }
    }
}

fn find_first(t: &[char], c: char) -> (r: Option<usize>)
    ensures
        match r {
            Some(i) => i == first_index_of(t@, c, 0) && i < t@.len(),
            None => first_index_of(t@, c, 0) == -1,
        },
{
    let mut i: usize = 0;
    while i < t.len()
        invariant
            i <= t.len(),
            first_index_of(t@, c, 0) == first_index_of(t@, c, i as int),
        decreases t.len() - i,
    {
        if t[i] == c {
            return Some(i);
        }
        i += 1;
    }
    None
}

/// The part of a model's answer that holds the JSON object.
pub fn extract_json_object(response: &str) -> (out: String)
    ensures
        out@ == json_object_part(response@),
{
    let t = chars_of(response);
    let start = match find_first(t.as_slice(), '{') {
        Some(s) => s,
        None => {
            return response.to_owned();
        },
    };
    let mut n: usize = t.len();
    while n > 0 && t[n - 1] != '}'
        invariant
            n <= t.len(),
            last_index_of(t@, '}', t.len() as int) == last_index_of(t@, '}', n as int),
        decreases n,
    {
        n -= 1;
    }
    if n > 0 && n - 1 >= start {
        string_between(t.as_slice(), start, n)
    } else {
        response.to_owned()
    }
}

/// The part of a model's answer that holds the JSON array.
pub fn extract_json_array(text: &str) -> (out: Option<String>)
    ensures
        opt_chars(out) == json_array_part(text@),
{
    let t = chars_of(text);
    let start = match find_first(t.as_slice(), '[') {
        Some(s) => s,
        None => {
            return None;
        },
    };
    let mut depth: usize = 1;
    let mut i: usize = start + 1;
    while i < t.len()
        invariant
            start < i <= t.len(),
            t@ == text@,
            start == first_index_of(t@, '[', 0),
            1 <= depth <= i - start,
            matching_bracket(t@, start + 1, 1) == matching_bracket(t@, i as int, depth as nat),
        decreases t.len() - i,
    {
        if t[i] == '[' {
            depth += 1;
        } else if t[i] == ']' {
            if depth <= 1 {
                return Some(string_between(t.as_slice(), start, i + 1));
            }
            depth -= 1;
        }
        i += 1;
    }
    None
}

/// An action item as the model reports it: every part may be missing or may be
/// something other than text.
#[derive(Debug, Clone)]
pub struct RawAction {
    pub description: Option<String>,
    pub assignee: Option<String>,
    pub deadline: Option<String>,
}

/// A summary as the model reports it. A part that is missing, or is not of the kind
/// expected, is `None`; so is an item of a list that is not text.
#[derive(Debug, Clone)]
pub struct RawSummary {
    pub executive_summary: Option<String>,
    pub decisions: Option<Vec<Option<String>>>,
    pub action_items: Option<Vec<RawAction>>,
    pub topics: Option<Vec<Option<String>>>,
    pub follow_ups: Option<Vec<Option<String>>>,
}

/// A reported action item as plain values.
pub struct RawActionView {
    pub description: Option<Seq<char>>,
    pub assignee: Option<Seq<char>>,
    pub deadline: Option<Seq<char>>,
}

/// A reported summary as plain values.
pub struct RawSummaryView {
    pub executive_summary: Option<Seq<char>>,
    pub decisions: Option<Seq<Option<Seq<char>>>>,
    pub action_items: Option<Seq<RawActionView>>,
    pub topics: Option<Seq<Option<Seq<char>>>>,
    pub follow_ups: Option<Seq<Option<Seq<char>>>>,
}

/// The items of a reported list as plain values.
pub open spec fn opt_texts(items: Option<Vec<Option<String>>>) -> Option<Seq<Option<Seq<char>>>> {
    match items {
        Some(v) => Some(v@.map_values(|t: Option<String>| opt_chars(t))),
        None => None,
    }
}

impl View for RawAction {
    type V = RawActionView;

    open spec fn view(&self) -> RawActionView {
        RawActionView {
            description: opt_chars(self.description),
            assignee: opt_chars(self.assignee),
            deadline: opt_chars(self.deadline),
        }
    }
}

impl View for RawSummary {
    type V = RawSummaryView;

    open spec fn view(&self) -> RawSummaryView {
        RawSummaryView {
            executive_summary: opt_chars(self.executive_summary),
            decisions: opt_texts(self.decisions),
            action_items: match self.action_items {
                Some(v) => Some(v@.map_values(|a: RawAction| a@)),
                None => None,
            },
            topics: opt_texts(self.topics),
            follow_ups: opt_texts(self.follow_ups),
        }
    }
}

/// The items from `k` on that are text.
pub open spec fn texts_from(items: Seq<Option<Seq<char>>>, k: int) -> Seq<Seq<char>>
    decreases items.len() - k,
{
    if k < 0 || k >= items.len() {
        Seq::empty()
    } else {
        match items[k] {
            Some(t) => seq![t] + texts_from(items, k + 1),
            None => texts_from(items, k + 1),
        }
    }
}

/// The texts of a list that may be missing.
pub open spec fn texts_of(items: Option<Seq<Option<Seq<char>>>>) -> Seq<Seq<char>> {
    match items {
        Some(v) => texts_from(v, 0),
        None => Seq::empty(),
    }
}

/// The action items from `k` on that have a description.
pub open spec fn actions_from(items: Seq<RawActionView>, k: int) -> Seq<ActionView>
    decreases items.len() - k,
{
    if k < 0 || k >= items.len() {
        Seq::empty()
    } else {
        match items[k].description {
            Some(d) => seq![
                ActionView { description: d, assignee: items[k].assignee, deadline: items[k].deadline },
            ] + actions_from(items, k + 1),
            None => actions_from(items, k + 1),
        }
    }
}

/// The summary made of the model's report: without an executive summary it reads
/// "Summary not available"; a missing list is empty; items that are not text, and
/// action items without a description, are left out.
pub open spec fn summary_of(raw: RawSummaryView, duration_minutes: u32) -> SummaryView {
    SummaryView {
        executive_summary: match raw.executive_summary {
            Some(t) => t,
            None => "Summary not available"@,
        },
        decisions: texts_of(raw.decisions),
        action_items: match raw.action_items {
            Some(v) => actions_from(v, 0),
            None => Seq::empty(),
        },
        topics: texts_of(raw.topics),
        follow_ups: texts_of(raw.follow_ups),
        duration_minutes,
    }
}

fn texts(items: &Option<Vec<Option<String>>>) -> (out: Vec<String>)
    ensures
        each_chars(out@) == texts_of(opt_texts(*items)),
{
    let mut out: Vec<String> = Vec::new();
    assert(each_chars(out@) =~= Seq::<Seq<char>>::empty());
    match items {
        None => out,
        Some(v) => {
            let ghost all = v@.map_values(|t: Option<String>| opt_chars(t));
            let mut k: usize = 0;
            assert(Seq::<Seq<char>>::empty() + texts_from(all, 0) =~= texts_from(all, 0));
            while k < v.len()
                invariant
                    k <= v.len(),
                    all == v@.map_values(|t: Option<String>| opt_chars(t)),
                    each_chars(out@) + texts_from(all, k as int) == texts_from(all, 0),
                decreases v.len() - k,
            {
                let ghost before = each_chars(out@);
                assert(all[k as int] == opt_chars(v@[k as int]));
                match &v[k] {
                    Some(t) => {
                        out.push(t.clone());
                        proof {
                            let rest = texts_from(all, k + 1);
                            assert(each_chars(out@) =~= before.push(t@));
                            assert(before.push(t@) + rest =~= before + (seq![t@] + rest));
                        }
                    },
                    None => {},
                }
                k += 1;
            }
            assert(each_chars(out@) + Seq::<Seq<char>>::empty() =~= each_chars(out@));
            out
        },
    }
}

/// Makes the summary of a session from the model's report.
pub fn summary_from_parts(raw: &RawSummary, session_id: &str, duration_minutes: u32, generated_at: i64) -> (out:
    MeetingSummary)
    ensures
        summary_view(out) == summary_of(raw@, duration_minutes),
        out.session_id@ == session_id@,
        out.generated_at == generated_at,
{
    let executive_summary = match &raw.executive_summary {
        Some(t) => t.clone(),
        None => "Summary not available".to_owned(),
    };
    let mut action_items: Vec<ActionItem> = Vec::new();
    assert(action_views(action_items@) =~= Seq::<ActionView>::empty());
    match &raw.action_items {
        None => {},
        Some(v) => {
            let ghost all = v@.map_values(|a: RawAction| a@);
            let mut k: usize = 0;
            assert(Seq::<ActionView>::empty() + actions_from(all, 0) =~= actions_from(all, 0));
            while k < v.len()
                invariant
                    k <= v.len(),
                    all == v@.map_values(|a: RawAction| a@),
                    action_views(action_items@) + actions_from(all, k as int) == actions_from(all, 0),
                decreases v.len() - k,
            {
                let ghost before = action_views(action_items@);
                assert(all[k as int] == v@[k as int]@);
                match &v[k].description {
                    Some(d) => {
                        let item = ActionItem {
                            description: d.clone(),
                            assignee: crate::text::copy_opt_string(&v[k].assignee),
                            deadline: crate::text::copy_opt_string(&v[k].deadline),
                        };
                        action_items.push(item);
                        proof {
                            let rest = actions_from(all, k + 1);
                            let a = ActionView {
                                description: d@,
                                assignee: opt_chars(v@[k as int].assignee),
                                deadline: opt_chars(v@[k as int].deadline),
                            };
                            assert(action_views(action_items@) =~= before.push(a));
                            assert(before.push(a) + rest =~= before + (seq![a] + rest));
                        }
                    },
                    None => {},
                }
                k += 1;
            }
            assert(action_views(action_items@) + Seq::<ActionView>::empty() =~= action_views(
                action_items@,
            ));
        },
    }
    MeetingSummary {
        session_id: session_id.to_owned(),
        executive_summary,
        decisions: texts(&raw.decisions),
        action_items,
        topics: texts(&raw.topics),
        follow_ups: texts(&raw.follow_ups),
        duration_minutes,
        generated_at,
    }
}

/// The items of the list `key` of the object `json`, each as the text it is, if it is
/// one; `None` where there is no such list.
pub open spec fn reported_texts(json: Seq<char>, key: Seq<char>) -> Option<Seq<Option<Seq<char>>>> {
    match elements_member_of(json, key) {
        Some(items) => Some(items.map_values(|item: Seq<char>| json_string_of(item))),
        None => None,
    }
}

/// The action item that the object `item` reports.
pub open spec fn reported_action(item: Seq<char>) -> RawActionView {
    RawActionView {
        description: text_member_of(item, "description"@),
        assignee: text_member_of(item, "assignee"@),
        deadline: text_member_of(item, "deadline"@),
    }
}

/// The summary that the object `json` reports.
pub open spec fn reported_summary(json: Seq<char>) -> RawSummaryView {
    RawSummaryView {
        executive_summary: text_member_of(json, "executive_summary"@),
        decisions: reported_texts(json, "decisions"@),
        action_items: match elements_member_of(json, "action_items"@) {
            Some(items) => Some(items.map_values(|item: Seq<char>| reported_action(item))),
            None => None,
        },
        topics: reported_texts(json, "topics"@),
        follow_ups: reported_texts(json, "follow_ups"@),
    }
}

fn read_texts(json: &str, key: &str) -> (out: Option<Vec<Option<String>>>)
    ensures
        opt_texts(out) == reported_texts(json@, key@),
{
    match elements_member(json, key) {
        None => None,
        Some(items) => {
            let mut out: Vec<Option<String>> = Vec::new();
            let mut k: usize = 0;
            while k < items.len()
                invariant
                    k <= items.len(),
                    out@.len() == k,
                    forall|j: int| 0 <= j < k ==> opt_chars(#[trigger] out@[j]) == json_string_of(items@[j]@),
                decreases items.len() - k,
            {
                out.push(json_string(items[k].as_str()));
                k += 1;
            }
            assert(out@.map_values(|t: Option<String>| opt_chars(t)) =~= each_chars(items@).map_values(
                |item: Seq<char>| json_string_of(item),
            ));
            Some(out)
        },
    }
}

fn read_actions(json: &str) -> (out: Option<Vec<RawAction>>)
    ensures
        match out {
            Some(v) => Some(v@.map_values(|a: RawAction| a@)) == reported_summary(json@).action_items,
            None => reported_summary(json@).action_items is None,
        },
{
    match elements_member(json, "action_items") {
        None => None,
        Some(items) => {
            let mut out: Vec<RawAction> = Vec::new();
            let mut k: usize = 0;
            while k < items.len()
                invariant
                    k <= items.len(),
                    out@.len() == k,
                    forall|j: int| 0 <= j < k ==> (#[trigger] out@[j])@ == reported_action(items@[j]@),
                decreases items.len() - k,
            {
                let item = items[k].as_str();
                out.push(
                    RawAction {
                        description: text_member(item, "description"),
                        assignee: text_member(item, "assignee"),
                        deadline: text_member(item, "deadline"),
                    },
                );
                k += 1;
            }
            assert(out@.map_values(|a: RawAction| a@) =~= each_chars(items@).map_values(
                |item: Seq<char>| reported_action(item),
            ));
            Some(out)
        },
    }
}

/// Reads what the object `json` reports of a summary.
pub fn read_raw_summary(json: &str) -> (raw: RawSummary)
    ensures
        raw@ == reported_summary(json@),
{
    RawSummary {
        executive_summary: text_member(json, "executive_summary"),
        decisions: read_texts(json, "decisions"),
        action_items: read_actions(json),
        topics: read_texts(json, "topics"),
        follow_ups: read_texts(json, "follow_ups"),
    }
}

/// What is reported where the model's answer holds no JSON.
pub open spec fn summary_failure(why: Seq<char>, response: Seq<char>) -> Seq<char> {
    "Failed to parse summary JSON: "@ + why + ". Response: "@ + response
}

/// Reads the model's answer into the summary of the session `session_id`: the JSON
/// object in the answer is read, and the summary made of what it reports. Fails where
/// that part of the answer is not JSON, with the reason and the whole answer.
pub fn parse_summary_response(response: &str, session_id: &str, duration_minutes: u32, generated_at: i64) -> (r:
    Result<MeetingSummary, String>)
    ensures
        match r {
            Ok(s) => json_failure_of(json_object_part(response@)) is None && summary_view(s) == summary_of(
                reported_summary(json_object_part(response@)),
                duration_minutes,
            ) && s.session_id@ == session_id@ && s.generated_at == generated_at,
            Err(e) => json_failure_of(json_object_part(response@)) is Some && e@ == summary_failure(
                json_failure_of(json_object_part(response@))->0,
                response@,
            ),
        },
{
    let json = extract_json_object(response);
    match json_failure(json.as_str()) {
        Some(why) => {
            let mut e = "Failed to parse summary JSON: ".to_owned();
            push_text(&mut e, why.as_str());
            push_text(&mut e, ". Response: ");
            push_text(&mut e, response);
            Err(e)
        },
        None => {
            let raw = read_raw_summary(json.as_str());
            Ok(summary_from_parts(&raw, session_id, duration_minutes, generated_at))
        },
    }
}

/// What the model is told before the transcript of a meeting.
pub open spec fn summary_request_head(topic: Seq<char>, duration_minutes: u32) -> Seq<char> {
    "Analyze this meeting transcript and provide a structured summary.\n\nMeeting Topic: "@ + topic
        + "\nDuration: "@ + digits_of(duration_minutes as nat) + " minutes\nTranscript:\n"@
}

/// What the model is told after the transcript of a meeting: the form of the answer.
pub const SUMMARY_REQUEST_TAIL: &'static str =
    "\n\nProvide a comprehensive summary in the following JSON format:\n{\n  \"executive_summary\": \"2-3 sentence overview of the meeting\",\n  \"decisions\": [\"decision 1\", \"decision 2\"],\n  \"action_items\": [\n    {\"description\": \"task description\", \"assignee\": \"person name or null\", \"deadline\": \"deadline or null\"}\n  ],\n  \"topics\": [\"topic 1\", \"topic 2\"],\n  \"follow_ups\": [\"suggested follow-up question 1\", \"question 2\"]\n}\n\nImportant:\n- Be concise and factual\n- Only include items that were actually discussed\n- Use null for unknown assignees/deadlines\n- Return valid JSON only";

/// The prompt that asks for the summary of a meeting. A meeting without a topic is
/// called "Meeting".
pub fn summary_prompt(topic: Option<&str>, duration_minutes: u32, full_transcript: &str) -> (prompt: String)
    ensures
        prompt@ == summary_request_head(
            match topic {
                Some(t) => t@,
                None => "Meeting"@,
            },
            duration_minutes,
        ) + full_transcript@ + SUMMARY_REQUEST_TAIL@,
{
    let mut prompt =
        "Analyze this meeting transcript and provide a structured summary.\n\nMeeting Topic: ".to_owned();
    match topic {
        Some(t) => push_text(&mut prompt, t),
        None => push_text(&mut prompt, "Meeting"),
    }
    push_text(&mut prompt, "\nDuration: ");
    push_decimal(&mut prompt, duration_minutes as u64);
    push_text(&mut prompt, " minutes\nTranscript:\n");
    push_text(&mut prompt, full_transcript);
    push_text(&mut prompt, SUMMARY_REQUEST_TAIL);
    prompt
}

} // verus!
