//! Action items drawn from a transcript.

use vstd::prelude::*;
use crate::text::{
    blank_between, chars_of, copy_string, is_blank, lowercase_of, opt_chars, push_text, to_lowercase,
};

verus! {

/// A task that a transcript mentions.
#[derive(Debug, Clone)]
pub struct ActionItem {
    pub id: i64,
    /// The history entry that the task was found in.
    pub entry_id: i64,
    pub task: String,
    pub assignee: Option<String>,
    pub deadline: Option<String>,
    /// "high", "medium" or "low".
    pub priority: String,
    pub completed: bool,
    pub created_at: String,
}

/// A task as the model reports it: every part may be missing.
#[derive(Debug, Clone)]
pub struct RawActionItem {
    pub task: Option<String>,
    pub assignee: Option<String>,
    pub deadline: Option<String>,
    pub priority: Option<String>,
}

/// A task as plain values.
pub struct TaskView {
    pub id: i64,
    pub entry_id: i64,
    pub task: Seq<char>,
    pub assignee: Option<Seq<char>>,
    pub deadline: Option<Seq<char>>,
    pub priority: Seq<char>,
    pub completed: bool,
    pub created_at: Seq<char>,
}

impl View for ActionItem {
    type V = TaskView;

    open spec fn view(&self) -> TaskView {
        TaskView {
            id: self.id,
            entry_id: self.entry_id,
            task: self.task@,
            assignee: opt_chars(self.assignee),
            deadline: opt_chars(self.deadline),
            priority: self.priority@,
            completed: self.completed,
            created_at: self.created_at@,
        }
    }
}

/// `text` unless it is missing or white space alone.
pub open spec fn present(text: Option<Seq<char>>) -> Option<Seq<char>> {
    match text {
        Some(t) => if is_blank(t) {
            None
        } else {
            Some(t)
        },
        None => None,
    }
}

/// The task made of what the model reported: none without a task text; an assignee or
/// deadline of white space alone counts as missing; the priority is written in lower
/// case and is "medium" where the model named none.
pub open spec fn task_of(raw: RawActionItem, entry_id: i64, created_at: Seq<char>) -> Option<TaskView> {
    match present(opt_chars(raw.task)) {
        None => None,
        Some(task) => Some(
            TaskView {
                id: 0,
                entry_id,
                task,
                assignee: present(opt_chars(raw.assignee)),
                deadline: present(opt_chars(raw.deadline)),
                priority: lowercase_of(
                    match raw.priority {
                        Some(p) => p@,
                        None => "medium"@,
                    },
                ),
                completed: false,
                created_at,
            },
        ),
    }
}

fn present_text(text: &Option<String>) -> (r: Option<String>)
    ensures
        opt_chars(r) == present(opt_chars(*text)),
{
    match text {
        Some(t) => {
            let c = chars_of(t.as_str());
            let blank = blank_between(c.as_slice(), 0, c.len());
            assert(c@.subrange(0, c.len() as int) =~= c@);
            if blank {
                None
            } else {
                Some(copy_string(t))
            }
        },
        None => None,
    }
}

/// Makes a task of what the model reported.
pub fn normalize_action_item(raw: &RawActionItem, entry_id: i64, created_at: &str) -> (item: Option<
    ActionItem,
>)
    ensures
        match item {
            Some(i) => task_of(*raw, entry_id, created_at@) == Some(i@),
            None => task_of(*raw, entry_id, created_at@) is None,
        },
{
    let task = match present_text(&raw.task) {
        Some(t) => t,
        None => {
            return None;
        },
    };
    let priority = match &raw.priority {
        Some(p) => to_lowercase(p.as_str()),
        None => to_lowercase("medium"),
    };
    Some(
        ActionItem {
            id: 0,
            entry_id,
            task,
            assignee: present_text(&raw.assignee),
            deadline: present_text(&raw.deadline),
            priority,
            completed: false,
            created_at: created_at.to_owned(),
        },
    )
}

/// The tasks made of the reports from `k` on.
pub open spec fn tasks_from(raws: Seq<RawActionItem>, entry_id: i64, created_at: Seq<char>, k: int) -> Seq<
    TaskView,
>
    decreases raws.len() - k,
{
    if k < 0 || k >= raws.len() {
        Seq::empty()
    } else {
        match task_of(raws[k], entry_id, created_at) {
            Some(t) => seq![t] + tasks_from(raws, entry_id, created_at, k + 1),
            None => tasks_from(raws, entry_id, created_at, k + 1),
        }
    }
}

/// The tasks of `v` as plain values.
pub open spec fn task_views(v: Seq<ActionItem>) -> Seq<TaskView> {
    v.map_values(|i: ActionItem| i@)
}

/// Makes the tasks of what the model reported, leaving out the reports without a task
/// text.
pub fn normalize_action_items(raws: &Vec<RawActionItem>, entry_id: i64, created_at: &str) -> (items: Vec<
    ActionItem,
>)
    ensures
        task_views(items@) == tasks_from(raws@, entry_id, created_at@, 0),
{
    let mut items: Vec<ActionItem> = Vec::new();
    let mut k: usize = 0;
    assert(task_views(items@) =~= Seq::<TaskView>::empty());
    assert(Seq::<TaskView>::empty() + tasks_from(raws@, entry_id, created_at@, 0) =~= tasks_from(
        raws@,
        entry_id,
        created_at@,
        0,
    ));
    while k < raws.len()
        invariant
            k <= raws.len(),
            task_views(items@) + tasks_from(raws@, entry_id, created_at@, k as int) == tasks_from(
                raws@,
                entry_id,
                created_at@,
                0,
            ),
        decreases raws.len() - k,
    {
        let ghost before = task_views(items@);
        match normalize_action_item(&raws[k], entry_id, created_at) {
            Some(item) => {
                items.push(item);
                proof {
                    let rest = tasks_from(raws@, entry_id, created_at@, k + 1);
                    assert(task_views(items@) =~= before.push(item@));
                    assert(before.push(item@) + rest =~= before + (seq![item@] + rest));
                }
            },
            None => {},
        }
        k += 1;
    }
    assert(task_views(items@) + Seq::<TaskView>::empty() =~= task_views(items@));
    items
}

/// What the model is asked to find the tasks in a transcript.
pub const ACTION_ITEMS_REQUEST: &'static str =
    "Analyze this transcript and extract action items. For each action item, identify:\n- task: The specific action to be taken\n- assignee: Who should do it (if mentioned, otherwise null)\n- deadline: When it should be done (if mentioned, otherwise null)\n- priority: \"high\", \"medium\", or \"low\" based on urgency\n\nReturn ONLY a JSON array. Example:\n[{\"task\": \"Send the report\", \"assignee\": \"John\", \"deadline\": \"Friday\", \"priority\": \"high\"}]\n\nIf no action items found, return: []\n\nTranscript:\n";

/// The prompt that asks for the tasks in `transcript`: the request followed by the
/// transcript.
pub fn action_items_prompt(transcript: &str) -> (prompt: String)
    ensures
        prompt@ == ACTION_ITEMS_REQUEST@ + transcript@,
{
    let mut prompt = ACTION_ITEMS_REQUEST.to_owned();
    push_text(&mut prompt, transcript);
    prompt
}

} // verus!
