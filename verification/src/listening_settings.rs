//! The settings of active listening and the care of its prompts.

use vstd::prelude::*;
use crate::settings::{
    default_prompt_ids, default_prompts, prompt_ids, ActiveListeningPrompt, AudioSourceType, PromptCategory,
};
use crate::text::{copy_string, opt_chars, push_signed_decimal, push_text, same_text, signed_digits_of};

verus! {

/// The settings of active listening.
pub struct ActiveListeningSettings {
    pub enabled: bool,
    /// How long a segment is gathered before it is transcribed.
    pub segment_duration_seconds: u32,
    pub ollama_base_url: String,
    pub ollama_model: String,
    pub prompts: Vec<ActiveListeningPrompt>,
    pub selected_prompt_id: Option<String>,
    /// How many earlier insights go into a prompt.
    pub context_window_size: usize,
    pub audio_source_type: AudioSourceType,
}

/// The position of the first prompt at or after `k` with the id `id`, or -1.
pub open spec fn prompt_position(prompts: Seq<ActiveListeningPrompt>, id: Seq<char>, k: int) -> int
    decreases prompts.len() - k,
{
    if k < 0 || k >= prompts.len() {
        -1
    } else if prompts[k].id@ == id {
        k
    } else {
        prompt_position(prompts, id, k + 1)
    }
}

/// The prompts from `k` on without those with the id `id`.
pub open spec fn without_id(prompts: Seq<ActiveListeningPrompt>, id: Seq<char>, k: int) -> Seq<
    ActiveListeningPrompt,
>
    decreases prompts.len() - k,
{
    if k < 0 || k >= prompts.len() {
        Seq::empty()
    } else if prompts[k].id@ == id {
        without_id(prompts, id, k + 1)
    } else {
        seq![prompts[k]] + without_id(prompts, id, k + 1)
    }
}

/// The ids after the defaults from `k` on that are missing were added.
pub open spec fn merged_prompt_ids(existing: Seq<Seq<char>>, defaults: Seq<Seq<char>>, k: int) -> Seq<
    Seq<char>,
>
    decreases defaults.len() - k,
{
    if k < 0 || k >= defaults.len() {
        existing
    } else if existing.contains(defaults[k]) {
        merged_prompt_ids(existing, defaults, k + 1)
    } else {
        merged_prompt_ids(existing.push(defaults[k]), defaults, k + 1)
    }
}

/// The id of a prompt created at `now`.
pub open spec fn prompt_id_of(now: i64) -> Seq<char> {
    "al_prompt_"@ + signed_digits_of(now as int)
}

/// Why a prompt cannot be deleted or selected.
#[derive(Debug, PartialEq, Eq)]
pub enum PromptError {
    /// The last prompt cannot be deleted.
    LastPrompt,
    /// A built-in prompt cannot be deleted.
    DefaultPrompt,
    /// There is no prompt with this id.
    NotFound(String),
}

/// Whether `r` is the failure that reports that no prompt has the id `id`.
pub open spec fn is_not_found(r: Result<(), PromptError>, id: Seq<char>) -> bool {
    match r {
        Err(PromptError::NotFound(x)) => x@ == id,
        _ => false,
    }
}

/// The words in which an error is reported.
pub open spec fn prompt_error_text(e: PromptError) -> Seq<char> {
    match e {
        PromptError::LastPrompt => "Cannot delete the last prompt"@,
        PromptError::DefaultPrompt => "Cannot delete default prompts"@,
        PromptError::NotFound(id) => "Prompt not found: "@ + id@,
    }
}

impl PromptError {
    /// The words in which the error is reported.
    pub fn to_string(&self) -> (s: String)
        ensures
            s@ == prompt_error_text(*self),
    {
        match self {
            PromptError::LastPrompt => "Cannot delete the last prompt".to_owned(),
            PromptError::DefaultPrompt => "Cannot delete default prompts".to_owned(),
            PromptError::NotFound(id) => {
                let mut s = "Prompt not found: ".to_owned();
                push_text(&mut s, id.as_str());
                s
            },
        }
    }
}

fn position_of(prompts: &Vec<ActiveListeningPrompt>, id: &str) -> (r: Option<usize>)
    ensures
        match r {
            Some(k) => k == prompt_position(prompts@, id@, 0) && k < prompts@.len() && prompts@[k as int].id@
                == id@,
            None => prompt_position(prompts@, id@, 0) == -1 && !prompt_ids(prompts@).contains(id@),
        },
{
    let mut k: usize = 0;
    while k < prompts.len()
        invariant
            k <= prompts.len(),
            prompt_position(prompts@, id@, 0) == prompt_position(prompts@, id@, k as int),
            forall|j: int| 0 <= j < k ==> prompts@[j].id@ != id@,
        decreases prompts.len() - k,
    {
        if same_text(prompts[k].id.as_str(), id) {
            return Some(k);
        }
        k += 1;
    }
    None
}

impl ActiveListeningSettings {
    /// The defaults: off, segments of fifteen seconds, the local server, no model, the
    /// built-in prompts with the first selected, three insights of context, the
    /// microphone.
    pub fn default() -> (s: ActiveListeningSettings)
        ensures
            !s.enabled,
            s.segment_duration_seconds == 15,
            s.ollama_base_url@ == "http://localhost:11434"@,
            s.ollama_model@ == Seq::<char>::empty(),
            prompt_ids(s.prompts@) == default_prompt_ids(),
            opt_chars(s.selected_prompt_id) == Some("default_meeting_notes"@),
            s.context_window_size == 3,
            s.audio_source_type == AudioSourceType::Microphone,
    {
        ActiveListeningSettings {
            enabled: false,
            segment_duration_seconds: 15,
            ollama_base_url: "http://localhost:11434".to_owned(),
            ollama_model: String::new(),
            prompts: default_prompts(),
            selected_prompt_id: Some("default_meeting_notes".to_owned()),
            context_window_size: 3,
            audio_source_type: AudioSourceType::Microphone,
        }
    }

    /// The first prompt with the id `id`.
    pub fn get_prompt(&self, id: &str) -> (r: Option<&ActiveListeningPrompt>)
        ensures
            match r {
                Some(p) => prompt_position(self.prompts@, id@, 0) >= 0 && *p
                    == self.prompts@[prompt_position(self.prompts@, id@, 0)],
                None => prompt_position(self.prompts@, id@, 0) == -1,
            },
    {
        match position_of(&self.prompts, id) {
            Some(k) => Some(&self.prompts[k]),
            None => None,
        }
    }

    /// The selected prompt: the first prompt with the selected id, if an id is
    /// selected and there is such a prompt.
    pub fn get_selected_prompt(&self) -> (r: Option<&ActiveListeningPrompt>)
        ensures
            match r {
                Some(p) => self.selected_prompt_id is Some && prompt_position(
                    self.prompts@,
                    self.selected_prompt_id->0@,
                    0,
                ) >= 0 && *p == self.prompts@[prompt_position(
                    self.prompts@,
                    self.selected_prompt_id->0@,
                    0,
                )],
                None => self.selected_prompt_id is None || prompt_position(
                    self.prompts@,
                    self.selected_prompt_id->0@,
                    0,
                ) == -1,
            },
    {
        match &self.selected_prompt_id {
            Some(id) => self.get_prompt(id.as_str()),
            None => None,
        }
    }

    /// The template for the next insight: that of the selected prompt, or a plain
    /// request for a summary where no prompt is selected.
    pub fn insight_template(&self) -> (t: String)
        ensures
            t@ == (if self.selected_prompt_id is Some && prompt_position(
                self.prompts@,
                self.selected_prompt_id->0@,
                0,
            ) >= 0 {
                self.prompts@[prompt_position(self.prompts@, self.selected_prompt_id->0@, 0)].prompt_template@
            } else {
                "Summarize: {{transcription}}"@
            }),
    {
        match self.get_selected_prompt() {
            Some(p) => copy_string(&p.prompt_template),
            None => "Summarize: {{transcription}}".to_owned(),
        }
    }

    /// Adds a prompt of the user's, created at `now`, behind the others, and returns
    /// its id.
    pub fn add_prompt(&mut self, name: String, prompt_template: String, now: i64) -> (id: String)
        ensures
            id@ == prompt_id_of(now),
            final(self).prompts@.len() == old(self).prompts@.len() + 1,
            final(self).prompts@.take(old(self).prompts@.len() as int) == old(self).prompts@,
            ({
                let p = final(self).prompts@.last();
                &&& p.id@ == prompt_id_of(now)
                &&& p.name@ == name@
                &&& p.prompt_template@ == prompt_template@
                &&& p.created_at == now
                &&& !p.is_default
                &&& p.category == PromptCategory::Custom
            }),
            final(self).selected_prompt_id == old(self).selected_prompt_id,
            final(self).enabled == old(self).enabled,
            final(self).segment_duration_seconds == old(self).segment_duration_seconds,
            final(self).context_window_size == old(self).context_window_size,
            final(self).audio_source_type == old(self).audio_source_type,
            final(self).ollama_base_url == old(self).ollama_base_url,
            final(self).ollama_model == old(self).ollama_model,
    {
        let mut id = "al_prompt_".to_owned();
        push_signed_decimal(&mut id, now);
        let prompt = ActiveListeningPrompt {
            id: copy_string(&id),
            name,
            prompt_template,
            created_at: now,
            is_default: false,
            category: PromptCategory::Custom,
        };
        self.prompts.push(prompt);
        assert(self.prompts@.take(old(self).prompts@.len() as int) =~= old(self).prompts@);
        id
    }

    /// Gives the first prompt with the id `id` a new name and template. Fails if there
    /// is no such prompt.
    pub fn update_prompt(&mut self, id: &str, name: String, prompt_template: String) -> (r: Result<
        (),
        PromptError,
    >)
        ensures
            final(self).prompts@.len() == old(self).prompts@.len(),
            final(self).selected_prompt_id == old(self).selected_prompt_id,
            prompt_position(old(self).prompts@, id@, 0) == -1 ==> is_not_found(r, id@) && final(self).prompts@ == old(self).prompts@,
            prompt_position(old(self).prompts@, id@, 0) >= 0 ==> r is Ok && forall|i: int|
                0 <= i < old(self).prompts@.len() ==> if i == prompt_position(old(self).prompts@, id@, 0) {
                    let p = #[trigger] final(self).prompts@[i];
                    let q = old(self).prompts@[i];
                    &&& p.name@ == name@
                    &&& p.prompt_template@ == prompt_template@
                    &&& p.id@ == q.id@
                    &&& p.created_at == q.created_at
                    &&& p.is_default == q.is_default
                    &&& p.category == q.category
                } else {
                    final(self).prompts@[i] == old(self).prompts@[i]
                },
    {
        match position_of(&self.prompts, id) {
            Some(k) => {
                let changed = ActiveListeningPrompt {
                    id: copy_string(&self.prompts[k].id),
                    name,
                    prompt_template,
                    created_at: self.prompts[k].created_at,
                    is_default: self.prompts[k].is_default,
                    category: self.prompts[k].category,
                };
                self.prompts.set(k, changed);
                Ok(())
            },
            None => Err(PromptError::NotFound(id.to_owned())),
        }
    }

    /// Deletes the prompts with the id `id`. The last prompt and a built-in prompt are
    /// never deleted. If the deleted prompt was the selected one, the first of the
    /// prompts that are left is selected.
    pub fn delete_prompt(&mut self, id: &str) -> (r: Result<(), PromptError>)
        ensures
            ({
                let before = old(self).prompts@;
                let p = prompt_position(before, id@, 0);
                if before.len() <= 1 {
                    r == Err::<(), PromptError>(PromptError::LastPrompt) && final(self).prompts@ == before
                        && final(self).selected_prompt_id == old(self).selected_prompt_id
                } else if p >= 0 && before[p].is_default {
                    r == Err::<(), PromptError>(PromptError::DefaultPrompt) && final(self).prompts@
                        == before && final(self).selected_prompt_id == old(self).selected_prompt_id
                } else {
                    &&& r is Ok
                    &&& final(self).prompts@ == without_id(before, id@, 0)
                    &&& opt_chars(final(self).selected_prompt_id) == (if opt_chars(
                        old(self).selected_prompt_id,
                    ) == Some(id@) {
                        if without_id(before, id@, 0).len() > 0 {
                            Some(without_id(before, id@, 0)[0].id@)
                        } else {
                            None
                        }
                    } else {
                        opt_chars(old(self).selected_prompt_id)
                    })
                }
            }),
    {
        if self.prompts.len() <= 1 {
            return Err(PromptError::LastPrompt);
        }
        match position_of(&self.prompts, id) {
            Some(k) => {
                if self.prompts[k].is_default {
                    return Err(PromptError::DefaultPrompt);
                }
            },
            None => {},
        }
        let ghost before = self.prompts@;
        let mut kept: Vec<ActiveListeningPrompt> = Vec::new();
        let mut rest: Vec<ActiveListeningPrompt> = Vec::new();
        core::mem::swap(&mut rest, &mut self.prompts);
        let mut k: usize = 0;
        let total = rest.len();
        assert(before.skip(0) =~= before);
        while rest.len() > 0
            invariant
                k + rest@.len() == total,
                total == before.len(),
                rest@ == before.skip(k as int),
                kept@ + without_id(before, id@, k as int) == without_id(before, id@, 0),
            decreases rest@.len(),
        {
            let ghost waiting = rest@;
            let ghost done = kept@;
            let p = rest.remove(0);
            proof {
                assert(waiting.remove(0) =~= waiting.skip(1));
                assert(p == before[k as int]);
                assert(rest@ =~= before.skip(k + 1));
            }
            if !same_text(p.id.as_str(), id) {
                kept.push(p);
                proof {
                    let tail = without_id(before, id@, k + 1);
                    assert(done.push(p) + tail =~= done + (seq![p] + tail));
                }
            }
            k += 1;
        }
        proof {
            assert(kept@ + Seq::<ActiveListeningPrompt>::empty() =~= kept@);
        }
        self.prompts = kept;
        let was_selected = match &self.selected_prompt_id {
            Some(s) => same_text(s.as_str(), id),
            None => false,
        };
        if was_selected {
            self.selected_prompt_id = if self.prompts.len() > 0 {
                Some(copy_string(&self.prompts[0].id))
            } else {
                None
            };
        }
        Ok(())
    }

    /// Selects the prompt with the id `id`. Fails, and changes nothing, if there is no
    /// such prompt.
    pub fn set_selected_prompt(&mut self, id: &str) -> (r: Result<(), PromptError>)
        ensures
            final(self).prompts == old(self).prompts,
            prompt_position(old(self).prompts@, id@, 0) == -1 ==> is_not_found(r, id@) && final(self).selected_prompt_id == old(self).selected_prompt_id,
            prompt_position(old(self).prompts@, id@, 0) >= 0 ==> r is Ok && opt_chars(
                final(self).selected_prompt_id,
            ) == Some(id@),
    {
        if position_of(&self.prompts, id).is_none() {
            return Err(PromptError::NotFound(id.to_owned()));
        }
        self.selected_prompt_id = Some(id.to_owned());
        Ok(())
    }
}

/// Adds the built-in prompts that are missing, by their ids, behind the ones that are
/// there, and selects the first prompt if none is selected. Returns whether anything
/// changed.
pub fn ensure_active_listening_defaults(settings: &mut ActiveListeningSettings) -> (changed: bool)
    ensures
        prompt_ids(final(settings).prompts@) == merged_prompt_ids(
            prompt_ids(old(settings).prompts@),
            default_prompt_ids(),
            0,
        ),
        final(settings).prompts@.len() >= old(settings).prompts@.len(),
        final(settings).prompts@.take(old(settings).prompts@.len() as int) == old(settings).prompts@,
        opt_chars(final(settings).selected_prompt_id) == (match old(settings).selected_prompt_id {
            Some(id) => Some(id@),
            None => if final(settings).prompts@.len() > 0 {
                Some(final(settings).prompts@[0].id@)
            } else {
                None
            },
        }),
        changed == (final(settings).prompts@.len() > old(settings).prompts@.len() || (old(
            settings,
        ).selected_prompt_id is None && final(settings).prompts@.len() > 0)),
        final(settings).enabled == old(settings).enabled,
        final(settings).segment_duration_seconds == old(settings).segment_duration_seconds,
        final(settings).context_window_size == old(settings).context_window_size,
        final(settings).audio_source_type == old(settings).audio_source_type,
        final(settings).ollama_base_url == old(settings).ollama_base_url,
        final(settings).ollama_model == old(settings).ollama_model,
{
    let mut changed = false;
    let mut defaults = default_prompts();
    let ghost ids = default_prompt_ids();
    let ghost start = old(settings).prompts@;
    let total = defaults.len();
    let mut k: usize = 0;
    assert(settings.prompts@.take(start.len() as int) =~= start);
    assert(ids.skip(0) =~= ids);
    while defaults.len() > 0
        invariant
            k + defaults@.len() == total,
            total == ids.len(),
            prompt_ids(defaults@) == ids.skip(k as int),
            settings.prompts@.len() >= start.len(),
            settings.prompts@.take(start.len() as int) == start,
            changed == (settings.prompts@.len() > start.len()),
            merged_prompt_ids(prompt_ids(settings.prompts@), ids, k as int) == merged_prompt_ids(
                prompt_ids(start),
                ids,
                0,
            ),
            settings.selected_prompt_id == old(settings).selected_prompt_id,
            settings.enabled == old(settings).enabled,
            settings.segment_duration_seconds == old(settings).segment_duration_seconds,
            settings.context_window_size == old(settings).context_window_size,
            settings.audio_source_type == old(settings).audio_source_type,
            settings.ollama_base_url == old(settings).ollama_base_url,
            settings.ollama_model == old(settings).ollama_model,
        decreases defaults@.len(),
    {
        let ghost before = settings.prompts@;
        let ghost waiting = defaults@;
        let d = defaults.remove(0);
        proof {
            assert(d == waiting[0]);
            assert(prompt_ids(waiting)[0] == d.id@);
            assert(ids.skip(k as int)[0] == ids[k as int]);
            assert(waiting.remove(0) =~= waiting.skip(1));
            assert forall|j: int| 0 <= j < defaults@.len() implies prompt_ids(defaults@)[j] == ids.skip(
                k + 1,
            )[j] by {
                assert(defaults@[j] == waiting[j + 1]);
                assert(prompt_ids(waiting)[j + 1] == waiting[j + 1].id@);
                assert(ids.skip(k as int)[j + 1] == ids[k + j + 1]);
            }
            assert(prompt_ids(defaults@) =~= ids.skip(k + 1));
        }
        let found = position_of(&settings.prompts, d.id.as_str());
        if found.is_none() {
            settings.prompts.push(d);
            changed = true;
            assert(prompt_ids(settings.prompts@) =~= prompt_ids(before).push(ids[k as int]));
            assert(settings.prompts@.take(start.len() as int) =~= before.take(start.len() as int));
        } else {
            assert(prompt_ids(before)[found->0 as int] == ids[k as int]);
        }
        k += 1;
    }
    if settings.selected_prompt_id.is_none() && settings.prompts.len() > 0 {
        settings.selected_prompt_id = Some(copy_string(&settings.prompts[0].id));
        changed = true;
    }
    changed
}

} // verus!
