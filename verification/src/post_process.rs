//! What happens to a transcript before it is pasted: conversion between the Chinese
//! scripts, or a rewrite by a language model.

use vstd::prelude::*;
use crate::settings::{LLMPrompt, PostProcessProvider};
use crate::template::{expand, fill_output_placeholder, output_binding};
use crate::text::{blank_between, chars_of, copy_opt_string, copy_string, is_blank, opt_chars, same_text};

verus! {

/// The built-in configuration that turns Taiwan-standard traditional script, with its
/// vocabulary, into simplified script.
pub const TO_SIMPLIFIED_CONFIG: &'static str = "tw2sp.json";

/// The built-in configuration that turns simplified script into Taiwan-standard
/// traditional script, with its vocabulary.
pub const TO_TRADITIONAL_CONFIG: &'static str = "s2twp.json";

/// The text that ferrous_opencc makes of `text` under its built-in configuration of the
/// file name `config`; `None` where there is no such configuration or its converter
/// cannot be built.
pub uninterp spec fn opencc_converted(text: Seq<char>, config: Seq<char>) -> Option<Seq<char>>;

/// Converts `text` under a built-in configuration: ferrous_opencc's
/// `BuiltinConfig::from_filename`, `OpenCC::from_config` and `OpenCC::convert`. The
/// configurations and their dictionaries are built into the crate, so the result
/// depends on the arguments alone.
#[verifier::external_body]
fn convert_with_opencc(text: &str, config: &str) -> (r: Option<String>)
    ensures
        opt_chars(r) == opencc_converted(text@, config@),
{
    match ferrous_opencc::config::BuiltinConfig::from_filename(config) {
        Ok(builtin) => match ferrous_opencc::OpenCC::from_config(builtin) {
            Ok(converter) => Some(converter.convert(text)),
            Err(_) => None,
        },
        Err(_) => None,
    }
}

/// The transcript in the script that the selected language asks for: simplified for
/// "zh-Hans", traditional for "zh-Hant". `None` for any other language, and where the
/// converter cannot be built.
pub open spec fn chinese_variant_of(selected_language: Seq<char>, transcription: Seq<char>) -> Option<
    Seq<char>,
> {
    if selected_language == "zh-Hans"@ {
        opencc_converted(transcription, TO_SIMPLIFIED_CONFIG@)
    } else if selected_language == "zh-Hant"@ {
        opencc_converted(transcription, TO_TRADITIONAL_CONFIG@)
    } else {
        None
    }
}

/// Converts the transcript to the script that the selected language asks for.
pub fn maybe_convert_chinese_variant(selected_language: &str, transcription: &str) -> (r: Option<String>)
    ensures
        opt_chars(r) == chinese_variant_of(selected_language@, transcription@),
{
    if same_text(selected_language, "zh-Hans") {
        convert_with_opencc(transcription, TO_SIMPLIFIED_CONFIG)
    } else if same_text(selected_language, "zh-Hant") {
        convert_with_opencc(transcription, TO_TRADITIONAL_CONFIG)
    } else {
        None
    }
}

/// A name with the value stored under it.
pub struct NamedValue {
    pub name: String,
    pub value: String,
}

/// The settings that govern the rewrite of a transcript.
pub struct PostProcessSettings {
    pub post_process_enabled: bool,
    pub post_process_provider_id: String,
    pub post_process_providers: Vec<PostProcessProvider>,
    /// The key for each provider, by the provider's id.
    pub post_process_api_keys: Vec<NamedValue>,
    /// The model for each provider, by the provider's id.
    pub post_process_models: Vec<NamedValue>,
    pub post_process_prompts: Vec<LLMPrompt>,
    pub post_process_selected_prompt_id: Option<String>,
}

/// Why a transcript is not rewritten.
#[derive(Debug, Clone, Copy, PartialEq, Eq, Structural)]
pub enum SkipReason {
    /// Rewriting is switched off.
    Disabled,
    /// The selected provider is not among the providers.
    NoProvider,
    /// No model is set for the provider.
    NoModel,
    /// No prompt is selected.
    NoPromptSelected,
    /// The selected prompt is not among the prompts.
    PromptNotFound,
    /// The selected prompt is white space alone.
    EmptyPrompt,
    /// The transcript was converted to another script, and a converted transcript is
    /// not rewritten.
    Converted,
}

/// A request for a rewrite.
pub struct RewriteRequest {
    pub provider: PostProcessProvider,
    pub api_key: String,
    pub model: String,
    /// The prompt with the transcript filled in.
    pub prompt: String,
    /// Whether the request goes to the on-device model.
    pub on_device: bool,
}

/// What to do about the rewrite of a transcript.
pub enum PostProcessPlan {
    Skip(SkipReason),
    Send(RewriteRequest),
}

/// The position of the first provider with the id `id`, or -1.
pub open spec fn provider_position(providers: Seq<PostProcessProvider>, id: Seq<char>, k: int) -> int
    decreases providers.len() - k,
{
    if k < 0 || k >= providers.len() {
        -1
    } else if providers[k].id@ == id {
        k
    } else {
        provider_position(providers, id, k + 1)
    }
}

/// The position of the first prompt with the id `id`, or -1.
pub open spec fn prompt_position(prompts: Seq<LLMPrompt>, id: Seq<char>, k: int) -> int
    decreases prompts.len() - k,
{
    if k < 0 || k >= prompts.len() {
        -1
    } else if prompts[k].id@ == id {
        k
    } else {
        prompt_position(prompts, id, k + 1)
    }
}

/// The value stored first under `name`; empty where there is none.
pub open spec fn value_named(values: Seq<NamedValue>, name: Seq<char>, k: int) -> Seq<char>
    decreases values.len() - k,
{
    if k < 0 || k >= values.len() {
        Seq::empty()
    } else if values[k].name@ == name {
        values[k].value@
    } else {
        value_named(values, name, k + 1)
    }
}

/// Why a transcript is not rewritten under `s`, if it is not.
pub open spec fn skip_reason(s: PostProcessSettings) -> Option<SkipReason> {
    let p = provider_position(s.post_process_providers@, s.post_process_provider_id@, 0);
    if !s.post_process_enabled {
        Some(SkipReason::Disabled)
    } else if p < 0 {
        Some(SkipReason::NoProvider)
    } else if is_blank(value_named(s.post_process_models@, s.post_process_provider_id@, 0)) {
        Some(SkipReason::NoModel)
    } else if s.post_process_selected_prompt_id is None {
        Some(SkipReason::NoPromptSelected)
    } else {
        let q = prompt_position(s.post_process_prompts@, s.post_process_selected_prompt_id->0@, 0);
        if q < 0 {
            Some(SkipReason::PromptNotFound)
        } else if is_blank(s.post_process_prompts@[q].prompt@) {
            Some(SkipReason::EmptyPrompt)
        } else {
            None
        }
    }
}

/// Whether `request` is the rewrite request for `transcription` under `s`.
pub open spec fn is_request_of(request: RewriteRequest, s: PostProcessSettings, transcription: Seq<char>) -> bool {
    let p = provider_position(s.post_process_providers@, s.post_process_provider_id@, 0);
    let q = prompt_position(s.post_process_prompts@, s.post_process_selected_prompt_id->0@, 0);
    &&& 0 <= p < s.post_process_providers@.len()
    &&& 0 <= q < s.post_process_prompts@.len()
    &&& request.provider.id@ == s.post_process_providers@[p].id@
    &&& request.provider.label@ == s.post_process_providers@[p].label@
    &&& request.provider.base_url@ == s.post_process_providers@[p].base_url@
    &&& request.provider.allow_base_url_edit == s.post_process_providers@[p].allow_base_url_edit
    &&& opt_chars(request.provider.models_endpoint) == opt_chars(
        s.post_process_providers@[p].models_endpoint,
    )
    &&& request.api_key@ == value_named(s.post_process_api_keys@, s.post_process_provider_id@, 0)
    &&& request.model@ == value_named(s.post_process_models@, s.post_process_provider_id@, 0)
    &&& request.prompt@ == expand(s.post_process_prompts@[q].prompt@, output_binding(transcription))
    &&& request.on_device == (s.post_process_provider_id@ == "apple_intelligence"@)
}

fn find_provider(providers: &Vec<PostProcessProvider>, id: &str) -> (r: Option<usize>)
    ensures
        match r {
            Some(k) => k == provider_position(providers@, id@, 0) && k < providers@.len()
                && providers@[k as int].id@ == id@,
            None => provider_position(providers@, id@, 0) == -1,
        },
{
    let mut k: usize = 0;
    while k < providers.len()
        invariant
            k <= providers.len(),
            provider_position(providers@, id@, 0) == provider_position(providers@, id@, k as int),
        decreases providers.len() - k,
    {
        if same_text(providers[k].id.as_str(), id) {
            return Some(k);
        }
        k += 1;
    }
    None
}

fn find_prompt(prompts: &Vec<LLMPrompt>, id: &str) -> (r: Option<usize>)
    ensures
        match r {
            Some(k) => k == prompt_position(prompts@, id@, 0) && k < prompts@.len(),
            None => prompt_position(prompts@, id@, 0) == -1,
        },
{
    let mut k: usize = 0;
    while k < prompts.len()
        invariant
            k <= prompts.len(),
            prompt_position(prompts@, id@, 0) == prompt_position(prompts@, id@, k as int),
        decreases prompts.len() - k,
    {
        if same_text(prompts[k].id.as_str(), id) {
            return Some(k);
        }
        k += 1;
    }
    None
}

/// The value stored first under `name`; empty where there is none.
pub fn lookup_value(values: &Vec<NamedValue>, name: &str) -> (r: String)
    ensures
        r@ == value_named(values@, name@, 0),
{
    let mut k: usize = 0;
    while k < values.len()
        invariant
            k <= values.len(),
            value_named(values@, name@, 0) == value_named(values@, name@, k as int),
        decreases values.len() - k,
    {
        if same_text(values[k].name.as_str(), name) {
            return copy_string(&values[k].value);
        }
        k += 1;
    }
    String::new()
}

fn is_blank_text(s: &str) -> (r: bool)
    ensures
        r == is_blank(s@),
{
    let t = chars_of(s);
    let r = blank_between(t.as_slice(), 0, t.len());
    assert(t@.subrange(0, t.len() as int) =~= t@);
    r
}

/// Decides whether a transcript is sent for a rewrite, and with what. It is sent only if
/// rewriting is switched on, the selected provider exists and has a model, and the
/// selected prompt exists and is not white space alone. The request carries the prompt
/// with the transcript in the place of `${output}`.
pub fn plan_post_process(settings: &PostProcessSettings, transcription: &str) -> (plan: PostProcessPlan)
    ensures
        match plan {
            PostProcessPlan::Skip(reason) => skip_reason(*settings) == Some(reason),
            PostProcessPlan::Send(request) => skip_reason(*settings) is None && is_request_of(
                request,
                *settings,
                transcription@,
            ),
        },
{
    if !settings.post_process_enabled {
        return PostProcessPlan::Skip(SkipReason::Disabled);
    }
    let provider_id = settings.post_process_provider_id.as_str();
    let p = match find_provider(&settings.post_process_providers, provider_id) {
        Some(p) => p,
        None => {
            return PostProcessPlan::Skip(SkipReason::NoProvider);
        },
    };
    let model = lookup_value(&settings.post_process_models, provider_id);
    if is_blank_text(model.as_str()) {
        return PostProcessPlan::Skip(SkipReason::NoModel);
    }
    let prompt_id = match &settings.post_process_selected_prompt_id {
        Some(id) => id,
        None => {
            return PostProcessPlan::Skip(SkipReason::NoPromptSelected);
        },
    };
    let q = match find_prompt(&settings.post_process_prompts, prompt_id.as_str()) {
        Some(q) => q,
        None => {
            return PostProcessPlan::Skip(SkipReason::PromptNotFound);
        },
    };
    let prompt = &settings.post_process_prompts[q].prompt;
    if is_blank_text(prompt.as_str()) {
        return PostProcessPlan::Skip(SkipReason::EmptyPrompt);
    }
    let source = &settings.post_process_providers[p];
    let request = RewriteRequest {
        provider: PostProcessProvider {
            id: copy_string(&source.id),
            label: copy_string(&source.label),
            base_url: copy_string(&source.base_url),
            allow_base_url_edit: source.allow_base_url_edit,
            models_endpoint: copy_opt_string(&source.models_endpoint),
        },
        api_key: lookup_value(&settings.post_process_api_keys, provider_id),
        model,
        prompt: fill_output_placeholder(prompt.as_str(), transcription),
        on_device: same_text(provider_id, "apple_intelligence"),
    };
    PostProcessPlan::Send(request)
}

/// The prompt that a rewrite under `s` uses; `None` where none is selected or the
/// selected one does not exist.
pub open spec fn prompt_used(s: PostProcessSettings) -> Option<Seq<char>> {
    match s.post_process_selected_prompt_id {
        Some(id) => {
            let q = prompt_position(s.post_process_prompts@, id@, 0);
            if q >= 0 {
                Some(s.post_process_prompts@[q].prompt@)
            } else {
                None
            }
        },
        None => None,
    }
}

/// The prompt that a rewrite under `settings` uses.
pub fn selected_prompt_text(settings: &PostProcessSettings) -> (r: Option<String>)
    ensures
        opt_chars(r) == prompt_used(*settings),
{
    match &settings.post_process_selected_prompt_id {
        Some(id) => match find_prompt(&settings.post_process_prompts, id.as_str()) {
            Some(q) => Some(copy_string(&settings.post_process_prompts[q].prompt)),
            None => None,
        },
        None => None,
    }
}

/// The rewrite that a provider's answer gives: its content if the request succeeded and
/// the content is not empty.
pub open spec fn rewrite_of(response: Result<Option<Seq<char>>, Seq<char>>) -> Option<Seq<char>> {
    match response {
        Ok(Some(content)) => if content.len() > 0 {
            Some(content)
        } else {
            None
        },
        _ => None,
    }
}

/// Takes the provider's answer: a failed request, an answer without content and an
/// empty content all mean that the transcript stays as it is.
pub fn accept_rewrite(response: Result<Option<String>, String>) -> (r: Option<String>)
    ensures
        opt_chars(r) == rewrite_of(
            match response {
                Ok(c) => Ok(opt_chars(c)),
                Err(e) => Err(e@),
            },
        ),
{
    match response {
        Ok(Some(content)) => {
            if content.as_str().unicode_len() > 0 {
                Some(content)
            } else {
                None
            }
        },
        _ => None,
    }
}

/// What is pasted and what the history keeps.
pub struct FinalText {
    /// The text that is pasted.
    pub final_text: String,
    /// The converted or rewritten text, if there is one.
    pub post_processed_text: Option<String>,
    /// The prompt of the rewrite, if the text was rewritten.
    pub post_process_prompt: Option<String>,
}

/// Puts together what is pasted. An empty transcript gives nothing: no paste and no
/// history entry. A converted text wins over a rewrite; without either the transcript
/// itself is pasted. The prompt is kept only with a rewrite.
pub fn finish_transcription(
    transcription: &str,
    converted: Option<String>,
    rewritten: Option<String>,
    prompt: Option<String>,
) -> (r: Option<FinalText>)
    ensures
        transcription@.len() == 0 ==> r is None,
        transcription@.len() > 0 ==> r is Some && ({
            let f = r->0;
            match (converted, rewritten) {
                (Some(c), _) => f.final_text@ == c@ && opt_chars(f.post_processed_text) == Some(c@)
                    && f.post_process_prompt is None,
                (None, Some(w)) => f.final_text@ == w@ && opt_chars(f.post_processed_text) == Some(w@)
                    && opt_chars(f.post_process_prompt) == opt_chars(prompt),
                (None, None) => f.final_text@ == transcription@ && f.post_processed_text is None
                    && f.post_process_prompt is None,
            }
        }),
{
    if transcription.unicode_len() == 0 {
        return None;
    }
    match converted {
        Some(c) => Some(
            FinalText {
                final_text: copy_string(&c),
                post_processed_text: Some(c),
                post_process_prompt: None,
            },
        ),
        None => match rewritten {
            Some(w) => Some(
                FinalText {
                    final_text: copy_string(&w),
                    post_processed_text: Some(w),
                    post_process_prompt: prompt,
                },
            ),
            None => Some(
                FinalText {
                    final_text: transcription.to_owned(),
                    post_processed_text: None,
                    post_process_prompt: None,
                },
            ),
        },
    }
}

/// The names of `values`, in order.
pub open spec fn names_of(values: Seq<NamedValue>) -> Seq<Seq<char>> {
    values.map_values(|v: NamedValue| v.name@)
}

/// Whether a value is stored under `name`.
pub open spec fn has_name(values: Seq<NamedValue>, name: Seq<char>) -> bool {
    names_of(values).contains(name)
}

fn has_value(values: &Vec<NamedValue>, name: &str) -> (r: bool)
    ensures
        r == has_name(values@, name@),
{
    let mut k: usize = 0;
    while k < values.len()
        invariant
            k <= values.len(),
            forall|j: int| 0 <= j < k ==> names_of(values@)[j] != name@,
        decreases values.len() - k,
    {
        if same_text(values[k].name.as_str(), name) {
            assert(names_of(values@)[k as int] == name@);
            return true;
        }
        k += 1;
    }
    false
}

impl PostProcessSettings {
    /// The defaults: rewriting off, the first built-in provider selected, the built-in
    /// providers each with an empty key and its default model, the built-in prompt, and
    /// no prompt selected.
    pub fn default() -> (s: PostProcessSettings)
        ensures
            !s.post_process_enabled,
            s.post_process_provider_id@ == "openai"@,
            crate::settings::provider_ids(s.post_process_providers@) == names_of(s.post_process_api_keys@),
            crate::settings::provider_ids(s.post_process_providers@) == names_of(s.post_process_models@),
            crate::settings::provider_ids(s.post_process_providers@)
                == crate::settings::default_provider_ids(),
            forall|i: int|
                0 <= i < s.post_process_api_keys@.len() ==> (#[trigger] s.post_process_api_keys@[i]).value@.len()
                    == 0,
            forall|i: int|
                0 <= i < s.post_process_models@.len() ==> (#[trigger] s.post_process_models@[i]).value@.len()
                    == 0,
            s.post_process_prompts@.len() == 1,
            s.post_process_selected_prompt_id is None,
    {
        let providers = crate::settings::default_post_process_providers();
        let mut keys: Vec<NamedValue> = Vec::new();
        let mut models: Vec<NamedValue> = Vec::new();
        let mut i: usize = 0;
        while i < providers.len()
            invariant
                i <= providers.len(),
                keys@.len() == i,
                models@.len() == i,
                forall|j: int| 0 <= j < i ==> (#[trigger] keys@[j]).name@ == providers@[j].id@,
                forall|j: int| 0 <= j < i ==> (#[trigger] models@[j]).name@ == providers@[j].id@,
                forall|j: int| 0 <= j < i ==> (#[trigger] keys@[j]).value@.len() == 0,
                forall|j: int| 0 <= j < i ==> (#[trigger] models@[j]).value@.len() == 0,
                crate::settings::provider_ids(providers@) == crate::settings::default_provider_ids(),
            decreases providers.len() - i,
        {
            assert(crate::settings::provider_ids(providers@)[i as int] == providers@[i as int].id@);
            assert(crate::settings::default_provider_ids()[i as int] != "apple_intelligence"@) by {
                lemma_built_in_is_remote(i as int);
            }
            keys.push(NamedValue { name: copy_string(&providers[i].id), value: String::new() });
            models.push(
                NamedValue {
                    name: copy_string(&providers[i].id),
                    value: crate::settings::default_model_for_provider(providers[i].id.as_str()),
                },
            );
            i += 1;
        }
        assert(crate::settings::provider_ids(providers@) =~= names_of(keys@));
        assert(crate::settings::provider_ids(providers@) =~= names_of(models@));
        PostProcessSettings {
            post_process_enabled: false,
            post_process_provider_id: crate::settings::default_post_process_provider_id(),
            post_process_providers: providers,
            post_process_api_keys: keys,
            post_process_models: models,
            post_process_prompts: crate::settings::default_post_process_prompts(),
            post_process_selected_prompt_id: None,
        }
    }

    /// The first provider with the id `provider_id`.
    pub fn post_process_provider(&self, provider_id: &str) -> (r: Option<&PostProcessProvider>)
        ensures
            match r {
                Some(p) => provider_position(self.post_process_providers@, provider_id@, 0) >= 0 && *p
                    == self.post_process_providers@[provider_position(
                    self.post_process_providers@,
                    provider_id@,
                    0,
                )],
                None => provider_position(self.post_process_providers@, provider_id@, 0) == -1,
            },
    {
        match find_provider(&self.post_process_providers, provider_id) {
            Some(k) => Some(&self.post_process_providers[k]),
            None => None,
        }
    }

    /// The selected provider, if it is among the providers.
    pub fn active_post_process_provider(&self) -> (r: Option<&PostProcessProvider>)
        ensures
            match r {
                Some(p) => provider_position(
                    self.post_process_providers@,
                    self.post_process_provider_id@,
                    0,
                ) >= 0 && *p == self.post_process_providers@[provider_position(
                    self.post_process_providers@,
                    self.post_process_provider_id@,
                    0,
                )],
                None => provider_position(
                    self.post_process_providers@,
                    self.post_process_provider_id@,
                    0,
                ) == -1,
            },
    {
        self.post_process_provider(self.post_process_provider_id.as_str())
    }

    /// Sets the address of the first provider with the id `provider_id`. Fails, and
    /// changes nothing, if there is no such provider or its address is fixed.
    pub fn set_provider_base_url(&mut self, provider_id: &str, base_url: String) -> (changed: bool)
        ensures
            final(self).post_process_providers@.len() == old(self).post_process_providers@.len(),
            ({
                let p = provider_position(old(self).post_process_providers@, provider_id@, 0);
                let before = old(self).post_process_providers@;
                let after = final(self).post_process_providers@;
                &&& changed == (p >= 0 && before[p].allow_base_url_edit)
                &&& !changed ==> after == before
                &&& changed ==> after[p].base_url@ == base_url@ && after[p].id@ == before[p].id@
                    && after[p].label@ == before[p].label@ && after[p].allow_base_url_edit && opt_chars(
                    after[p].models_endpoint,
                ) == opt_chars(before[p].models_endpoint) && forall|i: int|
                    0 <= i < before.len() && i != p ==> #[trigger] after[i] == before[i]
            }),
            final(self).post_process_enabled == old(self).post_process_enabled,
            final(self).post_process_provider_id == old(self).post_process_provider_id,
            final(self).post_process_api_keys == old(self).post_process_api_keys,
            final(self).post_process_models == old(self).post_process_models,
            final(self).post_process_prompts == old(self).post_process_prompts,
            final(self).post_process_selected_prompt_id == old(self).post_process_selected_prompt_id,
    {
        match find_provider(&self.post_process_providers, provider_id) {
            Some(k) => {
                if !self.post_process_providers[k].allow_base_url_edit {
                    return false;
                }
                let source = &self.post_process_providers[k];
                let changed = PostProcessProvider {
                    id: copy_string(&source.id),
                    label: copy_string(&source.label),
                    base_url,
                    allow_base_url_edit: true,
                    models_endpoint: copy_opt_string(&source.models_endpoint),
                };
                self.post_process_providers.set(k, changed);
                true
            },
            None => false,
        }
    }
}

/// None of the built-in providers is the on-device one.
proof fn lemma_built_in_is_remote(i: int)
    requires
        0 <= i < crate::settings::default_provider_ids().len(),
    ensures
        crate::settings::default_provider_ids()[i] != "apple_intelligence"@,
{
    reveal_strlit("apple_intelligence");
    reveal_strlit("openai");
    reveal_strlit("openrouter");
    reveal_strlit("anthropic");
    reveal_strlit("groq");
    reveal_strlit("cerebras");
    reveal_strlit("custom");
    let other = crate::settings::default_provider_ids()[i];
    assert("apple_intelligence"@.len() == 18);
    if other.len() == 18 {
        assert(false);
    }
}

/// Where no provider is found from `k` on, none from there on has the id.
proof fn lemma_no_provider(providers: Seq<PostProcessProvider>, id: Seq<char>, k: int)
    requires
        0 <= k,
        provider_position(providers, id, k) == -1,
    ensures
        forall|j: int| k <= j < providers.len() ==> (#[trigger] providers[j]).id@ != id,
    decreases providers.len() - k,
{
    if k < providers.len() {
        lemma_no_provider(providers, id, k + 1);
    }
}

/// Whether the entries of `names` from `from` on are ids of built-in providers, each
/// one different from every entry before it.
pub open spec fn added_are_missing_built_ins(names: Seq<Seq<char>>, from: int) -> bool {
    forall|j: int|
        from <= j < names.len() ==> crate::settings::default_provider_ids().contains(#[trigger] names[j])
            && !names.take(j).contains(names[j])
}

/// What to do about the rewrite of a transcript once it is known whether the
/// transcript was converted to another script: a converted transcript is not
/// rewritten, any other is planned for as `plan_post_process` does.
pub fn plan_rewrite(settings: &PostProcessSettings, transcription: &str, converted: bool) -> (plan:
    PostProcessPlan)
    ensures
        match plan {
            PostProcessPlan::Skip(reason) => Some(reason) == (if converted {
                Some(SkipReason::Converted)
            } else {
                skip_reason(*settings)
            }),
            PostProcessPlan::Send(request) => !converted && skip_reason(*settings) is None && is_request_of(
                request,
                *settings,
                transcription@,
            ),
        },
{
    if converted {
        PostProcessPlan::Skip(SkipReason::Converted)
    } else {
        plan_post_process(settings, transcription)
    }
}

/// A sequence that grows at its end holds what it held.
proof fn lemma_push_keeps(before: Seq<Seq<char>>, added: Seq<char>, x: Seq<char>)
    requires
        before.contains(x),
    ensures
        before.push(added).contains(x),
{
    let w = choose|w: int| 0 <= w < before.len() && before[w] == x;
    assert(before.push(added)[w] == x);
}

/// One more missing built-in at the end keeps what was added in order.
proof fn lemma_added_one(names: Seq<Seq<char>>, added: Seq<char>, from: int)
    requires
        0 <= from <= names.len(),
        added_are_missing_built_ins(names, from),
        crate::settings::default_provider_ids().contains(added),
        !names.contains(added),
    ensures
        added_are_missing_built_ins(names.push(added), from),
{
    let after = names.push(added);
    assert forall|j: int| from <= j < after.len() implies crate::settings::default_provider_ids().contains(
        #[trigger] after[j],
    ) && !after.take(j).contains(after[j]) by {
        if j < names.len() {
            assert(after.take(j) =~= names.take(j));
            assert(after[j] == names[j]);
        } else {
            assert(after.take(j) =~= names);
        }
    }
}

/// Adds what the built-in providers need and the settings lack: the providers that
/// are missing, by their ids, behind those that are there; an empty key for each
/// built-in provider without a key; and its default model for each built-in provider
/// without a model. Returns whether anything was added.
pub fn ensure_post_process_defaults(settings: &mut PostProcessSettings) -> (changed: bool)
    ensures
        final(settings).post_process_providers@.len() >= old(settings).post_process_providers@.len(),
        final(settings).post_process_providers@.take(old(settings).post_process_providers@.len() as int)
            == old(settings).post_process_providers@,
        final(settings).post_process_api_keys@.take(old(settings).post_process_api_keys@.len() as int)
            == old(settings).post_process_api_keys@,
        final(settings).post_process_models@.take(old(settings).post_process_models@.len() as int) == old(
            settings,
        ).post_process_models@,
        forall|i: int|
            0 <= i < crate::settings::default_provider_ids().len() ==> {
                let id = #[trigger] crate::settings::default_provider_ids()[i];
                &&& crate::settings::provider_ids(final(settings).post_process_providers@).contains(id)
                &&& has_name(final(settings).post_process_api_keys@, id)
                &&& has_name(final(settings).post_process_models@, id)
            },
        added_are_missing_built_ins(
            crate::settings::provider_ids(final(settings).post_process_providers@),
            old(settings).post_process_providers@.len() as int,
        ),
        added_are_missing_built_ins(
            names_of(final(settings).post_process_api_keys@),
            old(settings).post_process_api_keys@.len() as int,
        ),
        added_are_missing_built_ins(
            names_of(final(settings).post_process_models@),
            old(settings).post_process_models@.len() as int,
        ),
        forall|j: int|
            old(settings).post_process_api_keys@.len() <= j < final(settings).post_process_api_keys@.len()
                ==> (#[trigger] final(settings).post_process_api_keys@[j]).value@.len() == 0,
        forall|j: int|
            old(settings).post_process_models@.len() <= j < final(settings).post_process_models@.len()
                ==> (#[trigger] final(settings).post_process_models@[j]).value@.len() == 0,
        changed == (final(settings).post_process_providers@.len() > old(settings).post_process_providers@.len()
            || final(settings).post_process_api_keys@.len() > old(settings).post_process_api_keys@.len()
            || final(settings).post_process_models@.len() > old(settings).post_process_models@.len()),
        final(settings).post_process_enabled == old(settings).post_process_enabled,
        final(settings).post_process_provider_id == old(settings).post_process_provider_id,
        final(settings).post_process_prompts == old(settings).post_process_prompts,
        final(settings).post_process_selected_prompt_id == old(settings).post_process_selected_prompt_id,
{
    let defaults = crate::settings::default_post_process_providers();
    let ghost ids = crate::settings::default_provider_ids();
    let ghost p0 = old(settings).post_process_providers@;
    let ghost k0 = old(settings).post_process_api_keys@;
    let ghost m0 = old(settings).post_process_models@;
    let mut changed = false;
    let mut i: usize = 0;
    assert(settings.post_process_providers@.take(p0.len() as int) =~= p0);
    assert(settings.post_process_api_keys@.take(k0.len() as int) =~= k0);
    assert(settings.post_process_models@.take(m0.len() as int) =~= m0);
    while i < defaults.len()
        invariant
            i <= defaults.len(),
            crate::settings::provider_ids(defaults@) == ids,
            ids == crate::settings::default_provider_ids(),
            settings.post_process_providers@.len() >= p0.len(),
            settings.post_process_api_keys@.len() >= k0.len(),
            settings.post_process_models@.len() >= m0.len(),
            settings.post_process_providers@.take(p0.len() as int) == p0,
            settings.post_process_api_keys@.take(k0.len() as int) == k0,
            settings.post_process_models@.take(m0.len() as int) == m0,
            changed == (settings.post_process_providers@.len() > p0.len()
                || settings.post_process_api_keys@.len() > k0.len() || settings.post_process_models@.len()
                > m0.len()),
            added_are_missing_built_ins(
                crate::settings::provider_ids(settings.post_process_providers@),
                p0.len() as int,
            ),
            added_are_missing_built_ins(names_of(settings.post_process_api_keys@), k0.len() as int),
            added_are_missing_built_ins(names_of(settings.post_process_models@), m0.len() as int),
            forall|j: int|
                k0.len() <= j < settings.post_process_api_keys@.len()
                    ==> (#[trigger] settings.post_process_api_keys@[j]).value@.len() == 0,
            forall|j: int|
                m0.len() <= j < settings.post_process_models@.len()
                    ==> (#[trigger] settings.post_process_models@[j]).value@.len() == 0,
            forall|j: int|
                0 <= j < i ==> {
                    let id = #[trigger] ids[j];
                    &&& crate::settings::provider_ids(settings.post_process_providers@).contains(id)
                    &&& has_name(settings.post_process_api_keys@, id)
                    &&& has_name(settings.post_process_models@, id)
                },
            settings.post_process_enabled == old(settings).post_process_enabled,
            settings.post_process_provider_id == old(settings).post_process_provider_id,
            settings.post_process_prompts == old(settings).post_process_prompts,
            settings.post_process_selected_prompt_id == old(settings).post_process_selected_prompt_id,
        decreases defaults.len() - i,
    {
        let d = &defaults[i];
        let id = d.id.as_str();
        let ghost pb = crate::settings::provider_ids(settings.post_process_providers@);
        let ghost kb = names_of(settings.post_process_api_keys@);
        let ghost mb = names_of(settings.post_process_models@);
        let ghost before_p = settings.post_process_providers@;
        let ghost before_k = settings.post_process_api_keys@;
        let ghost before_m = settings.post_process_models@;
        assert(ids[i as int] == d.id@) by {
            assert(crate::settings::provider_ids(defaults@)[i as int] == defaults@[i as int].id@);
        }
        proof {
            assert(ids.len() == defaults@.len());
            assert(ids.contains(d.id@));
            lemma_built_in_is_remote(i as int);
        }
        let mut added_p = false;
        let mut added_k = false;
        let mut added_m = false;
        match find_provider(&settings.post_process_providers, id) {
            Some(k) => {
                assert(pb[k as int] == d.id@);
            },
            None => {
                proof {
                    lemma_no_provider(before_p, d.id@, 0);
                    assert(!pb.contains(d.id@)) by {
                        if pb.contains(d.id@) {
                            let w = choose|w: int| 0 <= w < pb.len() && pb[w] == d.id@;
                            assert(before_p[w].id@ == d.id@);
                        }
                    }
                }
                settings.post_process_providers.push(
                    PostProcessProvider {
                        id: copy_string(&d.id),
                        label: copy_string(&d.label),
                        base_url: copy_string(&d.base_url),
                        allow_base_url_edit: d.allow_base_url_edit,
                        models_endpoint: copy_opt_string(&d.models_endpoint),
                    },
                );
                added_p = true;
                changed = true;
                assert(settings.post_process_providers@.take(p0.len() as int) =~= before_p.take(
                    p0.len() as int,
                ));
            },
        }
        if !has_value(&settings.post_process_api_keys, id) {
            settings.post_process_api_keys.push(NamedValue { name: copy_string(&d.id), value: String::new() });
            added_k = true;
            changed = true;
            assert(settings.post_process_api_keys@.take(k0.len() as int) =~= before_k.take(k0.len() as int));
        }
        if !has_value(&settings.post_process_models, id) {
            settings.post_process_models.push(
                NamedValue { name: copy_string(&d.id), value: crate::settings::default_model_for_provider(id) },
            );
            added_m = true;
            changed = true;
            assert(settings.post_process_models@.take(m0.len() as int) =~= before_m.take(m0.len() as int));
        }
        proof {
            let pa = crate::settings::provider_ids(settings.post_process_providers@);
            let ka = names_of(settings.post_process_api_keys@);
            let ma = names_of(settings.post_process_models@);
            if added_p {
                assert(pa =~= pb.push(d.id@));
                assert(pa[pb.len() as int] == d.id@);
                lemma_added_one(pb, d.id@, p0.len() as int);
            } else {
                assert(pa =~= pb);
            }
            if added_k {
                assert(ka =~= kb.push(d.id@));
                assert(ka[kb.len() as int] == d.id@);
                lemma_added_one(kb, d.id@, k0.len() as int);
            } else {
                assert(ka =~= kb);
            }
            if added_m {
                assert(ma =~= mb.push(d.id@));
                assert(ma[mb.len() as int] == d.id@);
                lemma_added_one(mb, d.id@, m0.len() as int);
            } else {
                assert(ma =~= mb);
            }
            assert forall|j: int| 0 <= j < i + 1 implies {
                let other = #[trigger] ids[j];
                &&& pa.contains(other)
                &&& ka.contains(other)
                &&& ma.contains(other)
            } by {
                let other = ids[j];
                if j < i {
                    if added_p {
                        lemma_push_keeps(pb, d.id@, other);
                    }
                    if added_k {
                        lemma_push_keeps(kb, d.id@, other);
                    }
                    if added_m {
                        lemma_push_keeps(mb, d.id@, other);
                    }
                }
            }
        }
        i += 1;
    }
    changed
}

} // verus!
