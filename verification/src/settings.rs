//! Typed configuration values and their defaults.

use vstd::prelude::*;
use crate::text::{copy_string, lowercase_of, opt_chars, push_text, same_text, to_lowercase};

verus! {

/// Which history entries are deleted.
#[derive(Debug, Clone, Copy, PartialEq, Eq, Structural)]
pub enum RecordingRetentionPeriod {
    /// None.
    Never,
    /// The oldest unsaved entries beyond a limit.
    PreserveLimit,
    /// Unsaved entries older than three days.
    Days3,
    /// Unsaved entries older than two weeks.
    Weeks2,
    /// Unsaved entries older than three months.
    Months3,
}

/// How long an idle transcription model stays loaded.
#[derive(Debug, Clone, Copy, PartialEq, Eq, Structural)]
pub enum ModelUnloadTimeout {
    Never,
    Immediately,
    Min2,
    Min5,
    Min10,
    Min15,
    Hour1,
    Sec5,
}

impl ModelUnloadTimeout {
    /// The timeout in whole minutes; `None` means the model is never unloaded.
    pub open spec fn minutes(self) -> Option<u64> {
        match self {
            ModelUnloadTimeout::Never => None,
            ModelUnloadTimeout::Immediately => Some(0u64),
            ModelUnloadTimeout::Min2 => Some(2u64),
            ModelUnloadTimeout::Min5 => Some(5u64),
            ModelUnloadTimeout::Min10 => Some(10u64),
            ModelUnloadTimeout::Min15 => Some(15u64),
            ModelUnloadTimeout::Hour1 => Some(60u64),
            ModelUnloadTimeout::Sec5 => Some(0u64),
        }
    }

    /// The timeout in seconds; `None` means the model is never unloaded.
    pub open spec fn seconds(self) -> Option<u64> {
        match self {
            ModelUnloadTimeout::Never => None,
            ModelUnloadTimeout::Sec5 => Some(5u64),
            _ => Some((self.minutes()->0 * 60) as u64),
        }
    }

    pub fn to_minutes(self) -> (r: Option<u64>)
        ensures
            r == self.minutes(),
    {
        match self {
            ModelUnloadTimeout::Never => None,
            ModelUnloadTimeout::Immediately => Some(0),
            ModelUnloadTimeout::Min2 => Some(2),
            ModelUnloadTimeout::Min5 => Some(5),
            ModelUnloadTimeout::Min10 => Some(10),
            ModelUnloadTimeout::Min15 => Some(15),
            ModelUnloadTimeout::Hour1 => Some(60),
            ModelUnloadTimeout::Sec5 => Some(0),
        }
    }

    pub fn to_seconds(self) -> (r: Option<u64>)
        ensures
            r == self.seconds(),
    {
        match self {
            ModelUnloadTimeout::Never => None,
            ModelUnloadTimeout::Immediately => Some(0),
            ModelUnloadTimeout::Sec5 => Some(5),
            _ => match self.to_minutes() {
                Some(m) => Some(m * 60),
                None => None,
            },
        }
    }
}

/// How much is logged.
#[derive(Debug, Clone, Copy, PartialEq, Eq, Structural)]
pub enum LogLevel {
    Trace,
    Debug,
    Info,
    Warn,
    Error,
}

/// The level that a name stands for, whatever the case of its letters.
pub open spec fn log_level_named(name: Seq<char>) -> Option<LogLevel> {
    let n = lowercase_of(name);
    if n == "trace"@ {
        Some(LogLevel::Trace)
    } else if n == "debug"@ {
        Some(LogLevel::Debug)
    } else if n == "info"@ {
        Some(LogLevel::Info)
    } else if n == "warn"@ {
        Some(LogLevel::Warn)
    } else if n == "error"@ {
        Some(LogLevel::Error)
    } else {
        None
    }
}

/// The level that a number of the older settings format stands for.
pub open spec fn log_level_numbered(n: u64) -> Option<LogLevel> {
    if n == 1 {
        Some(LogLevel::Trace)
    } else if n == 2 {
        Some(LogLevel::Debug)
    } else if n == 3 {
        Some(LogLevel::Info)
    } else if n == 4 {
        Some(LogLevel::Warn)
    } else if n == 5 {
        Some(LogLevel::Error)
    } else {
        None
    }
}

impl LogLevel {
    /// Reads a level from its name: "trace", "debug", "info", "warn" or "error", in any
    /// case.
    pub fn from_name(name: &str) -> (r: Option<LogLevel>)
        ensures
            r == log_level_named(name@),
    {
        let lower = to_lowercase(name);
        if same_text(lower.as_str(), "trace") {
            Some(LogLevel::Trace)
        } else if same_text(lower.as_str(), "debug") {
            Some(LogLevel::Debug)
        } else if same_text(lower.as_str(), "info") {
            Some(LogLevel::Info)
        } else if same_text(lower.as_str(), "warn") {
            Some(LogLevel::Warn)
        } else if same_text(lower.as_str(), "error") {
            Some(LogLevel::Error)
        } else {
            None
        }
    }

    /// Reads a level from its number in the older settings format: 1 to 5.
    pub fn from_number(n: u64) -> (r: Option<LogLevel>)
        ensures
            r == log_level_numbered(n),
    {
        if n == 1 {
            Some(LogLevel::Trace)
        } else if n == 2 {
            Some(LogLevel::Debug)
        } else if n == 3 {
            Some(LogLevel::Info)
        } else if n == 4 {
            Some(LogLevel::Warn)
        } else if n == 5 {
            Some(LogLevel::Error)
        } else {
            None
        }
    }

    /// The level as a number: 1 for trace up to 5 for error.
    pub fn to_number(self) -> (n: u8)
        ensures
            log_level_numbered(n as u64) == Some(self),
    {
        match self {
            LogLevel::Trace => 1,
            LogLevel::Debug => 2,
            LogLevel::Info => 3,
            LogLevel::Warn => 4,
            LogLevel::Error => 5,
        }
    }
}

/// A keyboard shortcut and what it is for.
#[derive(Debug, Clone)]
pub struct ShortcutBinding {
    pub id: String,
    pub name: String,
    pub description: String,
    pub default_binding: String,
    pub current_binding: String,
}

/// A prompt for rewriting a transcript.
#[derive(Debug, Clone)]
pub struct LLMPrompt {
    pub id: String,
    pub name: String,
    pub prompt: String,
}

/// A service that rewrites transcripts.
#[derive(Debug, Clone)]
pub struct PostProcessProvider {
    pub id: String,
    pub label: String,
    pub base_url: String,
    pub allow_base_url_edit: bool,
    pub models_endpoint: Option<String>,
}

/// Where the overlay is shown.
#[derive(Debug, Clone, Copy, PartialEq, Eq, Structural)]
pub enum OverlayPosition {
    /// No overlay.
    Hidden,
    Top,
    Bottom,
}

/// How the text reaches the focused application.
#[derive(Debug, Clone, Copy, PartialEq, Eq, Structural)]
pub enum PasteMethod {
    CtrlV,
    Direct,
    /// The text is not pasted.
    Disabled,
    ShiftInsert,
    CtrlShiftV,
}

/// What pasting does to the clipboard.
#[derive(Debug, Clone, Copy, PartialEq, Eq, Structural)]
pub enum ClipboardHandling {
    DontModify,
    CopyToClipboard,
}

impl Default for ModelUnloadTimeout {
    fn default() -> (t: Self)
        ensures
            t == ModelUnloadTimeout::Never,
    {
        ModelUnloadTimeout::Never
    }
}

impl Default for ClipboardHandling {
    fn default() -> (c: Self)
        ensures
            c == ClipboardHandling::DontModify,
    {
        ClipboardHandling::DontModify
    }
}

/// The sounds played when a recording starts and stops.
#[derive(Debug, Clone, Copy, PartialEq, Eq, Structural)]
pub enum SoundTheme {
    Marimba,
    Pop,
    Custom,
}

impl SoundTheme {
    /// The theme's name in file names.
    pub open spec fn name(self) -> Seq<char> {
        match self {
            SoundTheme::Marimba => "marimba"@,
            SoundTheme::Pop => "pop"@,
            SoundTheme::Custom => "custom"@,
        }
    }

    fn as_str(&self) -> (s: &'static str)
        ensures
            s@ == self.name(),
    {
        match self {
            SoundTheme::Marimba => "marimba",
            SoundTheme::Pop => "pop",
            SoundTheme::Custom => "custom",
        }
    }

    /// The file of the sound played when a recording starts.
    pub fn to_start_path(&self) -> (p: String)
        ensures
            p@ == "resources/"@ + self.name() + "_start.wav"@,
    {
        let mut p = "resources/".to_owned();
        push_text(&mut p, self.as_str());
        push_text(&mut p, "_start.wav");
        p
    }

    /// The file of the sound played when a recording stops.
    pub fn to_stop_path(&self) -> (p: String)
        ensures
            p@ == "resources/"@ + self.name() + "_stop.wav"@,
    {
        let mut p = "resources/".to_owned();
        push_text(&mut p, self.as_str());
        push_text(&mut p, "_stop.wav");
        p
    }
}

/// Where active listening takes its audio from.
#[derive(Debug, Clone, Copy, PartialEq, Eq, Structural)]
pub enum AudioSourceType {
    /// The microphone alone.
    Microphone,
    /// What the system plays.
    SystemAudio,
    /// Both, mixed.
    Mixed,
}

impl Default for AudioSourceType {
    fn default() -> (s: Self)
        ensures
            s == AudioSourceType::Microphone,
    {
        AudioSourceType::Microphone
    }
}

/// The group that a prompt belongs to.
#[derive(Debug, Clone, Copy, PartialEq, Eq, Structural)]
pub enum PromptCategory {
    NoteTaking,
    MeetingCoach,
    Custom,
}

impl Default for PromptCategory {
    fn default() -> (c: Self)
        ensures
            c == PromptCategory::NoteTaking,
    {
        PromptCategory::NoteTaking
    }
}

/// A prompt template for insights.
#[derive(Debug, Clone)]
pub struct ActiveListeningPrompt {
    pub id: String,
    pub name: String,
    /// May hold `{{transcription}}`, `{{previous_context}}` and `{{session_topic}}`.
    pub prompt_template: String,
    /// Milliseconds since the epoch.
    pub created_at: i64,
    /// Whether the prompt is built in.
    pub is_default: bool,
    pub category: PromptCategory,
}

/// General behaviour of the application.
#[derive(Debug, Clone)]
pub struct GeneralSettings {
    pub push_to_talk: bool,
    pub start_hidden: bool,
    pub autostart_enabled: bool,
    pub update_checks_enabled: bool,
    pub mute_while_recording: bool,
    pub append_trailing_space: bool,
    pub app_language: String,
    pub private_overlay: bool,
}

impl GeneralSettings {
    /// The defaults, for a user interface in `app_language`.
    pub fn with_language(app_language: String) -> (g: GeneralSettings)
        ensures
            g.push_to_talk,
            !g.start_hidden,
            !g.autostart_enabled,
            g.update_checks_enabled,
            !g.mute_while_recording,
            !g.append_trailing_space,
            g.app_language@ == app_language@,
            g.private_overlay,
    {
        GeneralSettings {
            push_to_talk: true,
            start_hidden: false,
            autostart_enabled: false,
            update_checks_enabled: true,
            mute_while_recording: false,
            append_trailing_space: false,
            app_language,
            private_overlay: true,
        }
    }
}

/// A kind of sound around the user.
#[derive(Debug, Clone, Copy, PartialEq, Eq, Structural)]
pub enum SoundCategory {
    Doorbell,
    Alarm,
    PhoneRing,
    DogBark,
    BabyCry,
    Knocking,
    Siren,
    Applause,
}

/// The kinds of sound that are detected unless the user chooses.
pub fn default_categories() -> (c: Vec<SoundCategory>)
    ensures
        c@ == seq![
            SoundCategory::Doorbell,
            SoundCategory::Alarm,
            SoundCategory::PhoneRing,
            SoundCategory::DogBark,
            SoundCategory::BabyCry,
            SoundCategory::Knocking,
            SoundCategory::Siren,
            SoundCategory::Applause,
        ],
{
    let mut c: Vec<SoundCategory> = Vec::new();
    c.push(SoundCategory::Doorbell);
    c.push(SoundCategory::Alarm);
    c.push(SoundCategory::PhoneRing);
    c.push(SoundCategory::DogBark);
    c.push(SoundCategory::BabyCry);
    c.push(SoundCategory::Knocking);
    c.push(SoundCategory::Siren);
    c.push(SoundCategory::Applause);
    assert(c@ =~= seq![
        SoundCategory::Doorbell,
        SoundCategory::Alarm,
        SoundCategory::PhoneRing,
        SoundCategory::DogBark,
        SoundCategory::BabyCry,
        SoundCategory::Knocking,
        SoundCategory::Siren,
        SoundCategory::Applause,
    ]);
    c
}

/// How grave a warning is.
#[derive(Debug, Clone, Copy, PartialEq, Eq, Structural)]
pub enum WarningSeverity {
    Low,
    Medium,
    High,
}

impl Default for WarningSeverity {
    fn default() -> (s: Self)
        ensures
            s == WarningSeverity::Low,
    {
        WarningSeverity::Low
    }
}

/// A ready answer that is suggested when one of its phrases is heard.
#[derive(Debug, Clone)]
pub struct QuickResponse {
    pub id: String,
    pub name: String,
    pub trigger_phrases: Vec<String>,
    pub category: String,
    pub response_template: String,
    pub enabled: bool,
    /// Milliseconds since the epoch.
    pub created_at: i64,
}

pub fn default_always_on_microphone() -> (b: bool)
    ensures
        !b,
{
    false
}

pub fn default_translate_to_english() -> (b: bool)
    ensures
        !b,
{
    false
}

pub fn default_selected_language() -> (s: String)
    ensures
        s@ == "auto"@,
{
    "auto".to_owned()
}

pub fn default_debug_mode() -> (b: bool)
    ensures
        !b,
{
    false
}

pub fn default_log_level() -> (l: LogLevel)
    ensures
        l == LogLevel::Debug,
{
    LogLevel::Debug
}

pub fn default_history_limit() -> (n: usize)
    ensures
        n == 5,
{
    5
}

pub fn default_recording_retention_period() -> (p: RecordingRetentionPeriod)
    ensures
        p == RecordingRetentionPeriod::PreserveLimit,
{
    RecordingRetentionPeriod::PreserveLimit
}

pub fn default_sound_theme() -> (t: SoundTheme)
    ensures
        t == SoundTheme::Marimba,
{
    SoundTheme::Marimba
}

pub fn default_paste_delay_ms() -> (n: u64)
    ensures
        n == 50,
{
    50
}

pub fn default_post_process_enabled() -> (b: bool)
    ensures
        !b,
{
    false
}

pub fn default_post_process_provider_id() -> (s: String)
    ensures
        s@ == "openai"@,
{
    "openai".to_owned()
}

pub fn default_segment_duration_seconds() -> (n: u32)
    ensures
        n == 15,
{
    15
}

pub fn default_ollama_base_url() -> (s: String)
    ensures
        s@ == "http://localhost:11434"@,
{
    "http://localhost:11434".to_owned()
}

pub fn default_ollama_model() -> (s: String)
    ensures
        s@ == Seq::<char>::empty(),
{
    String::new()
}

pub fn default_context_window_size() -> (n: usize)
    ensures
        n == 3,
{
    3
}

pub fn default_system_prompt() -> (s: String)
    ensures
        s@ == "You are a helpful AI assistant. Provide clear, concise, and accurate responses."@,
{
    "You are a helpful AI assistant. Provide clear, concise, and accurate responses.".to_owned()
}

pub fn default_embedding_model() -> (s: String)
    ensures
        s@ == "nomic-embed-text"@,
{
    "nomic-embed-text".to_owned()
}

pub fn default_top_k() -> (n: usize)
    ensures
        n == 3,
{
    3
}

pub fn default_max_suggestions() -> (n: usize)
    ensures
        n == 3,
{
    3
}

pub fn default_display_duration() -> (n: u32)
    ensures
        n == 0,
{
    0
}

/// The id that marks the on-device provider.
pub const APPLE_INTELLIGENCE_PROVIDER_ID: &'static str = "apple_intelligence";

/// The model named for the on-device provider.
pub const APPLE_INTELLIGENCE_DEFAULT_MODEL_ID: &'static str = "Apple Intelligence";

/// The model that a provider starts with: none, but for the on-device provider.
pub fn default_model_for_provider(provider_id: &str) -> (model: String)
    ensures
        model@ == (if provider_id@ == "apple_intelligence"@ {
            "Apple Intelligence"@
        } else {
            Seq::<char>::empty()
        }),
{
    if same_text(provider_id, "apple_intelligence") {
        "Apple Intelligence".to_owned()
    } else {
        String::new()
    }
}

fn provider(id: &str, label: &str, base_url: &str, allow_base_url_edit: bool) -> (p: PostProcessProvider)
    ensures
        p.id@ == id@,
        p.label@ == label@,
        p.base_url@ == base_url@,
        p.allow_base_url_edit == allow_base_url_edit,
        opt_chars(p.models_endpoint) == Some("/models"@),
{
    PostProcessProvider {
        id: id.to_owned(),
        label: label.to_owned(),
        base_url: base_url.to_owned(),
        allow_base_url_edit,
        models_endpoint: Some("/models".to_owned()),
    }
}

/// The ids of `providers`, in order.
pub open spec fn provider_ids(providers: Seq<PostProcessProvider>) -> Seq<Seq<char>> {
    providers.map_values(|p: PostProcessProvider| p.id@)
}

/// The keys that start and stop dictation on `platform`.
pub open spec fn transcribe_keys(platform: Seq<char>) -> Seq<char> {
    if platform == "macos"@ {
        "option+space"@
    } else if platform == "windows"@ || platform == "linux"@ {
        "ctrl+space"@
    } else {
        "alt+space"@
    }
}

/// Whether `b` is the binding `id` with the given name and description, set to `keys`
/// and never changed.
pub open spec fn is_binding(
    b: ShortcutBinding,
    id: Seq<char>,
    name: Seq<char>,
    description: Seq<char>,
    keys: Seq<char>,
) -> bool {
    &&& b.id@ == id
    &&& b.name@ == name
    &&& b.description@ == description
    &&& b.default_binding@ == keys
    &&& b.current_binding@ == keys
}

fn binding(id: &str, name: &str, description: &str, keys: &str) -> (b: ShortcutBinding)
    ensures
        is_binding(b, id@, name@, description@, keys@),
{
    ShortcutBinding {
        id: id.to_owned(),
        name: name.to_owned(),
        description: description.to_owned(),
        default_binding: keys.to_owned(),
        current_binding: keys.to_owned(),
    }
}

/// The shortcuts that the application starts with on `platform` ("macos", "windows",
/// "linux" or anything else): dictation, cancel, active listening, ask, and the
/// overlay's visibility. On macOS the last three use the command key, elsewhere the
/// control key.
pub fn default_bindings(platform: &str) -> (bindings: Vec<ShortcutBinding>)
    ensures
        bindings@.len() == 5,
        is_binding(
            bindings@[0],
            "transcribe"@,
            "Transcribe"@,
            "Converts your speech into text."@,
            transcribe_keys(platform@),
        ),
        is_binding(bindings@[1], "cancel"@, "Cancel"@, "Cancels the current recording."@, "escape"@),
        is_binding(
            bindings@[2],
            "active_listening"@,
            "Active Listening"@,
            "Toggle active listening mode for continuous transcription with AI insights."@,
            if platform@ == "macos"@ {
                "cmd+shift+l"@
            } else {
                "ctrl+shift+l"@
            },
        ),
        is_binding(
            bindings@[3],
            "ask_ai"@,
            "Ask AI"@,
            "Record a voice question and get an AI response using Ollama."@,
            if platform@ == "macos"@ {
                "cmd+shift+a"@
            } else {
                "ctrl+shift+a"@
            },
        ),
        is_binding(
            bindings@[4],
            "toggle_overlay"@,
            "Toggle Overlay"@,
            "Temporarily hide or show the recording overlay."@,
            if platform@ == "macos"@ {
                "cmd+shift+h"@
            } else {
                "ctrl+shift+h"@
            },
        ),
{
    let macos = same_text(platform, "macos");
    let desktop = same_text(platform, "windows") || same_text(platform, "linux");
    let transcribe = if macos {
        "option+space"
    } else if desktop {
        "ctrl+space"
    } else {
        "alt+space"
    };
    let mut bindings: Vec<ShortcutBinding> = Vec::new();
    bindings.push(binding("transcribe", "Transcribe", "Converts your speech into text.", transcribe));
    bindings.push(binding("cancel", "Cancel", "Cancels the current recording.", "escape"));
    bindings.push(
        binding(
            "active_listening",
            "Active Listening",
            "Toggle active listening mode for continuous transcription with AI insights.",
            if macos {
                "cmd+shift+l"
            } else {
                "ctrl+shift+l"
            },
        ),
    );
    bindings.push(
        binding(
            "ask_ai",
            "Ask AI",
            "Record a voice question and get an AI response using Ollama.",
            if macos {
                "cmd+shift+a"
            } else {
                "ctrl+shift+a"
            },
        ),
    );
    bindings.push(
        binding(
            "toggle_overlay",
            "Toggle Overlay",
            "Temporarily hide or show the recording overlay.",
            if macos {
                "cmd+shift+h"
            } else {
                "ctrl+shift+h"
            },
        ),
    );
    bindings
}

/// The ids of the built-in providers.
pub open spec fn default_provider_ids() -> Seq<Seq<char>> {
    seq!["openai"@, "openrouter"@, "anthropic"@, "groq"@, "cerebras"@, "custom"@]
}

/// The built-in providers; the one the user configures comes last, and only its
/// address can be edited.
pub fn default_post_process_providers() -> (providers: Vec<PostProcessProvider>)
    ensures
        provider_ids(providers@) == default_provider_ids(),
        forall|i: int|
            0 <= i < providers@.len() ==> (#[trigger] providers@[i]).allow_base_url_edit == (i == 5),
{
    let mut providers: Vec<PostProcessProvider> = Vec::new();
    providers.push(provider("openai", "OpenAI", "https://api.openai.com/v1", false));
    providers.push(provider("openrouter", "OpenRouter", "https://openrouter.ai/api/v1", false));
    providers.push(provider("anthropic", "Anthropic", "https://api.anthropic.com/v1", false));
    providers.push(provider("groq", "Groq", "https://api.groq.com/openai/v1", false));
    providers.push(provider("cerebras", "Cerebras", "https://api.cerebras.ai/v1", false));
    providers.push(provider("custom", "Custom", "http://localhost:11434/v1", true));
    assert(provider_ids(providers@) =~= default_provider_ids());
    providers
}

/// The built-in rewrite prompt.
pub fn default_post_process_prompts() -> (prompts: Vec<LLMPrompt>)
    ensures
        prompts@.len() == 1,
        prompts@[0].id@ == "default_improve_transcriptions"@,
        prompts@[0].name@ == "Improve Transcriptions"@,
{
    let mut prompts: Vec<LLMPrompt> = Vec::new();
    prompts.push(
        LLMPrompt {
            id: "default_improve_transcriptions".to_owned(),
            name: "Improve Transcriptions".to_owned(),
            prompt: "Clean this transcript:\n1. Fix spelling, capitalization, and punctuation errors\n2. Convert number words to digits (twenty-five \u{2192} 25, ten percent \u{2192} 10%, five dollars \u{2192} $5)\n3. Replace spoken punctuation with symbols (period \u{2192} ., comma \u{2192} ,, question mark \u{2192} ?)\n4. Remove filler words (um, uh, like as filler)\n5. Keep the language in the original version (if it was french, keep it in french for example)\n\nPreserve exact meaning and word order. Do not paraphrase or reorder content.\n\nReturn only the cleaned transcript.\n\nTranscript:\n${output}".to_owned(),
        },
    );
    prompts
}

fn builtin_prompt(id: &str, name: &str, prompt_template: &str, category: PromptCategory) -> (p:
    ActiveListeningPrompt)
    ensures
        p.id@ == id@,
        p.name@ == name@,
        p.prompt_template@ == prompt_template@,
        p.created_at == 0,
        p.is_default,
        p.category == category,
{
    ActiveListeningPrompt {
        id: id.to_owned(),
        name: name.to_owned(),
        prompt_template: prompt_template.to_owned(),
        created_at: 0,
        is_default: true,
        category,
    }
}

/// The ids of `prompts`, in order.
pub open spec fn prompt_ids(prompts: Seq<ActiveListeningPrompt>) -> Seq<Seq<char>> {
    prompts.map_values(|p: ActiveListeningPrompt| p.id@)
}

/// The ids of the built-in insight prompts.
pub open spec fn default_prompt_ids() -> Seq<Seq<char>> {
    seq![
        "default_meeting_notes"@,
        "default_action_items"@,
        "meeting_coach_objection_handler"@,
        "meeting_coach_sales"@,
        "meeting_coach_interview"@,
        "meeting_coach_negotiation"@,
        "meeting_coach_presentation"@,
    ]
}

/// The built-in insight prompts: two for taking notes, then five for coaching.
pub fn default_prompts() -> (prompts: Vec<ActiveListeningPrompt>)
    ensures
        prompt_ids(prompts@) == default_prompt_ids(),
        forall|i: int|
            0 <= i < prompts@.len() ==> (#[trigger] prompts@[i]).is_default && prompts@[i].created_at == 0
                && prompts@[i].category == (if i < 2 {
                PromptCategory::NoteTaking
            } else {
                PromptCategory::MeetingCoach
            }),
{
    let mut prompts: Vec<ActiveListeningPrompt> = Vec::new();
    prompts.push(
        builtin_prompt(
            "default_meeting_notes",
            "Meeting Notes",
            "Analyze this conversation segment and extract key information:\n\nTranscription: {{transcription}}\n\nPrevious context: {{previous_context}}\n\nSession topic: {{session_topic}}\n\nProvide a brief summary including:\n1. Key topics discussed\n2. Any action items or decisions mentioned\n3. Important points to remember\n\nBe concise and focus on the most relevant information.",
            PromptCategory::NoteTaking,
        ),
    );
    prompts.push(
        builtin_prompt(
            "default_action_items",
            "Action Items",
            "Review this conversation segment and identify any action items or tasks:\n\nTranscription: {{transcription}}\n\nPrevious context: {{previous_context}}\n\nSession topic: {{session_topic}}\n\nList any action items mentioned, including:\n- Who is responsible (if mentioned)\n- What needs to be done\n- Any deadlines mentioned\n\nIf no action items are found, briefly note the main topic discussed.",
            PromptCategory::NoteTaking,
        ),
    );
    prompts.push(
        builtin_prompt(
            "meeting_coach_objection_handler",
            "Objection Handler",
            "You are a real-time meeting coach. Analyze this conversation segment:\n\nTranscription: {{transcription}}\nPrevious context: {{previous_context}}\nTopic: {{session_topic}}\n\nIf you detect an objection, concern, or difficult question:\n1. Identify what the objection is\n2. Provide 2-3 persuasive counter-arguments\n3. Suggest a diplomatic response\n\nIf no objection detected, provide a brief insight about the conversation flow.\n\nBe concise - this is real-time assistance. Keep response under 100 words.",
            PromptCategory::MeetingCoach,
        ),
    );
    prompts.push(
        builtin_prompt(
            "meeting_coach_sales",
            "Sales Coach",
            "You are a sales coach providing real-time guidance.\n\nCurrent segment: {{transcription}}\nContext: {{previous_context}}\nDeal/Product: {{session_topic}}\n\nAnalyze and provide:\n- Key buying signals detected\n- Suggested next talking point\n- Warning if conversation going off-track\n- Confidence level assessment\n\nKeep response under 100 words for quick reading.",
            PromptCategory::MeetingCoach,
        ),
    );
    prompts.push(
        builtin_prompt(
            "meeting_coach_interview",
            "Interview Assistant",
            "You are an interview assistant helping evaluate candidates.\n\nSegment: {{transcription}}\nPrevious: {{previous_context}}\nRole/Position: {{session_topic}}\n\nProvide:\n- Follow-up question suggestions based on their response\n- Points to probe deeper\n- Red/green flags detected in answers\n- Brief assessment notes\n\nBe concise for real-time use. Keep response under 100 words.",
            PromptCategory::MeetingCoach,
        ),
    );
    prompts.push(
        builtin_prompt(
            "meeting_coach_negotiation",
            "Negotiation Coach",
            "You are a negotiation coach providing real-time tactical advice.\n\nCurrent segment: {{transcription}}\nContext: {{previous_context}}\nNegotiation subject: {{session_topic}}\n\nAnalyze and provide:\n- Their position and potential interests\n- Leverage points you can use\n- Suggested response or counter-offer approach\n- Warning signs or manipulation tactics detected\n\nKeep response under 100 words for quick reading.",
            PromptCategory::MeetingCoach,
        ),
    );
    prompts.push(
        builtin_prompt(
            "meeting_coach_presentation",
            "Presentation Coach",
            "You are a presentation coach providing real-time feedback.\n\nCurrent segment: {{transcription}}\nContext: {{previous_context}}\nPresentation topic: {{session_topic}}\n\nProvide:\n- Audience engagement assessment\n- Suggested transitions or emphasis points\n- Questions to anticipate\n- Pacing and clarity feedback\n\nKeep response under 100 words for quick reading.",
            PromptCategory::MeetingCoach,
        ),
    );
    assert(prompt_ids(prompts@) =~= default_prompt_ids());
    prompts
}

fn quick_response(id: &str, name: &str, phrases: Vec<String>, category: &str, response_template: &str) -> (q:
    QuickResponse)
    ensures
        q.id@ == id@,
        q.name@ == name@,
        q.trigger_phrases == phrases,
        q.category@ == category@,
        q.response_template@ == response_template@,
        q.enabled,
        q.created_at == 0,
{
    QuickResponse {
        id: id.to_owned(),
        name: name.to_owned(),
        trigger_phrases: phrases,
        category: category.to_owned(),
        response_template: response_template.to_owned(),
        enabled: true,
        created_at: 0,
    }
}

/// The ids of `responses`, in order.
pub open spec fn quick_response_ids(responses: Seq<QuickResponse>) -> Seq<Seq<char>> {
    responses.map_values(|q: QuickResponse| q.id@)
}

/// The ids of the built-in quick responses.
pub open spec fn default_quick_response_ids() -> Seq<Seq<char>> {
    seq![
        "qr_too_expensive"@,
        "qr_competitor_cheaper"@,
        "qr_not_right_time"@,
        "qr_need_to_think"@,
        "qr_check_with_team"@,
        "qr_weakness"@,
        "qr_final_offer"@,
    ]
}

/// The built-in quick responses, all enabled.
pub fn default_quick_responses() -> (responses: Vec<QuickResponse>)
    ensures
        quick_response_ids(responses@) == default_quick_response_ids(),
        forall|i: int|
            0 <= i < responses@.len() ==> (#[trigger] responses@[i]).enabled
                && responses@[i].trigger_phrases@.len() > 0,
{
    let mut responses: Vec<QuickResponse> = Vec::new();
    let mut phrases: Vec<String> = Vec::new();
    phrases.push("too expensive".to_owned());
    phrases.push("costs too much".to_owned());
    phrases.push("over budget".to_owned());
    phrases.push("can't afford".to_owned());
    phrases.push("price is high".to_owned());
    responses.push(
        quick_response(
            "qr_too_expensive",
            "Too Expensive",
            phrases,
            "pricing",
            "I understand budget is a concern. Let me share how our solution delivers ROI that typically exceeds the investment within [X] months. Would it help if I walked you through a cost-benefit analysis?",
        ),
    );
    let mut phrases: Vec<String> = Vec::new();
    phrases.push("competitor is cheaper".to_owned());
    phrases.push("found it cheaper".to_owned());
    phrases.push("lower price elsewhere".to_owned());
    phrases.push("better deal".to_owned());
    responses.push(
        quick_response(
            "qr_competitor_cheaper",
            "Competitor is Cheaper",
            phrases,
            "pricing",
            "That's a fair point. While price is important, let me highlight what's included in our offering that provides additional value: [key differentiators]. Would you like to compare feature-by-feature?",
        ),
    );
    let mut phrases: Vec<String> = Vec::new();
    phrases.push("not the right time".to_owned());
    phrases.push("bad timing".to_owned());
    phrases.push("maybe later".to_owned());
    phrases.push("need to wait".to_owned());
    phrases.push("not ready yet".to_owned());
    responses.push(
        quick_response(
            "qr_not_right_time",
            "Not the Right Time",
            phrases,
            "timing",
            "I appreciate your honesty. What would need to change for this to become a priority? Understanding your timeline helps me provide relevant information when you're ready.",
        ),
    );
    let mut phrases: Vec<String> = Vec::new();
    phrases.push("need to think about it".to_owned());
    phrases.push("let me think".to_owned());
    phrases.push("have to consider".to_owned());
    phrases.push("sleep on it".to_owned());
    responses.push(
        quick_response(
            "qr_need_to_think",
            "Need to Think About It",
            phrases,
            "trust",
            "Absolutely, this is an important decision. What specific aspects would you like to think through? I'm happy to provide additional information that might help with your evaluation.",
        ),
    );
    let mut phrases: Vec<String> = Vec::new();
    phrases.push("check with my team".to_owned());
    phrases.push("need approval".to_owned());
    phrases.push("talk to my boss".to_owned());
    phrases.push("discuss internally".to_owned());
    phrases.push("get buy-in".to_owned());
    responses.push(
        quick_response(
            "qr_check_with_team",
            "Need to Check with Team",
            phrases,
            "authority",
            "That makes sense - getting team alignment is crucial. Would it help if I prepared a summary document you could share? I could also join a follow-up call with the key stakeholders.",
        ),
    );
    let mut phrases: Vec<String> = Vec::new();
    phrases.push("what is your weakness".to_owned());
    phrases.push("biggest weakness".to_owned());
    phrases.push("area to improve".to_owned());
    phrases.push("development area".to_owned());
    responses.push(
        quick_response(
            "qr_weakness",
            "Weakness Question",
            phrases,
            "interview",
            "A genuine area I've been working on is [specific skill]. I've addressed this by [concrete steps taken], and I've seen improvement in [measurable outcome].",
        ),
    );
    let mut phrases: Vec<String> = Vec::new();
    phrases.push("final offer".to_owned());
    phrases.push("best price".to_owned());
    phrases.push("lowest you can go".to_owned());
    phrases.push("any flexibility".to_owned());
    responses.push(
        quick_response(
            "qr_final_offer",
            "Is This Your Final Offer",
            phrases,
            "negotiation",
            "I appreciate you asking directly. Before discussing pricing flexibility, I want to make sure I understand all your requirements. Are there any additional needs we haven't covered that could affect the scope?",
        ),
    );
    assert(quick_response_ids(responses@) =~= default_quick_response_ids());
    responses
}

} // verus!
