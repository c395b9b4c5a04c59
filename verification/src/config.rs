//! Configuration records of the dictation tool.
use vstd::prelude::*;
use crate::paths::path_join;
use crate::text_map::TextMap;

verus! {

broadcast use vstd::string::group_string_axioms;

/// A single hotkey binding.
#[derive(Debug, Clone)]
pub struct HotkeyBinding {
    /// The key for this binding (e.g., "q", "e", "r")
    pub key: String,
    /// Prompt to use for LLM processing (None = raw transcription)
    pub prompt: Option<String>,
    /// Enable OCR screen capture for context
    pub ocr: bool,
    /// Enable GUI conversation mode
    pub gui: bool,
}

/// The mathematical content of a [`HotkeyBinding`].
pub struct HotkeyBindingView {
    pub key: Seq<char>,
    pub prompt: Option<Seq<char>>,
    pub ocr: bool,
    pub gui: bool,
}

/// The characters of an optional string.
pub open spec fn opt_view(o: Option<String>) -> Option<Seq<char>> {
    match o {
        Some(s) => Some(s@),
        None => None,
    }
}

impl View for HotkeyBinding {
    type V = HotkeyBindingView;

    open spec fn view(&self) -> HotkeyBindingView {
        HotkeyBindingView { key: self.key@, prompt: opt_view(self.prompt), ocr: self.ocr, gui: self.gui }
    }
}

/// Copies an optional string.
pub fn clone_opt_string(o: &Option<String>) -> (r: Option<String>)
    ensures
        opt_view(r) == opt_view(*o),
{
    match o {
        Some(s) => Some(s.clone()),
        None => None,
    }
}

/// Whether two optional strings hold the same characters.
pub fn opt_string_eq(a: &Option<String>, b: &Option<String>) -> (r: bool)
    ensures
        r == (opt_view(*a) == opt_view(*b)),
{
    match (a, b) {
        (Some(x), Some(y)) => *x == *y,
        (None, None) => true,
        _ => false,
    }
}

impl HotkeyBinding {
    /// Copies a binding, keeping every field.
    pub(crate) fn duplicate(&self) -> (r: HotkeyBinding)
        ensures
            r@ == self@,
    {
        HotkeyBinding {
            key: self.key.clone(),
            prompt: clone_opt_string(&self.prompt),
            ocr: self.ocr,
            gui: self.gui,
        }
    }
}


/// The user's configuration directory as the `dirs` crate finds it (`$XDG_CONFIG_HOME` or
/// `$HOME/.config` on Linux), as text; `None` when it cannot be determined. It depends on the
/// environment, so nothing is stated of it.
#[verifier::external_body]
pub(crate) fn config_dir() -> Option<String> {
    dirs::config_dir().map(|d| d.to_string_lossy().to_string())
}

/// The tool's configuration directory given the user's configuration directory.
pub open spec fn tool_dir(base: Option<Seq<char>>) -> Seq<char> {
    match base {
        Some(b) => path_join(b, "transcribe-rs"@),
        None => "/tmp/transcribe-rs"@,
    }
}

/// The tool's configuration directory: `transcribe-rs` under the user's configuration
/// directory, or `/tmp/transcribe-rs` when that is unknown.
pub fn tool_config_dir(base: Option<String>) -> (r: String)
    ensures
        r@ == tool_dir(opt_view(base)),
{
    match base {
        Some(b) => crate::paths::join_path(b.as_str(), "transcribe-rs"),
        None => "/tmp/transcribe-rs".to_string(),
    }
}

/// The tool's configuration directory in the current environment.
pub fn current_tool_config_dir() -> (r: String)
    ensures
        exists|base: Option<Seq<char>>| r@ == tool_dir(base),
{
    let base = config_dir();
    tool_config_dir(base)
}

/// The directory of the prompt files: `transcribe-rs/prompts` under the user's configuration
/// directory; an error when that directory cannot be determined.
pub fn prompts_dir() -> (r: Result<String, String>)
    ensures
        match r {
            Ok(p) => exists|base: Seq<char>| p@ == path_join(path_join(base, "transcribe-rs"@), "prompts"@),
            Err(e) => e@ == "Could not find config directory"@,
        },
{
    match config_dir() {
        Some(base) => {
            let tool = crate::paths::join_path(base.as_str(), "transcribe-rs");
            Ok(crate::paths::join_path(tool.as_str(), "prompts"))
        },
        None => Err("Could not find config directory".to_string()),
    }
}

/// The file of the prompt `name` in the prompts directory: `name.md` there.
pub fn prompt_file(prompts_dir: &str, name: &str) -> (r: String)
    ensures
        r@ == path_join(prompts_dir@, name@ + ".md"@),
{
    let file = crate::text::concat(name, ".md");
    crate::paths::join_path(prompts_dir, file.as_str())
}

/// Strings holding the given texts, in order.
fn strings(items: &[&str]) -> (r: Vec<String>)
    ensures
        r@.len() == items@.len(),
        forall|i: int| 0 <= i < items@.len() ==> #[trigger] r@[i]@ == items@[i]@,
{
    let mut r: Vec<String> = Vec::new();
    let mut i: usize = 0;
    while i < items.len()
        invariant
            i <= items.len(),
            r@.len() == i,
            forall|j: int| 0 <= j < i ==> #[trigger] r@[j]@ == items@[j]@,
        decreases items.len() - i,
    {
        r.push(items[i].to_string());
        i += 1;
    }
    r
}

/// Audio recording configuration.
#[derive(Debug, Clone)]
pub struct AudioConfig {
    /// PulseAudio/ALSA microphone source (use "default" for system default)
    pub microphone: String,
    /// Sample rate in Hz (must be 16000 for current models)
    pub sample_rate: u32,
    /// Path where recordings are saved
    pub recording_path: String,
    /// Path where recording PID is stored
    pub recording_pid_file: String,
    /// Path where debug logs are written
    pub log_file: String,
}

impl Default for AudioConfig {
    fn default() -> (c: AudioConfig)
        ensures
            c.microphone@ == "default"@,
            c.sample_rate == 16000,
            c.recording_path@ == "/tmp/ptt_current.wav"@,
            c.recording_pid_file@ == "/tmp/ptt_recording.pid"@,
            c.log_file@ == "/tmp/ptt_rust_debug.log"@,
    {
        AudioConfig {
            microphone: "default".to_string(),
            sample_rate: 16000,
            recording_path: "/tmp/ptt_current.wav".to_string(),
            recording_pid_file: "/tmp/ptt_recording.pid".to_string(),
            log_file: "/tmp/ptt_rust_debug.log".to_string(),
        }
    }
}

/// Model configuration.
#[derive(Debug, Clone)]
pub struct ModelConfig {
    /// Path to the model directory or file
    pub path: String,
    /// Engine to use: "parakeet" or "whisper"
    pub engine: String,
    /// Quantization: "int8" or "fp32" (parakeet only)
    pub quantization: String,
}

impl Default for ModelConfig {
    fn default() -> (c: ModelConfig)
        ensures
            c.path@ == "models/parakeet-tdt-0.6b-v3-int8"@,
            c.engine@ == "parakeet"@,
            c.quantization@ == "int8"@,
    {
        ModelConfig {
            path: "models/parakeet-tdt-0.6b-v3-int8".to_string(),
            engine: "parakeet".to_string(),
            quantization: "int8".to_string(),
        }
    }
}

/// Daemon configuration.
#[derive(Debug, Clone)]
pub struct DaemonConfig {
    /// Unix socket path for daemon communication
    pub socket_path: String,
}

impl Default for DaemonConfig {
    fn default() -> (c: DaemonConfig)
        ensures
            c.socket_path@ == "/tmp/transcribe-rs-v2.sock"@,
    {
        DaemonConfig { socket_path: "/tmp/transcribe-rs-v2.sock".to_string() }
    }
}

/// Desktop integration configuration.
#[derive(Debug, Clone)]
pub struct IntegrationConfig {
    /// Automatically paste transcription into active window
    pub auto_paste: bool,
    /// Restore original clipboard content after pasting (preserve user's clipboard)
    pub prevent_clipboard_pollution: bool,
    /// Add space after sentence-ending punctuation (.!?)
    pub add_space_after_punctuation: bool,
    /// List of terminal application classes (for Ctrl+Shift+V vs Ctrl+V)
    pub terminal_apps: Vec<String>,
}

/// Value of configuration flags that default to on when absent.
pub fn default_true() -> (b: bool)
    ensures
        b,
{
    true
}

impl Default for IntegrationConfig {
    fn default() -> (c: IntegrationConfig)
        ensures
            c.auto_paste,
            c.prevent_clipboard_pollution,
            c.add_space_after_punctuation,
            c.terminal_apps@.map_values(|s: String| s@) == crate::terminal_detect::terminal_apps(),
    {
        let apps = strings(
            &[
                "alacritty", "kitty", "wezterm", "foot", "terminal", "konsole",
                "terminator", "xterm", "urxvt", "st", "code",
            ],
        );
        proof {
            assert(apps@.map_values(|s: String| s@) =~= crate::terminal_detect::terminal_apps());
        }
        IntegrationConfig {
            auto_paste: true,
            prevent_clipboard_pollution: true,
            add_space_after_punctuation: true,
            terminal_apps: apps,
        }
    }
}

/// Transcription error corrections (phonetic/acoustic fixes).
#[derive(Debug, Clone)]
pub struct TranscriptionCorrectionsConfig {
    /// Enable transcription corrections
    pub enabled: bool,
    /// Path to corrections file (JSON with from/to rules)
    pub corrections_file: String,
}

impl TranscriptionCorrectionsConfig {
    /// The defaults, with files under the configuration directory `dir`.
    pub fn default_in(dir: &str) -> (c: TranscriptionCorrectionsConfig)
        ensures
            c.enabled,
            c.corrections_file@ == path_join(dir@, "transcription_corrections.json"@),
    {
        TranscriptionCorrectionsConfig {
            enabled: true,
            corrections_file: crate::paths::join_path(dir, "transcription_corrections.json"),
        }
    }
}

impl Default for TranscriptionCorrectionsConfig {
    fn default() -> (c: TranscriptionCorrectionsConfig)
        ensures
            c.enabled,
            exists|base: Option<Seq<char>>| c.corrections_file@ == path_join(tool_dir(base), "transcription_corrections.json"@),
    {
        let dir = current_tool_config_dir();
        Self::default_in(dir.as_str())
    }
}

/// Dictation logging configuration.
#[derive(Debug, Clone)]
pub struct DictationLoggingConfig {
    /// Master toggle for all dictation logging
    pub enabled: bool,
    /// Enable logging for non-LLM dictations
    pub basic_log_enabled: bool,
    /// Enable logging for LLM-processed dictations
    pub llm_log_enabled: bool,
    /// Path to basic dictation log (CSV format)
    pub basic_log_path: String,
    /// Path to LLM corrections log (CSV format)
    pub llm_log_path: String,
}

impl DictationLoggingConfig {
    /// The defaults (logging off for privacy), with logs under the configuration directory `dir`.
    pub fn default_in(dir: &str) -> (c: DictationLoggingConfig)
        ensures
            !c.enabled,
            c.basic_log_enabled,
            c.llm_log_enabled,
            c.basic_log_path@ == path_join(dir@, "dictation_log.csv"@),
            c.llm_log_path@ == path_join(dir@, "llm_corrections_log.csv"@),
    {
        DictationLoggingConfig {
            enabled: false,
            basic_log_enabled: true,
            llm_log_enabled: true,
            basic_log_path: crate::paths::join_path(dir, "dictation_log.csv"),
            llm_log_path: crate::paths::join_path(dir, "llm_corrections_log.csv"),
        }
    }
}

impl Default for DictationLoggingConfig {
    fn default() -> (c: DictationLoggingConfig)
        ensures
            !c.enabled,
            c.basic_log_enabled,
            c.llm_log_enabled,
            exists|base: Option<Seq<char>>| {
                &&& c.basic_log_path@ == path_join(tool_dir(base), "dictation_log.csv"@)
                &&& c.llm_log_path@ == path_join(tool_dir(base), "llm_corrections_log.csv"@)
            },
    {
        let dir = current_tool_config_dir();
        Self::default_in(dir.as_str())
    }
}

/// LLM conversation history configuration.
#[derive(Debug, Clone)]
pub struct LlmConfig {
    /// Enable conversation history for multi-turn conversations
    pub conversation_history_enabled: bool,
    /// Prompt names that keep conversation history
    pub conversation_history_prompts: Vec<String>,
    /// Word that, spoken alone, clears the conversation history
    pub conversation_history_clear_word: String,
    /// How many minutes of history to include
    pub conversation_history_minutes: u32,
    /// Maximum number of turns (user+assistant pairs) to include
    pub conversation_max_turns: usize,
    /// Directory for storing history files
    pub conversation_history_dir: String,
    /// Named tool sets - each set is a list of tool names
    pub tool_sets: TextMap<Vec<String>>,
    /// Map prompt names to tool set names
    pub prompt_tool_mapping: TextMap<String>,
    /// Enable file chat mode (write Q&A to markdown files instead of clipboard)
    pub file_chat_enabled: bool,
    /// Directory where file chat markdown files are stored
    pub file_chat_dir: String,
}

/// The default tool tables: tool sets `none` and `all`, both empty; the prompt `ask` mapped to
/// `none` and `clean` to `all`.
pub open spec fn default_tool_tables(c: LlmConfig) -> bool {
    &&& c.tool_sets@.dom() == set!["none"@, "all"@]
    &&& c.tool_sets@["none"@]@.len() == 0
    &&& c.tool_sets@["all"@]@.len() == 0
    &&& c.prompt_tool_mapping@.dom() == set!["ask"@, "clean"@]
    &&& c.prompt_tool_mapping@["ask"@]@ == "none"@
    &&& c.prompt_tool_mapping@["clean"@]@ == "all"@
}

impl LlmConfig {
    /// The defaults, with chats under the configuration directory `dir`: history kept for the
    /// `ask` prompt, cleared by "clear", five minutes and ten turns in `/tmp`, and the default
    /// tool tables.
    pub fn default_in(dir: &str) -> (c: LlmConfig)
        ensures
            default_tool_tables(c),
            c.conversation_history_enabled,
            c.conversation_history_prompts@.len() == 1,
            c.conversation_history_prompts@[0]@ == "ask"@,
            c.conversation_history_clear_word@ == "clear"@,
            c.conversation_history_minutes == 5,
            c.conversation_max_turns == 10,
            c.conversation_history_dir@ == "/tmp"@,
            c.file_chat_enabled,
            c.file_chat_dir@ == path_join(dir@, "chats"@),
    {
        proof {
            reveal_strlit("none");
            reveal_strlit("all");
            reveal_strlit("ask");
            reveal_strlit("clean");
            assert("none"@.len() == 4 && "all"@.len() == 3);
            assert("ask"@.len() == 3 && "clean"@.len() == 5);
        }
        let no_tools: Vec<String> = Vec::new();
        let all_tools: Vec<String> = Vec::new();
        let mut tool_sets: TextMap<Vec<String>> = TextMap::new();
        tool_sets.insert("none".to_string(), no_tools);
        tool_sets.insert("all".to_string(), all_tools);
        let mut prompt_tool_mapping: TextMap<String> = TextMap::new();
        prompt_tool_mapping.insert("ask".to_string(), "none".to_string());
        prompt_tool_mapping.insert("clean".to_string(), "all".to_string());
        assert(tool_sets@.dom() =~= set!["none"@, "all"@]);
        assert(prompt_tool_mapping@.dom() =~= set!["ask"@, "clean"@]);
        let mut prompts: Vec<String> = Vec::new();
        prompts.push("ask".to_string());
        LlmConfig {
            conversation_history_enabled: true,
            conversation_history_prompts: prompts,
            conversation_history_clear_word: "clear".to_string(),
            conversation_history_minutes: 5,
            conversation_max_turns: 10,
            conversation_history_dir: "/tmp".to_string(),
            tool_sets,
            prompt_tool_mapping,
            file_chat_enabled: true,
            file_chat_dir: crate::paths::join_path(dir, "chats"),
        }
    }
}

impl Default for LlmConfig {
    fn default() -> (c: LlmConfig)
        ensures
            default_tool_tables(c),
            c.conversation_history_enabled,
            c.conversation_history_prompts@.len() == 1,
            c.conversation_history_prompts@[0]@ == "ask"@,
            c.conversation_history_clear_word@ == "clear"@,
            c.conversation_history_minutes == 5,
            c.conversation_max_turns == 10,
            c.conversation_history_dir@ == "/tmp"@,
            c.file_chat_enabled,
            exists|base: Option<Seq<char>>| c.file_chat_dir@ == path_join(tool_dir(base), "chats"@),
    {
        let dir = current_tool_config_dir();
        Self::default_in(dir.as_str())
    }
}

/// OCR configuration for screen context capture.
#[derive(Debug, Clone)]
pub struct OcrConfig {
    /// Language code for Tesseract (e.g., "eng", "fra", "deu")
    pub language: String,
    /// DPI for OCR processing (higher = more accurate but slower)
    pub dpi: u32,
    /// Path for temporary screenshot storage
    pub screenshot_path: String,
    /// Path for OCR result storage
    pub result_path: String,
}

impl Default for OcrConfig {
    fn default() -> (c: OcrConfig)
        ensures
            c.language@ == "eng"@,
            c.dpi == 300,
            c.screenshot_path@ == "/tmp/ptt_ocr_screenshot.png"@,
            c.result_path@ == "/tmp/ptt_ocr_result.txt"@,
    {
        OcrConfig {
            language: "eng".to_string(),
            dpi: 300,
            screenshot_path: "/tmp/ptt_ocr_screenshot.png".to_string(),
            result_path: "/tmp/ptt_ocr_result.txt".to_string(),
        }
    }
}

/// Watch directory configuration for automatic transcription.
#[derive(Debug, Clone)]
pub struct WatchConfig {
    /// Enable directory watching
    pub enabled: bool,
    /// Directory to watch for new audio files
    pub watch_dir: String,
    /// Output directory for transcription text files (defaults to watch_dir if not set)
    pub output_dir: Option<String>,
    /// Supported audio file extensions (without dot)
    pub extensions: Vec<String>,
    /// Debounce duration in milliseconds (wait for file write to complete)
    pub debounce_ms: u64,
    /// Scan for existing files on startup
    pub scan_existing: bool,
}

/// The audio extensions watched by default.
pub open spec fn default_extensions() -> Seq<Seq<char>> {
    seq!["wav"@, "m4a"@, "mp3"@, "ogg"@, "flac"@, "webm"@]
}

impl WatchConfig {
    /// The defaults (watching off), watching `watch` under the configuration directory `dir`.
    pub fn default_in(dir: &str) -> (c: WatchConfig)
        ensures
            !c.enabled,
            c.watch_dir@ == path_join(dir@, "watch"@),
            c.output_dir is None,
            c.extensions@.map_values(|s: String| s@) == default_extensions(),
            c.debounce_ms == 1000,
            c.scan_existing,
    {
        let extensions = strings(&["wav", "m4a", "mp3", "ogg", "flac", "webm"]);
        proof {
            assert(extensions@.map_values(|s: String| s@) =~= default_extensions());
        }
        WatchConfig {
            enabled: false,
            watch_dir: crate::paths::join_path(dir, "watch"),
            output_dir: None,
            extensions,
            debounce_ms: 1000,
            scan_existing: true,
        }
    }
}

impl Default for WatchConfig {
    fn default() -> (c: WatchConfig)
        ensures
            !c.enabled,
            exists|base: Option<Seq<char>>| c.watch_dir@ == path_join(tool_dir(base), "watch"@),
            c.output_dir is None,
            c.extensions@.map_values(|s: String| s@) == default_extensions(),
            c.debounce_ms == 1000,
            c.scan_existing,
    {
        let dir = current_tool_config_dir();
        Self::default_in(dir.as_str())
    }
}

/// Hotkey daemon configuration.
#[derive(Debug, Clone)]
pub struct HotkeyConfig {
    /// Modifier keys for all hotkeys (e.g., ["super", "shift", "ctrl", "alt"])
    pub modifiers: Vec<String>,
    /// Threshold in milliseconds to distinguish tap from hold
    pub tap_threshold_ms: u64,
    /// List of hotkey bindings
    pub bindings: Vec<HotkeyBinding>,
}

/// A binding as a view, from its parts.
pub open spec fn binding_view(key: Seq<char>, prompt: Option<Seq<char>>, ocr: bool, gui: bool) -> HotkeyBindingView {
    HotkeyBindingView { key, prompt, ocr, gui }
}

/// The default hotkeys: q cleans, e gives the raw text, w asks, r reads the screen, t opens
/// the conversation window.
pub open spec fn default_bindings() -> Seq<HotkeyBindingView> {
    seq![
        binding_view("q"@, Some("clean"@), false, false),
        binding_view("e"@, None, false, false),
        binding_view("w"@, Some("ask"@), false, false),
        binding_view("r"@, Some("ocr"@), true, false),
        binding_view("t"@, None, false, true),
    ]
}

/// A binding with the given key and prompt.
fn binding(key: &str, prompt: Option<&str>, ocr: bool, gui: bool) -> (b: HotkeyBinding)
    ensures
        b@ == binding_view(key@, match prompt { Some(p) => Some(p@), None => None }, ocr, gui),
{
    HotkeyBinding {
        key: key.to_string(),
        prompt: match prompt {
            Some(p) => Some(p.to_string()),
            None => None,
        },
        ocr,
        gui,
    }
}

impl Default for HotkeyConfig {
    fn default() -> (c: HotkeyConfig)
        ensures
            c.modifiers@.map_values(|s: String| s@) == seq!["super"@, "shift"@, "ctrl"@, "alt"@],
            c.tap_threshold_ms == 700,
            c.bindings@.map_values(|b: HotkeyBinding| b@) == default_bindings(),
    {
        let modifiers = strings(&["super", "shift", "ctrl", "alt"]);
        let mut bindings: Vec<HotkeyBinding> = Vec::new();
        bindings.push(binding("q", Some("clean"), false, false));
        bindings.push(binding("e", None, false, false));
        bindings.push(binding("w", Some("ask"), false, false));
        bindings.push(binding("r", Some("ocr"), true, false));
        bindings.push(binding("t", None, false, true));
        proof {
            assert(modifiers@.map_values(|s: String| s@) =~= seq!["super"@, "shift"@, "ctrl"@, "alt"@]);
            assert(bindings@.map_values(|b: HotkeyBinding| b@) =~= default_bindings());
        }
        HotkeyConfig { modifiers, tap_threshold_ms: 700, bindings }
    }
}

/// Transcription provider configuration.
#[derive(Debug, Clone)]
pub struct TranscriptionConfig {
    /// Transcription provider: "local" (uses transcribe-daemon) or "groq" (uses Groq API)
    pub provider: String,
    /// Groq model to use (whisper-large-v3, whisper-large-v3-turbo, distil-whisper-large-v3-en)
    pub groq_model: String,
    /// Language hint for Groq (ISO-639-1 code like "en", "de"). Empty for auto-detect.
    pub groq_language: String,
}

impl Default for TranscriptionConfig {
    fn default() -> (c: TranscriptionConfig)
        ensures
            c.provider@ == "local"@,
            c.groq_model@ == "whisper-large-v3-turbo"@,
            c.groq_language@ == Seq::<char>::empty(),
    {
        TranscriptionConfig {
            provider: "local".to_string(),
            groq_model: "whisper-large-v3-turbo".to_string(),
            groq_language: String::new(),
        }
    }
}

} // verus!
