//! Application settings: kinds, defaults and validation.
use vstd::prelude::*;
use vstd::string::StringExecFns;
use crate::chars::{
    chars_of, is_alnum, is_alpha, is_ascii_alphabetic, is_ascii_alphanumeric, is_blank, seq_eq,
    trim, trim_chars,
};
use crate::error::{AppError, AppResult};

verus! {

pub const MAX_RECORDING_DURATION_SECS: u64 = 120;

#[derive(Debug, Clone, Copy, PartialEq, Eq, Structural)]
pub enum ProviderKind {
    OpenAi,
    Xai,
    OpenRouter,
}

#[derive(Debug, Clone, Copy, PartialEq, Eq, Structural)]
pub enum TranscriptionMode {
    BatchPtt,
    RealtimePtt,
    ContinuousDictation,
}

#[derive(Debug, Clone, Copy, PartialEq, Eq, Structural)]
pub enum OpenAiTranscriptionDelay {
    Minimal,
    Low,
    Medium,
    High,
    XHigh,
}

pub open spec fn delay_api_text(d: OpenAiTranscriptionDelay) -> Seq<char> {
    match d {
        OpenAiTranscriptionDelay::Minimal => "minimal"@,
        OpenAiTranscriptionDelay::Low => "low"@,
        OpenAiTranscriptionDelay::Medium => "medium"@,
        OpenAiTranscriptionDelay::High => "high"@,
        OpenAiTranscriptionDelay::XHigh => "xhigh"@,
    }
}

impl OpenAiTranscriptionDelay {
    /// The value that the OpenAI realtime API expects for this delay.
    pub fn as_api_str(self) -> (s: &'static str)
        ensures
            s@ == delay_api_text(self),
    {
        match self {
            OpenAiTranscriptionDelay::Minimal => "minimal",
            OpenAiTranscriptionDelay::Low => "low",
            OpenAiTranscriptionDelay::Medium => "medium",
            OpenAiTranscriptionDelay::High => "high",
            OpenAiTranscriptionDelay::XHigh => "xhigh",
        }
    }

    pub fn label(self) -> (s: &'static str)
        ensures
            s@ == delay_api_text(self),
    {
        self.as_api_str()
    }

    pub fn default() -> (d: OpenAiTranscriptionDelay)
        ensures
            d == OpenAiTranscriptionDelay::Medium,
    {
        OpenAiTranscriptionDelay::Medium
    }
}

pub open spec fn mode_label_text(m: TranscriptionMode) -> Seq<char> {
    match m {
        TranscriptionMode::BatchPtt => "Batch / PTT"@,
        TranscriptionMode::RealtimePtt => "Realtime PTT"@,
        TranscriptionMode::ContinuousDictation => "Continuous Dictation"@,
    }
}

impl TranscriptionMode {
    pub fn label(self) -> (s: &'static str)
        ensures
            s@ == mode_label_text(self),
    {
        match self {
            TranscriptionMode::BatchPtt => "Batch / PTT",
            TranscriptionMode::RealtimePtt => "Realtime PTT",
            TranscriptionMode::ContinuousDictation => "Continuous Dictation",
        }
    }

    /// Every mode but batch push-to-talk streams audio while it is captured.
    pub fn is_realtime(self) -> (b: bool)
        ensures
            b == (self != TranscriptionMode::BatchPtt),
    {
        !matches!(self, TranscriptionMode::BatchPtt)
    }
}

#[derive(Debug, Clone, Copy, PartialEq, Eq, Structural)]
pub enum ChineseVariant {
    Preserve,
    Traditional,
    Simplified,
}

pub open spec fn variant_label_text(v: ChineseVariant) -> Seq<char> {
    match v {
        ChineseVariant::Preserve => "保留原文"@,
        ChineseVariant::Traditional => "台灣繁體"@,
        ChineseVariant::Simplified => "簡體中文"@,
    }
}

impl ChineseVariant {
    pub fn label(self) -> (s: &'static str)
        ensures
            s@ == variant_label_text(self),
    {
        match self {
            ChineseVariant::Preserve => "保留原文",
            ChineseVariant::Traditional => "台灣繁體",
            ChineseVariant::Simplified => "簡體中文",
        }
    }
}

pub open spec fn provider_label_text(p: ProviderKind) -> Seq<char> {
    match p {
        ProviderKind::OpenAi => "OpenAI"@,
        ProviderKind::Xai => "xAI"@,
        ProviderKind::OpenRouter => "OpenRouter"@,
    }
}

impl ProviderKind {
    pub fn label(self) -> (s: &'static str)
        ensures
            s@ == provider_label_text(self),
    {
        match self {
            ProviderKind::OpenAi => "OpenAI",
            ProviderKind::Xai => "xAI",
            ProviderKind::OpenRouter => "OpenRouter",
        }
    }
}

/// A literal replacement applied once, left to right, to every transcript.
#[derive(Debug, Clone)]
pub struct DictionaryEntry {
    pub source: String,
    pub replacement: String,
}

/// What a spoken command does when the whole transcript equals its phrase.
#[derive(Debug, Clone)]
pub enum VoiceCommandAction {
    InsertText { text: String },
    CopyOnly { text: String },
    Discard,
}

#[derive(Debug, Clone)]
pub struct VoiceCommand {
    pub phrase: String,
    pub action: VoiceCommandAction,
}

#[derive(Debug, Clone)]
pub struct TextProcessingConfig {
    pub normalize_chinese_punctuation: bool,
    pub chinese_variant: ChineseVariant,
    pub dictionary: Vec<DictionaryEntry>,
    pub voice_commands_enabled: bool,
    pub voice_commands: Vec<VoiceCommand>,
}

impl TextProcessingConfig {
    pub fn default() -> (c: TextProcessingConfig)
        ensures
            c.normalize_chinese_punctuation,
            c.chinese_variant == ChineseVariant::Preserve,
            c.dictionary@.len() == 0,
            !c.voice_commands_enabled,
            c.voice_commands@.len() == 0,
    {
        TextProcessingConfig {
            normalize_chinese_punctuation: true,
            chinese_variant: ChineseVariant::Preserve,
            dictionary: Vec::new(),
            voice_commands_enabled: false,
            voice_commands: Vec::new(),
        }
    }
}


#[derive(Debug, Clone)]
pub struct OpenAiConfig {
    pub base_url: String,
    pub model: String,
    pub api_key_env: String,
}

impl OpenAiConfig {
    pub fn default() -> (c: OpenAiConfig)
        ensures
            c.base_url@ == "https://api.openai.com"@,
            c.model@ == "gpt-4o-mini-transcribe"@,
            c.api_key_env@ == "OPENAI_API_KEY"@,
    {
        OpenAiConfig {
            base_url: String::from_str("https://api.openai.com"),
            model: String::from_str("gpt-4o-mini-transcribe"),
            api_key_env: String::from_str("OPENAI_API_KEY"),
        }
    }
}

#[derive(Debug, Clone)]
pub struct XaiConfig {
    pub base_url: String,
    pub api_key_env: String,
    pub format_text: bool,
    pub keyterms: Vec<String>,
}

impl XaiConfig {
    pub fn default() -> (c: XaiConfig)
        ensures
            c.base_url@ == "https://api.x.ai"@,
            c.api_key_env@ == "XAI_API_KEY"@,
            c.format_text,
            c.keyterms@.len() == 0,
    {
        XaiConfig {
            base_url: String::from_str("https://api.x.ai"),
            api_key_env: String::from_str("XAI_API_KEY"),
            format_text: true,
            keyterms: Vec::new(),
        }
    }
}

#[derive(Debug, Clone)]
pub struct OpenRouterConfig {
    pub base_url: String,
    pub model: String,
    pub api_key_env: String,
}

impl OpenRouterConfig {
    pub fn default() -> (c: OpenRouterConfig)
        ensures
            c.base_url@ == "https://openrouter.ai/api"@,
            c.model@ == "openai/gpt-4o-mini-transcribe"@,
            c.api_key_env@ == "OPENROUTER_API_KEY"@,
    {
        OpenRouterConfig {
            base_url: String::from_str("https://openrouter.ai/api"),
            model: String::from_str("openai/gpt-4o-mini-transcribe"),
            api_key_env: String::from_str("OPENROUTER_API_KEY"),
        }
    }
}

/// Bit pattern of the `f32` value 1.0.
pub const F32_ONE_BITS: u32 = 0x3F80_0000;

/// Bit pattern of the `f32` value 0.001.
pub const F32_ONE_THOUSANDTH_BITS: u32 = 0x3A83_126F;

/// Bit pattern of the `f32` value -0.0.
pub const F32_NEGATIVE_ZERO_BITS: u32 = 0x8000_0000;

/// The IEEE-754 single-precision value with these bits is a NaN.
pub open spec fn f32_is_nan(bits: u32) -> bool {
    let exponent = (bits / 0x80_0000) % 0x100;
    let mantissa = bits % 0x80_0000;
    exponent == 0xFF && mantissa != 0
}

/// `x <= 0.0` for the `f32` value `x` with these bits.
pub open spec fn f32_at_most_zero(bits: u32) -> bool {
    !f32_is_nan(bits) && (bits == 0 || bits >= F32_NEGATIVE_ZERO_BITS)
}

/// `(0.0..=1.0).contains(&x)` for the `f32` value `x` with these bits.
pub open spec fn f32_in_unit_range(bits: u32) -> bool {
    bits <= F32_ONE_BITS || bits == F32_NEGATIVE_ZERO_BITS
}

/// `(0.001..=1.0).contains(&x)` for the `f32` value `x` with these bits.
pub open spec fn f32_in_vad_range(bits: u32) -> bool {
    F32_ONE_THOUSANDTH_BITS <= bits <= F32_ONE_BITS
}

/// Capture settings. The gain is held as the bit pattern of its `f32` value.
#[derive(Debug, Clone)]
pub struct RecordingConfig {
    pub input_device_name: Option<String>,
    pub gain_bits: u32,
    pub min_duration_ms: u64,
    pub max_duration_secs: u64,
}

impl RecordingConfig {
    pub fn default() -> (c: RecordingConfig)
        ensures
            c.input_device_name is None,
            c.gain_bits == F32_ONE_BITS,
            c.min_duration_ms == 300,
            c.max_duration_secs == MAX_RECORDING_DURATION_SECS,
    {
        RecordingConfig {
            input_device_name: None,
            gain_bits: F32_ONE_BITS,
            min_duration_ms: 300,
            max_duration_secs: MAX_RECORDING_DURATION_SECS,
        }
    }
}

/// Streaming settings. The two thresholds are held as the bit patterns of
/// their `f32` values.
#[derive(Debug, Clone)]
pub struct RealtimeConfig {
    pub openai_model: String,
    pub openai_transcription_delay: OpenAiTranscriptionDelay,
    pub xai_smart_turn_enabled: bool,
    pub xai_smart_turn_threshold_bits: u32,
    pub xai_smart_turn_timeout_ms: u64,
    pub vad_rms_threshold_bits: u32,
    pub vad_pre_roll_ms: u64,
    pub vad_min_speech_ms: u64,
    pub vad_silence_ms: u64,
    pub max_utterance_secs: u64,
}

impl RealtimeConfig {
    pub fn default() -> (c: RealtimeConfig)
        ensures
            c.openai_model@ == "gpt-realtime-whisper"@,
            c.openai_transcription_delay == OpenAiTranscriptionDelay::Medium,
            !c.xai_smart_turn_enabled,
            c.xai_smart_turn_threshold_bits == 0x3F33_3333,
            c.xai_smart_turn_timeout_ms == 3000,
            c.vad_rms_threshold_bits == 0x3CCC_CCCD,
            c.vad_pre_roll_ms == 300,
            c.vad_min_speech_ms == 200,
            c.vad_silence_ms == 700,
            c.max_utterance_secs == 60,
    {
        RealtimeConfig {
            openai_model: String::from_str("gpt-realtime-whisper"),
            openai_transcription_delay: OpenAiTranscriptionDelay::Medium,
            xai_smart_turn_enabled: false,
            xai_smart_turn_threshold_bits: 0x3F33_3333,
            xai_smart_turn_timeout_ms: 3_000,
            vad_rms_threshold_bits: 0x3CCC_CCCD,
            vad_pre_roll_ms: 300,
            vad_min_speech_ms: 200,
            vad_silence_ms: 700,
            max_utterance_secs: 60,
        }
    }
}

#[derive(Debug, Clone, Copy, PartialEq, Eq, Structural)]
pub enum OutputBufferMode {
    /// The text always goes to the system clipboard.
    Clipboard,
    /// The text stays inside the app; injection borrows the clipboard and restores it.
    Temporary,
}

#[derive(Debug, Clone)]
pub struct OutputConfig {
    pub buffer_mode: OutputBufferMode,
    pub auto_inject: bool,
    pub restore_clipboard: bool,
    pub preserve_target_window: bool,
    pub copy_only_on_injection_failure: bool,
    pub append_space: bool,
}

impl OutputConfig {
    pub fn default() -> (c: OutputConfig)
        ensures
            c.buffer_mode == OutputBufferMode::Clipboard,
            c.auto_inject,
            c.restore_clipboard,
            c.preserve_target_window,
            c.copy_only_on_injection_failure,
            !c.append_space,
    {
        OutputConfig {
            buffer_mode: OutputBufferMode::Clipboard,
            auto_inject: true,
            restore_clipboard: true,
            preserve_target_window: true,
            copy_only_on_injection_failure: true,
            append_space: false,
        }
    }
}

#[derive(Debug, Clone, Copy, PartialEq, Eq, Structural)]
pub struct HistoryConfig {
    /// Number of days to keep history entries; 0 keeps them forever.
    pub retention_days: u64,
}

#[derive(Debug, Clone)]
pub struct AppConfig {
    pub provider: ProviderKind,
    pub transcription_mode: TranscriptionMode,
    pub language: String,
    pub prompt: String,
    pub hotkey: String,
    pub hold_to_record: bool,
    pub launch_at_login: bool,
    pub save_recordings: bool,
    pub openai: OpenAiConfig,
    pub xai: XaiConfig,
    pub openrouter: OpenRouterConfig,
    pub recording: RecordingConfig,
    pub realtime: RealtimeConfig,
    pub output: OutputConfig,
    pub text_processing: TextProcessingConfig,
    pub history: HistoryConfig,
}

impl AppConfig {
    pub fn default() -> (c: AppConfig)
        ensures
            c.provider == ProviderKind::OpenAi,
            c.transcription_mode == TranscriptionMode::BatchPtt,
            c.language@ == "zh"@,
            c.prompt@ == "使用繁體中文標點；保留專有名詞、英文縮寫與程式碼名稱。"@,
            c.hotkey@ == "Ctrl+Shift+Space"@,
            c.hold_to_record,
            !c.launch_at_login,
            !c.save_recordings,
            c.openai.base_url@ == "https://api.openai.com"@,
            c.openai.model@ == "gpt-4o-mini-transcribe"@,
            c.openai.api_key_env@ == "OPENAI_API_KEY"@,
            c.xai.base_url@ == "https://api.x.ai"@,
            c.xai.api_key_env@ == "XAI_API_KEY"@,
            c.xai.format_text,
            c.xai.keyterms@.len() == 0,
            c.openrouter.base_url@ == "https://openrouter.ai/api"@,
            c.openrouter.model@ == "openai/gpt-4o-mini-transcribe"@,
            c.openrouter.api_key_env@ == "OPENROUTER_API_KEY"@,
            c.recording.input_device_name is None,
            c.recording.gain_bits == F32_ONE_BITS,
            c.recording.min_duration_ms == 300,
            c.recording.max_duration_secs == MAX_RECORDING_DURATION_SECS,
            c.realtime.openai_model@ == "gpt-realtime-whisper"@,
            c.realtime.openai_transcription_delay == OpenAiTranscriptionDelay::Medium,
            !c.realtime.xai_smart_turn_enabled,
            c.realtime.xai_smart_turn_threshold_bits == 0x3F33_3333,
            c.realtime.xai_smart_turn_timeout_ms == 3000,
            c.realtime.vad_rms_threshold_bits == 0x3CCC_CCCD,
            c.realtime.vad_pre_roll_ms == 300,
            c.realtime.vad_min_speech_ms == 200,
            c.realtime.vad_silence_ms == 700,
            c.realtime.max_utterance_secs == 60,
            c.output.buffer_mode == OutputBufferMode::Clipboard,
            c.output.auto_inject,
            c.output.restore_clipboard,
            c.output.preserve_target_window,
            c.output.copy_only_on_injection_failure,
            !c.output.append_space,
            c.text_processing.normalize_chinese_punctuation,
            c.text_processing.chinese_variant == ChineseVariant::Preserve,
            c.text_processing.dictionary@.len() == 0,
            !c.text_processing.voice_commands_enabled,
            c.text_processing.voice_commands@.len() == 0,
            c.history.retention_days == 0,
    {
        AppConfig {
            provider: ProviderKind::OpenAi,
            transcription_mode: TranscriptionMode::BatchPtt,
            language: String::from_str("zh"),
            prompt: String::from_str("使用繁體中文標點；保留專有名詞、英文縮寫與程式碼名稱。"),
            hotkey: String::from_str("Ctrl+Shift+Space"),
            hold_to_record: true,
            launch_at_login: false,
            save_recordings: false,
            openai: OpenAiConfig::default(),
            xai: XaiConfig::default(),
            openrouter: OpenRouterConfig::default(),
            recording: RecordingConfig::default(),
            realtime: RealtimeConfig::default(),
            output: OutputConfig::default(),
            text_processing: TextProcessingConfig::default(),
            history: HistoryConfig { retention_days: 0 },
        }
    }

    /// The name of the environment variable that holds the key of the
    /// selected provider.
    pub fn api_key_env(&self) -> (s: &str)
        ensures
            s@ == api_key_env_of(*self),
    {
        match self.provider {
            ProviderKind::OpenAi => self.openai.api_key_env.as_str(),
            ProviderKind::Xai => self.xai.api_key_env.as_str(),
            ProviderKind::OpenRouter => self.openrouter.api_key_env.as_str(),
        }
    }

    /// Checks the settings in a fixed order and reports the first problem.
    pub fn validate(&self) -> (r: AppResult<()>)
        ensures
            match config_problem(*self) {
                None => r is Ok,
                Some(m) => r matches Err(AppError::Configuration(e)) && e@ == m,
            },
    {
        if is_blank(self.hotkey.as_str()) {
            return config_error("全域熱鍵不可為空");
        }
        if f32_at_most_zero_exec(self.recording.gain_bits) {
            return config_error("麥克風增益必須大於 0");
        }
        if self.recording.max_duration_secs == 0 || self.recording.max_duration_secs
            > MAX_RECORDING_DURATION_SECS {
            return config_error("錄音時間上限必須介於 1 與 120 秒");
        }
        if is_blank(self.realtime.openai_model.as_str()) {
            return config_error("OpenAI realtime 模型不可為空");
        }
        let t = self.realtime.xai_smart_turn_threshold_bits;
        if !(t <= F32_ONE_BITS || t == F32_NEGATIVE_ZERO_BITS) {
            return config_error("xAI Smart Turn threshold 必須介於 0 與 1");
        }
        if !(1 <= self.realtime.xai_smart_turn_timeout_ms && self.realtime.xai_smart_turn_timeout_ms
            <= 5_000) {
            return config_error("xAI Smart Turn timeout 必須介於 1 與 5000 ms");
        }
        let v = self.realtime.vad_rms_threshold_bits;
        if !(F32_ONE_THOUSANDTH_BITS <= v && v <= F32_ONE_BITS) || self.realtime.vad_pre_roll_ms
            > 2_000 || self.realtime.vad_min_speech_ms < 100 || self.realtime.vad_silence_ms < 100
            || self.realtime.max_utterance_secs == 0 {
            return config_error("Realtime VAD 設定超出安全範圍");
        }
        if self.history.retention_days > 36_500 {
            return config_error("歷史紀錄保留天數必須介於 0 與 36500 天");
        }
        if self.provider == ProviderKind::OpenAi && is_blank(self.openai.model.as_str()) {
            return config_error("OpenAI 模型不可為空");
        }
        if self.provider == ProviderKind::OpenRouter && is_blank(self.openrouter.model.as_str()) {
            return config_error("OpenRouter 模型不可為空");
        }
        if self.provider == ProviderKind::OpenRouter && self.transcription_mode.is_realtime() {
            return config_error(
                "OpenRouter 僅支援 Batch / PTT 模式，不支援 Realtime 或 Continuous Dictation",
            );
        }
        if !is_environment_variable_name(self.openai.api_key_env.as_str())
            || !is_environment_variable_name(self.xai.api_key_env.as_str())
            || !is_environment_variable_name(self.openrouter.api_key_env.as_str()) {
            return config_error("API Key 欄位必須是有效的環境變數名稱，不可填入 API Key 本身");
        }
        match dictionary_problem_exec(&self.text_processing.dictionary) {
            Some(m) => {
                return Err(AppError::Configuration(m));
            },
            None => {},
        }
        match command_problem_exec(&self.text_processing.voice_commands) {
            Some(m) => {
                return Err(AppError::Configuration(m));
            },
            None => {},
        }
        Ok(())
    }
}

pub open spec fn api_key_env_of(c: AppConfig) -> Seq<char> {
    match c.provider {
        ProviderKind::OpenAi => c.openai.api_key_env@,
        ProviderKind::Xai => c.xai.api_key_env@,
        ProviderKind::OpenRouter => c.openrouter.api_key_env@,
    }
}

/// A name that may stand for an environment variable: a letter or `_`,
/// then letters, digits or `_`.
pub open spec fn env_name_ok(s: Seq<char>) -> bool {
    &&& s.len() > 0
    &&& (s[0] == '_' || is_alpha(s[0]))
    &&& forall|i: int| 1 <= i < s.len() ==> (s[i] == '_' || is_alnum(s[i]))
}

/// Whether `value` can name an environment variable.
pub fn is_environment_variable_name(value: &str) -> (b: bool)
    ensures
        b == env_name_ok(value@),
{
    let s = chars_of(value);
    if s.len() == 0 {
        return false;
    }
    if !(s[0] == '_' || is_ascii_alphabetic(s[0])) {
        return false;
    }
    let mut i: usize = 1;
    while i < s.len()
        invariant
            1 <= i <= s@.len(),
            s@ == value@,
            forall|k: int| 1 <= k < i ==> (s@[k] == '_' || is_alnum(s@[k])),
        decreases s@.len() - i,
    {
        if !(s[i] == '_' || is_ascii_alphanumeric(s[i])) {
            proof {
                assert(!(s@[i as int] == '_' || is_alnum(s@[i as int])));
                assert(value@[i as int] == s@[i as int]);
            }
            return false;
        }
        i += 1;
    }
    true
}

fn f32_at_most_zero_exec(bits: u32) -> (b: bool)
    ensures
        b == f32_at_most_zero(bits),
{
    let exponent = (bits / 0x80_0000) % 0x100;
    let mantissa = bits % 0x80_0000;
    let nan = exponent == 0xFF && mantissa != 0;
    !nan && (bits == 0 || bits >= F32_NEGATIVE_ZERO_BITS)
}

fn config_error(message: &str) -> (r: AppResult<()>)
    ensures
        r matches Err(AppError::Configuration(e)) && e@ == message@,
{
    Err(AppError::Configuration(String::from_str(message)))
}

/// A source or phrase that is blank or has surrounding whitespace.
pub open spec fn badly_trimmed(s: Seq<char>) -> bool {
    trim(s).len() == 0 || s != trim(s)
}

/// The first problem among the first `n` dictionary sources: a badly trimmed
/// source, or a source that repeats an earlier one.
pub open spec fn dictionary_problem(sources: Seq<Seq<char>>, n: int) -> Option<Seq<char>>
    decreases n,
{
    if n <= 0 {
        None
    } else {
        match dictionary_problem(sources, n - 1) {
            Some(m) => Some(m),
            None => if badly_trimmed(sources[n - 1]) {
                Some("自訂詞典來源不可為空，且前後不可包含空白"@)
            } else if exists|j: int| 0 <= j < n - 1 && #[trigger] sources[j] == sources[n - 1] {
                Some("自訂詞典來源重複："@ + sources[n - 1])
            } else {
                None
            },
        }
    }
}

pub open spec fn action_text_missing(a: VoiceCommandAction) -> bool {
    match a {
        VoiceCommandAction::InsertText { text } => text@.len() == 0,
        VoiceCommandAction::CopyOnly { text } => text@.len() == 0,
        VoiceCommandAction::Discard => false,
    }
}

/// The first problem among the first `n` voice commands: a badly trimmed
/// phrase, a repeated phrase, or an insert/copy command without text.
pub open spec fn command_problem(cmds: Seq<VoiceCommand>, n: int) -> Option<Seq<char>>
    decreases n,
{
    if n <= 0 {
        None
    } else {
        match command_problem(cmds, n - 1) {
            Some(m) => Some(m),
            None => if badly_trimmed(cmds[n - 1].phrase@) {
                Some("語音命令片語不可為空，且前後不可包含空白"@)
            } else if exists|j: int| 0 <= j < n - 1 && (#[trigger] cmds[j]).phrase@ == cmds[n - 1].phrase@ {
                Some("語音命令片語重複："@ + cmds[n - 1].phrase@)
            } else if action_text_missing(cmds[n - 1].action) {
                Some("insert_text/copy_only 語音命令的文字不可為空"@)
            } else {
                None
            },
        }
    }
}

/// The first `n` voice commands are acceptable: each phrase is non-blank
/// and trimmed, no phrase repeats, and every command that inserts or
/// copies text has some text; a discarding command needs nothing more.
pub open spec fn commands_acceptable(cmds: Seq<VoiceCommand>, n: int) -> bool {
    &&& forall|k: int| 0 <= k < n ==> {
        let c = #[trigger] cmds[k];
        &&& trim(c.phrase@).len() > 0 && c.phrase@ == trim(c.phrase@)
        &&& match c.action {
            VoiceCommandAction::InsertText { text } => text@.len() > 0,
            VoiceCommandAction::CopyOnly { text } => text@.len() > 0,
            VoiceCommandAction::Discard => true,
        }
    }
    &&& forall|j: int, k: int| 0 <= j < k < n ==> (#[trigger] cmds[j]).phrase@ != (#[trigger] cmds[k]).phrase@
}

/// The voice-command check finds no problem exactly when the commands are
/// acceptable; in particular a `Discard` command is never refused for its
/// action.
pub proof fn law_voice_commands_checked(cmds: Seq<VoiceCommand>, n: int)
    requires
        0 <= n <= cmds.len(),
    ensures
        command_problem(cmds, n) is None <==> commands_acceptable(cmds, n),
    decreases n,
{
    if n > 0 {
        law_voice_commands_checked(cmds, n - 1);
        let c = cmds[n - 1];
        if command_problem(cmds, n - 1) is None && !badly_trimmed(c.phrase@) && !(exists|j: int|
            0 <= j < n - 1 && (#[trigger] cmds[j]).phrase@ == c.phrase@) && !action_text_missing(c.action) {
            assert forall|j: int, k: int| 0 <= j < k < n implies (#[trigger] cmds[j]).phrase@
                != (#[trigger] cmds[k]).phrase@ by {
                if k == n - 1 {
                    assert(cmds[j].phrase@ != c.phrase@);
                }
            }
        } else if commands_acceptable(cmds, n) {
            assert(commands_acceptable(cmds, n - 1));
            assert(!badly_trimmed(cmds[n - 1].phrase@));
            if exists|j: int| 0 <= j < n - 1 && (#[trigger] cmds[j]).phrase@ == c.phrase@ {
                let j = choose|j: int| 0 <= j < n - 1 && (#[trigger] cmds[j]).phrase@ == c.phrase@;
                assert(cmds[j].phrase@ != cmds[n - 1].phrase@);
            }
        }
    }
}

pub open spec fn sources_of(d: Seq<DictionaryEntry>) -> Seq<Seq<char>> {
    d.map_values(|e: DictionaryEntry| e.source@)
}

/// The message of the first failing check of `validate`, if any.
pub open spec fn config_problem(c: AppConfig) -> Option<Seq<char>> {
    if trim(c.hotkey@).len() == 0 {
        Some("全域熱鍵不可為空"@)
    } else if f32_at_most_zero(c.recording.gain_bits) {
        Some("麥克風增益必須大於 0"@)
    } else if c.recording.max_duration_secs == 0 || c.recording.max_duration_secs
        > MAX_RECORDING_DURATION_SECS {
        Some("錄音時間上限必須介於 1 與 120 秒"@)
    } else if trim(c.realtime.openai_model@).len() == 0 {
        Some("OpenAI realtime 模型不可為空"@)
    } else if !f32_in_unit_range(c.realtime.xai_smart_turn_threshold_bits) {
        Some("xAI Smart Turn threshold 必須介於 0 與 1"@)
    } else if !(1 <= c.realtime.xai_smart_turn_timeout_ms <= 5000) {
        Some("xAI Smart Turn timeout 必須介於 1 與 5000 ms"@)
    } else if !f32_in_vad_range(c.realtime.vad_rms_threshold_bits) || c.realtime.vad_pre_roll_ms
        > 2000 || c.realtime.vad_min_speech_ms < 100 || c.realtime.vad_silence_ms < 100
        || c.realtime.max_utterance_secs == 0 {
        Some("Realtime VAD 設定超出安全範圍"@)
    } else if c.history.retention_days > 36500 {
        Some("歷史紀錄保留天數必須介於 0 與 36500 天"@)
    } else if c.provider == ProviderKind::OpenAi && trim(c.openai.model@).len() == 0 {
        Some("OpenAI 模型不可為空"@)
    } else if c.provider == ProviderKind::OpenRouter && trim(c.openrouter.model@).len() == 0 {
        Some("OpenRouter 模型不可為空"@)
    } else if c.provider == ProviderKind::OpenRouter && c.transcription_mode
        != TranscriptionMode::BatchPtt {
        Some("OpenRouter 僅支援 Batch / PTT 模式，不支援 Realtime 或 Continuous Dictation"@)
    } else if !env_name_ok(c.openai.api_key_env@) || !env_name_ok(c.xai.api_key_env@)
        || !env_name_ok(c.openrouter.api_key_env@) {
        Some("API Key 欄位必須是有效的環境變數名稱，不可填入 API Key 本身"@)
    } else {
        let d = c.text_processing.dictionary@;
        match dictionary_problem(sources_of(d), d.len() as int) {
            Some(m) => Some(m),
            None => command_problem(
                c.text_processing.voice_commands@,
                c.text_processing.voice_commands@.len() as int,
            ),
        }
    }
}

fn badly_trimmed_exec(s: &Vec<char>) -> (b: bool)
    ensures
        b == badly_trimmed(s@),
{
    let t = trim_chars(s.as_slice());
    t.len() == 0 || !seq_eq(s.as_slice(), t.as_slice())
}

proof fn lemma_problem_stable_dict(sources: Seq<Seq<char>>, n: int, m: int)
    requires
        0 <= n <= m,
        dictionary_problem(sources, n) is Some,
    ensures
        dictionary_problem(sources, m) == dictionary_problem(sources, n),
    decreases m - n,
{
    if m > n {
        lemma_problem_stable_dict(sources, n, m - 1);
    }
}

proof fn lemma_problem_stable_cmd(cmds: Seq<VoiceCommand>, n: int, m: int)
    requires
        0 <= n <= m,
        command_problem(cmds, n) is Some,
    ensures
        command_problem(cmds, m) == command_problem(cmds, n),
    decreases m - n,
{
    if m > n {
        lemma_problem_stable_cmd(cmds, n, m - 1);
    }
}

fn dictionary_problem_exec(d: &Vec<DictionaryEntry>) -> (r: Option<String>)
    ensures
        match dictionary_problem(sources_of(d@), d@.len() as int) {
            None => r is None,
            Some(m) => r matches Some(e) && e@ == m,
        },
{
    let ghost sources = sources_of(d@);
    let mut seen: Vec<Vec<char>> = Vec::new();
    let mut n: usize = 0;
    while n < d.len()
        invariant
            n <= d@.len(),
            sources == sources_of(d@),
            seen@.len() == n,
            forall|k: int| 0 <= k < n ==> (#[trigger] seen@[k])@ == sources[k],
            dictionary_problem(sources, n as int) is None,
        decreases d@.len() - n,
    {
        let s = chars_of(d[n].source.as_str());
        if badly_trimmed_exec(&s) {
            proof {
                lemma_problem_stable_dict(sources, n + 1, d@.len() as int);
            }
            return Some(String::from_str("自訂詞典來源不可為空，且前後不可包含空白"));
        }
        let mut j: usize = 0;
        while j < n
            invariant
                j <= n,
                n < d@.len(),
                seen@.len() == n,
                sources == sources_of(d@),
                s@ == sources[n as int],
                !badly_trimmed(s@),
                dictionary_problem(sources, n as int) is None,
                forall|k: int| 0 <= k < n ==> (#[trigger] seen@[k])@ == sources[k],
                forall|k: int| 0 <= k < j ==> sources[k] != sources[n as int],
            decreases n - j,
        {
            if seq_eq(seen[j].as_slice(), s.as_slice()) {
                let mut msg = chars_of("自訂詞典來源重複：");
                crate::chars::push_chars(&mut msg, &s);
                proof {
                    assert(sources[j as int] == sources[n as int]);
                    assert(dictionary_problem(sources, n as int) is None);
                    assert(!badly_trimmed(sources[n as int]));
                    assert(exists|k: int| 0 <= k < n && #[trigger] sources[k] == sources[n as int]);
                    assert(dictionary_problem(sources, n + 1) == Some(
                        "自訂詞典來源重複："@ + sources[n as int],
                    ));
                    lemma_problem_stable_dict(sources, n + 1, d@.len() as int);
                }
                return Some(crate::chars::string_from_chars(msg.as_slice()));
            }
            j += 1;
        }
        seen.push(s);
        n += 1;
    }
    None
}

fn command_problem_exec(cmds: &Vec<VoiceCommand>) -> (r: Option<String>)
    ensures
        match command_problem(cmds@, cmds@.len() as int) {
            None => r is None,
            Some(m) => r matches Some(e) && e@ == m,
        },
{
    let mut seen: Vec<Vec<char>> = Vec::new();
    let mut n: usize = 0;
    while n < cmds.len()
        invariant
            n <= cmds@.len(),
            seen@.len() == n,
            forall|k: int| 0 <= k < n ==> (#[trigger] seen@[k])@ == cmds@[k].phrase@,
            command_problem(cmds@, n as int) is None,
        decreases cmds@.len() - n,
    {
        let s = chars_of(cmds[n].phrase.as_str());
        if badly_trimmed_exec(&s) {
            proof {
                lemma_problem_stable_cmd(cmds@, n + 1, cmds@.len() as int);
            }
            return Some(String::from_str("語音命令片語不可為空，且前後不可包含空白"));
        }
        let mut j: usize = 0;
        while j < n
            invariant
                j <= n,
                n < cmds@.len(),
                seen@.len() == n,
                s@ == cmds@[n as int].phrase@,
                !badly_trimmed(s@),
                command_problem(cmds@, n as int) is None,
                forall|k: int| 0 <= k < n ==> (#[trigger] seen@[k])@ == cmds@[k].phrase@,
                forall|k: int| 0 <= k < j ==> cmds@[k].phrase@ != cmds@[n as int].phrase@,
            decreases n - j,
        {
            if seq_eq(seen[j].as_slice(), s.as_slice()) {
                let mut msg = chars_of("語音命令片語重複：");
                crate::chars::push_chars(&mut msg, &s);
                proof {
                    assert(cmds@[j as int].phrase@ == cmds@[n as int].phrase@);
                    lemma_problem_stable_cmd(cmds@, n + 1, cmds@.len() as int);
                }
                return Some(crate::chars::string_from_chars(msg.as_slice()));
            }
            j += 1;
        }
        let missing = match &cmds[n].action {
            VoiceCommandAction::InsertText { text } => text.as_str().is_empty(),
            VoiceCommandAction::CopyOnly { text } => text.as_str().is_empty(),
            VoiceCommandAction::Discard => false,
        };
        if missing {
            proof {
                lemma_problem_stable_cmd(cmds@, n + 1, cmds@.len() as int);
            }
            return Some(String::from_str("insert_text/copy_only 語音命令的文字不可為空"));
        }
        seen.push(s);
        n += 1;
    }
    None
}

} // verus!
