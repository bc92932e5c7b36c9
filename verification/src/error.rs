//! The library's error type.
use vstd::prelude::*;

verus! {

/// What went wrong, by area, with a human-readable message.
#[derive(Debug, Clone)]
pub enum AppError {
    Audio(String),
    Configuration(String),
    Transcription(String),
    Injection(String),
    Io(String),
    /// A failure reported by a speech provider; `retryable` marks transient ones.
    Provider { message: String, retryable: bool },
    Cancelled,
}

pub type AppResult<T> = Result<T, AppError>;

/// The message that the user sees for `e`.
pub open spec fn error_text(e: AppError) -> Seq<char> {
    match e {
        AppError::Audio(m) => "錄音錯誤："@ + m@,
        AppError::Configuration(m) => "API 設定錯誤："@ + m@,
        AppError::Transcription(m) => "語音辨識失敗："@ + m@,
        AppError::Injection(m) => "文字注入失敗："@ + m@,
        AppError::Io(m) => "檔案錯誤："@ + m@,
        AppError::Provider { message, retryable: _ } => "語音辨識失敗："@ + message@,
        AppError::Cancelled => "作業已取消"@,
    }
}

impl AppError {
    pub fn provider(message: String, retryable: bool) -> (e: AppError)
        ensures
            e == (AppError::Provider { message, retryable }),
    {
        AppError::Provider { message, retryable }
    }

    /// Only provider failures marked transient are worth another attempt.
    pub fn is_retryable(&self) -> (r: bool)
        ensures
            r == (*self matches AppError::Provider { retryable, .. } && retryable),
    {
        match self {
            AppError::Provider { retryable, .. } => *retryable,
            _ => false,
        }
    }

    /// The message that the user sees.
    pub fn to_text(&self) -> (s: String)
        ensures
            s@ == error_text(*self),
    {
        let (prefix, body): (&str, &str) = match self {
            AppError::Audio(m) => ("錄音錯誤：", m.as_str()),
            AppError::Configuration(m) => ("API 設定錯誤：", m.as_str()),
            AppError::Transcription(m) => ("語音辨識失敗：", m.as_str()),
            AppError::Injection(m) => ("文字注入失敗：", m.as_str()),
            AppError::Io(m) => ("檔案錯誤：", m.as_str()),
            AppError::Provider { message, .. } => ("語音辨識失敗：", message.as_str()),
            AppError::Cancelled => ("作業已取消", ""),
        };
        let mut out = crate::chars::chars_of(prefix);
        crate::chars::push_str(&mut out, body);
        proof {
            reveal_strlit("");
            assert(""@ =~= Seq::<char>::empty());
            assert(out@ =~= error_text(*self));
        }
        crate::chars::string_from_chars(out.as_slice())
    }
}

} // verus!
