pub mod app;
pub mod audio;
pub mod chars;
pub mod config;
pub mod error;
pub mod fonts;
pub mod history;
pub mod hotkey;
pub mod injector;
pub mod paths;
pub mod postprocess;
pub mod providers;
pub mod secrets;
pub mod session;
pub mod shell;
pub mod startup;
pub mod theme;
pub mod time;
pub mod transcription;
pub mod updater;
pub mod url;
pub mod utf16;
pub mod vad;
pub mod json;
pub mod realtime;
pub mod realtime_worker;
