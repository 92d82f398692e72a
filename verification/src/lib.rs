//! Live transcription session logic.

pub mod text;
pub mod seconds;
pub mod json;
pub mod transcriber;
pub mod paths;
pub mod capture;
pub mod tap;
pub mod transcript;
pub mod ui;
pub mod connection;
pub mod export;
pub mod draft;
pub mod finalizer;
pub mod wrap;
pub mod normalize;
pub mod session_log;
pub mod retention;
pub mod launch;
pub mod updater;
