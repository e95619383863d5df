//! The verified core of the WolfCut editor's host and engine.

pub mod text;
pub mod url;
pub mod scan;
pub mod http;
pub mod server;
pub mod media;
pub mod cache;
pub mod blend;
pub mod model;
pub mod export;
pub mod project;
pub mod flatten;
pub mod session;
pub mod document;
pub mod writer;
pub mod transitions;
pub mod effects;
pub mod ffmpeg;
