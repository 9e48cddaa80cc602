//! Core logic of a music downloader: codec choices, the stored configuration,
//! the text handling around file names and tool output, the song list shown
//! to the user, the library scan and the download job's decisions.

pub mod text;
pub mod codec;
pub mod sanitize;
pub mod tools;
pub mod ids;
pub mod clock;
pub mod config;
pub mod media;
pub mod ui;
pub mod flow;
