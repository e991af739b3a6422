//! Coordination core of a desktop front-end for an external command-line
//! video downloader: building the child-process argument list, parsing the
//! tool's free-text progress lines, and reducing the stream of worker
//! messages into the state the interface displays.

pub mod command;
pub mod localizations;
pub mod models;
pub mod progress;
pub mod session;
pub mod text;
