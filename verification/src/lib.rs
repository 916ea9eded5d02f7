//! The state of a COSMIC desktop session, and how to bring its applications back.

pub mod desktop;
pub mod desktop_laws;
pub mod dump;
pub mod dump_laws;
pub mod entry;
pub mod entry_laws;
pub mod event;
pub mod filepath;
pub mod filepath_laws;
pub mod launch;
pub mod launch_laws;
pub mod model;
pub mod order;
pub mod report;
pub mod report_laws;
pub mod search_laws;
pub mod session_laws;
pub mod show;
pub mod sync;
pub mod table;
pub mod text;
pub mod wayland;
pub mod words;
