//! The logic of rsclip, a clipboard history for Wayland desktops: how
//! payloads are classified, how colours, URI lists and links are read, what
//! the history database is told and how its rows read back, what storing and
//! pasting decide, how entries and sizes are shown, the colour theme, the
//! decisions of the history view (keys, live configuration, the rendered
//! window of rows), and the phase profiler's report.
pub mod alpha;
pub mod classify;
pub mod cli;
pub mod colors;
pub mod config;
pub mod db;
pub mod display;
pub mod files;
pub mod format;
pub mod links;
pub mod mime;
pub mod models;
pub mod ocr;
pub mod paste;
pub mod profiler;
pub mod store;
pub mod text;
pub mod theme;
pub mod ui_state;
pub mod virtual_list;
