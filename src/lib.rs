// Watches the foreground application and, when it is a configured meeting
// app, asks for a desktop notification and a new note.
pub mod document;
pub mod config;
pub mod monitor;
