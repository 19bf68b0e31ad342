//! Backend core of a desktop bookmark manager.
//!
//! Two subsystems carry the interesting logic: a git-backed backup/sync
//! workflow over a workspace file, and a web-content pipeline that extracts
//! a page title, strips markup to plain text, and prepares requests for a
//! generative-AI summarization endpoint.

pub mod chars;
pub mod time;
pub mod command;
pub mod sync;
pub mod html;
pub mod web;
pub mod gemini;
pub mod state;
