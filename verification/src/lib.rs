//! The verified core of a desktop tool that watches a git repository and lets its
//! user commit, roll back the checked-out commit, and move `main` to it.
//!
//! The library holds every decision the tool makes: how settings files are read and
//! merged, which `git` commands run and how their output becomes the commit table,
//! how the background monitor reacts to commands and failures, how the hand-over
//! material is built and bounded, and what the window shows and allows.  Running
//! processes, touching files, waiting and drawing are left to the caller, which hands
//! the library their outcomes as plain values.
pub mod command_template;
pub mod config;
pub mod external_poll;
pub mod font;
pub mod git;
pub mod laws;
pub mod material;
pub mod models;
pub mod monitor;
pub mod paths;
pub mod single_instance;
pub mod text;
pub mod timefmt;
pub mod view_state;
