//! What a daemon decides that takes issues from a tracker and lets coding agents work on them.
//!
//! - [`orchestrator`] decides which issues are worked on, how often, and when a run is given up;
//!   [`queue`] in which order, [`service`] what follows from what has happened, [`invariants`] states
//!   what holds of it in every state that it reaches, and [`snapshot`] and [`http`] tell of it.
//! - [`worker`] is one run on an issue, [`session`] and [`protocol`] its conversation with an
//!   app-server, [`payload`] what is taken out of the messages.
//! - [`workspace`] and [`path`] keep each run in a directory of its own; [`lifecycle`] is how that is
//!   made and removed.
//! - [`workflow`] and [`config`] read the file that says how issues are worked on; [`template`],
//!   [`rendering`] and [`filling`] say what becomes of the prompt in it.
//! - [`tracker`] asks for issues and reads the answers.
//! - [`laws`] states of all of these what they are for.
//! - [`types`], [`error`], [`json`], [`time`], [`text`], [`string_map`] and [`duplicate`] are what the
//!   others are made of.
pub mod config;
pub mod duplicate;
pub mod error;
pub mod filling;
pub mod http;
pub mod invariants;
pub mod json;
pub mod laws;
pub mod lifecycle;
pub mod orchestrator;
pub mod path;
pub mod payload;
pub mod protocol;
pub mod queue;
pub mod rendering;
pub mod service;
pub mod session;
pub mod snapshot;
pub mod string_map;
pub mod template;
pub mod text;
pub mod time;
pub mod tracker;
pub mod types;
pub mod worker;
pub mod workflow;
pub mod workspace;
