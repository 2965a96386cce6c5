//! What the operations are for, in terms of what goes into them and what comes out.
//!
//! - [`dispatch`], [`runs`] and [`workers`] state what becomes of issues, [`workspaces`] of workspaces.
//! - [`conversations`] and [`payloads`] state what is made of what an app-server says, [`issues`] of what
//!   the tracker says, [`settings`], [`workflows`] and [`prompts`] of what a workflow file says.
//! - [`overview`] states what clients are told, [`values`] what texts and values are read as.
//! - [`operations`], [`exchanges`] and [`calls`] state the same of the functions that are called.
pub mod calls;
pub mod conversations;
pub mod dispatch;
pub mod exchanges;
pub mod issues;
pub mod operations;
pub mod overview;
pub mod payloads;
pub mod prompts;
pub mod runs;
pub mod settings;
pub mod values;
pub mod workers;
pub mod workflows;
pub mod workspaces;
