//! Verified core of the canvas terminal workspace: the node graph model,
//! its editing operations and history, the automation protocol and the
//! command-line request builder.

pub mod automation;
pub mod buttons;
pub mod cli;
pub mod clipboard;
pub mod editing;
pub mod creation;
pub mod forwarding;
pub mod geometry;
pub mod groups;
pub mod history;
pub mod ids;
pub mod import;
pub mod jsonpath;
pub mod laws;
pub mod operation_laws;
pub mod menu;
pub mod model;
pub mod naming;
pub mod nodes;
pub mod notifications;
pub mod ordering;
pub mod persistence;
pub mod protocol;
pub mod queue;
pub mod queue_laws;
pub mod routes;
pub mod selection;
pub mod shells;
pub mod shortcuts;
pub mod sorting;
pub mod seqs;
pub mod terminal;
pub mod text;
pub mod text_menu;
pub mod workspace;
