//! The review task: a sub-agent reviews, and its output ends the review mode.

pub mod config;
pub mod events;
pub mod exit;
pub mod output;
pub mod task;
