//! Declarative package management for pacman: the decisions of a run.
//!
//! A run compares the packages that a configuration asks for with those that
//! are installed, and brings the system in line. This library holds every
//! decision of such a run; the program around it runs the commands.

pub mod action;
pub mod builds;
pub mod cache;
pub mod config;
pub mod failure;
pub mod laws;
pub mod names;
pub mod output;
pub mod packages;
pub mod removal;
pub mod reply;
pub mod session;
pub mod text;
