//! Core of a single-threaded, frame-synchronized cooperative game loop:
//! an index-stable arena of game objects with scoped exclusive borrowing,
//! an append-only input event log with per-task cursors, a vocabulary of
//! suspension points, and a scheduler that resumes every live task exactly
//! once per tick, in spawn order.
//!
//! Rendering, windowing and raw input capture are external collaborators:
//! a host feeds events and time in, drives `tick`, and draws what the
//! tasks computed.

pub mod error;
pub mod event;
pub mod exec;
pub mod object;
pub mod scene;
pub mod scheduler;
