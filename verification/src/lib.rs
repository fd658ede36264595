//! Core selection/state engine for an interactive terminal browser of a
//! remote music catalog.
//!
//! The library owns the three selection axes (mood, decade, country), the
//! per-decade availability cache, the play-state machine and the volume
//! state. Network transport, terminal rendering and the audio sink live
//! outside the library and talk to it through plain values.

pub mod app;
pub mod handler;
pub mod order;
pub mod radiooo;
