//! A stack of 2-D transform frames for immediate-mode drawing, and the
//! question that drawing loops ask of window events to know when to stop.
//!
//! The stack keeps the "current transform matrix" discipline: the top frame is
//! applied to every coordinate that is drawn, `push` saves it, `pop` restores
//! the saved one, and the base frame can never be popped.

use vstd::prelude::*;

pub mod event;
pub mod stack;
