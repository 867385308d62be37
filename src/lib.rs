//! Cooperative task scheduling for a single-core kernel, together with the
//! bridge that carries scancodes from the keyboard interrupt into tasks.

pub mod task_id;
pub mod bounded;
pub mod pic;
pub mod task;
pub mod scancode;
pub mod keyboard;
pub mod executor;
pub mod guarantees;
pub mod boot;
