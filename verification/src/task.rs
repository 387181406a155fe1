//! Cooperative tasks that consume hardware events.

pub mod keyboard;
