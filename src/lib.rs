//! Core of a retained-state, immediate-mode GUI toolkit: stable widget
//! identities, a per-widget state cache with redraw tracking, dependency-ordered
//! layout, pointer gesture recognition with input capture, and the state logic
//! of the rectangle and file-navigator widgets.
pub mod geometry;
pub mod layout;
pub mod id;
pub mod color;
pub mod file_navigator;
pub mod rectangle;
pub mod graph;
pub mod input;
