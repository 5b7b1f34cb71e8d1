//! Maps held keys to named commands through serializable key bindings, and
//! folds each frame's commands into a clamped movement intent.

pub mod text;
pub mod keys;
pub mod binding;
pub mod command;
pub mod camera;
