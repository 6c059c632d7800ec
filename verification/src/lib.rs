//! Editing logic of a small graphical editor for git commit messages and
//! interactive-rebase todo lists.

pub mod dispatch;
pub mod message;
pub mod rebase;
pub mod text;
pub mod window;
