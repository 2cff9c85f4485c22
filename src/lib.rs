//! A raw-mode shell front end: tokenizer, completion engine, line editor
//! state machine and command dispatch, with the terminal and the operating
//! system left to the caller.

pub mod text;
pub mod tokenize;
pub mod commands;
pub mod complete;
pub mod editor;
pub mod dispatch;
