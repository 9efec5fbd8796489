//! A terminal-based text editor with goals to maximize simplicity and efficiency.
//!
//! This crate holds the verified core of the editor: the numeric helpers, the
//! document model, the interpretation of user input and the computation of what is
//! shown to the user. Terminal, file and process handling live outside of it.
pub mod app;
pub mod canvas;
pub mod control;
pub mod io;
pub mod kyoo;
pub mod lsp;
pub mod market;
pub mod mode;
pub mod num;
pub mod orient;
pub mod rec;
pub mod storage;
pub mod ui;
