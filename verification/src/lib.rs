//! Terminal interaction logic of a small Git helper: key events, a
//! single-line editor, a fuzzy selectable list, a markup renderer and a
//! commit-history pager, together with the rules that surround them.
//!
//! Nothing in this crate touches the terminal, the file system or the
//! network. Every function maps plain values to plain values and carries a
//! contract that Verus proves of its body. Three small functions are the
//! exception: `text::push_char`, `update::exceeds` and
//! `email::matches_pattern` call `String::push`, the `semver` crate and the
//! `regex` crate, and their contracts are assumed.

pub mod commit;
pub mod clone;
pub mod config;
pub mod diff;
pub mod editor;
pub mod email;
pub mod flags;
pub mod fuzzy;
pub mod git;
pub mod github;
pub mod history;
pub mod keys;
pub mod labels;
pub mod list;
pub mod markup;
pub mod menu;
pub mod numbers;
pub mod out;
pub mod split;
pub mod text;
pub mod update;
pub mod view;
pub mod window;
pub mod words;
