//! The verified core of a tool that publishes notes from a personal vault to
//! a content site.
//!
//! The crate decides; it never touches the disk. It is handed what was read
//! (the text of a document, the day its file was created, the registry) and
//! says what is to be written.
//!
//! - [`utils`]: the date of a document.
//! - [`escapes`]: escape normalization, the first rewrite of a document.
//! - [`images`]: image embeds and their links, the second rewrite.
//! - [`filepair`]: mappings, the registry, and the file operations that
//!   publish one mapping.
//! - [`cli`]: the commands: publish all, register, deregister.
//! - [`paths`], [`text`]: paths and texts as sequences of characters.
//! - [`settings`], [`error`]: the directories in use, and the refusals.
//!
//! Every function states what it returns over the characters of its
//! arguments, and the laws that hold between the functions are proved beside
//! them.

pub mod cli;
pub mod error;
pub mod escapes;
pub mod filepair;
pub mod images;
pub mod paths;
pub mod settings;
pub mod text;
pub mod utils;
