//! A registry of Git working copies for managing dotfiles: standalone repositories at any
//! path, and overlay repositories whose work tree is the home directory.
pub mod cli;
pub mod conflict;
pub mod entry;
pub mod git;
pub mod lifecycle;
pub mod name;
pub mod normalization;
pub mod paths;
pub mod persist;
pub mod registry;
pub mod text;
