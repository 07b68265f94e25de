//! Merges the module tree of a Rust package into one self-contained source
//! text.
//!
//! A merge takes four steps. The files of a package, parsed into items
//! ([`syntax`], [`item`]), are resolved into a graph of modules keyed by
//! module path ([`builder`], [`graph`]); items that are compiled for tests
//! only are left out on the way ([`filter`]). The graph is expanded from the
//! root into one nested stream of items, with a marker wherever a new file
//! begins ([`expand`]). The stream is written out as text ([`render`]). And
//! once that text has been through a formatter, the markers in it are turned
//! into comments that name the file each part came from ([`rewrite`];
//! [`codec`] is how a file's path travels inside a marker).
//!
//! [`merge`] puts the first three steps together. [`cli`] and [`manifest`]
//! decide which packages a command line and a manifest ask to be merged.
//! Files are named by text throughout ([`paths`]); nothing here reads or
//! writes one.
pub mod build_laws;
pub mod builder;
pub mod cli;
pub mod codec;
pub mod error;
pub mod expand;
pub mod filter;
pub mod graph;
pub mod item;
pub mod manifest;
pub mod merge;
pub mod paths;
pub mod render;
pub mod rewrite;
pub mod syntax;
pub mod text;
