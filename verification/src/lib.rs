//! The decisions behind bundling the JavaScript of a components project.
//!
//! A bundling run collects the JavaScript files of the components and of the static
//! directory, writes an entry module that imports and registers each of them, has a
//! bundler turn the entry module into one bundle, and publishes the bundle under a name
//! that holds a hash of its content.
//!
//! This crate holds what such a run decides: which of the files are sources
//! ([`modules::discover_sources`]), under which names a source is registered
//! ([`naming`]), what the entry module says ([`modules::assemble_modules`]), what is
//! published under which hash ([`hash::plan_publication`]), and how a run proceeds and
//! ends ([`pipeline`]). Listing, reading and writing files and running the bundler are
//! left to the program that uses the crate; [`layout`] names the files and patterns it
//! works with.

pub mod hash;
pub mod layout;
pub mod modules;
pub mod naming;
pub mod pipeline;
pub mod text;
