//! Sorting film and series files into the layout of a media library.
//!
//! A directory of downloads is worked through scope by scope. For each
//! scope the title is found by searching a title service for the words of
//! a name, narrowing the query until the service finds something and
//! leaving the choice among its finds to a person. Every file of the scope
//! is then classified against that title, as the film, an edition, an
//! extra, a subtitle track or an episode, and given its place in the
//! library.
//!
//! The library takes every decision and leaves every effect to its
//! caller: it reads no file, calls no service and asks no question. What
//! it decides is stated in contracts and proved.
//!
//! - [`media`]: move records and the tokenizer.
//! - [`search`]: queries, their narrowing and the address of a search.
//! - [`classify`]: the rules that say what a file is.
//! - [`episode`]: season and episode numbers in a path.
//! - [`paths`]: the destination of a classified file.
//! - [`entry`]: directory entries and their order of treatment.
//! - [`directory`], [`movie`], [`show`]: opening the scope of a directory.
//! - [`scope`]: the classification of one directory, step by step.
//! - [`guarantees`]: what holds of every scope.
//! - [`config`]: settings and path completion.
//! - [`candidate`], [`decimal`], [`text`]: titles, numerals and strings.

pub mod candidate;
pub mod classify;
pub mod config;
pub mod decimal;
pub mod directory;
pub mod entry;
pub mod episode;
pub mod guarantees;
pub mod media;
pub mod movie;
pub mod paths;
pub mod scope;
pub mod search;
pub mod show;
pub mod text;
