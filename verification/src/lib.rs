//! Discovery and review of embedded documentation across a multi-file
//! source project.
//!
//! The library finds exactly the files that are logically part of a
//! project by following explicit child-module declarations from the
//! entry points a build manifest names, instead of walking the
//! filesystem blindly, and drives the interactive protocol by which
//! proposed text corrections are accepted, rejected or staged in bulk.
//! Reading files, probing the filesystem, loading the manifest and
//! blocking on the terminal are the caller's side of each boundary; the
//! decisions are made here, against the contracts.

pub mod classify;
pub mod graph;
pub mod items;
pub mod manifest;
pub mod pathing;
pub mod resolve;
pub mod review;
pub mod tokens;
pub mod traversal;
pub mod visited;
