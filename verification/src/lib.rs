//! Scan/cross-reference/classify engine for a rhythm-game content library.
//!
//! The engine enumerates a file tree (enumeration itself is done by the
//! caller), discovers which files are referenced as visual assets by parsing
//! beatmap-definition and storyboard-definition text files, classifies every
//! file into a fixed set of content categories with a priority-ordered rule,
//! and supports deleting the recorded files in bulk by category.

pub mod text;
pub mod paths;
pub mod patterns;
pub mod pathset;
pub mod models;
pub mod counters;
pub mod extract;
pub mod classify;
pub mod processor;
pub mod service;
pub mod laws;
pub mod consts;

use vstd::prelude::*;

verus! {

/// The five deletable content categories plus the catch-all bucket.
#[derive(Debug, Clone, Copy, PartialEq, Eq, Structural, Hash)]
pub enum FileType {
    BackgroundVideo,
    BackgroundImage,
    Storyboard,
    Hitsound,
    SkinElement,
    Other,
}

} // verus!
