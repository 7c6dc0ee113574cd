//! A runtime binding layer for a skeletal-animation engine.
//!
//! The crate models the engine's object graph behind reference-counted
//! handles (`handles`), loads texture atlases (`atlas`) and skeleton
//! definitions (`skeleton`), drives per-track animation playback
//! (`animation`), and extracts renderable geometry from a posed skeleton
//! (`render`).
//!
//! All continuous quantities (coordinates, scales, texture coordinates)
//! are fixed-point integers; colors are 8-bit channels; times are integer
//! ticks. A host that renders with floating point converts at its own
//! boundary.

use vstd::prelude::*;

pub mod animation;
pub mod atlas;
pub mod enums;
pub mod handles;
pub mod pose;
pub mod render;
pub mod skeleton;

verus! {

/// A recoverable loading failure, carrying diagnostic text.
pub enum SpineError {
    /// The atlas descriptor was rejected.
    FailLoadAtlas(String),
    /// The skeleton asset was rejected.
    FailLoadSkeleton(String),
}

impl SpineError {
    /// The diagnostic text carried by this error.
    pub fn message(&self) -> (r: &String)
        ensures
            r@ == self.text(),
    {
        match self {
            SpineError::FailLoadAtlas(s) => s,
            SpineError::FailLoadSkeleton(s) => s,
        }
    }

    /// The diagnostic text, as a spec-level sequence.
    pub open spec fn text(&self) -> Seq<char> {
        match self {
            SpineError::FailLoadAtlas(s) => s@,
            SpineError::FailLoadSkeleton(s) => s@,
        }
    }
}

} // verus!
