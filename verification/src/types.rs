//! The document model: an action list and its optional metadata envelope.
//!
//! Position values (`pos`, `duration`, `average_speed`, `range`) are IEEE 754
//! binary64 bit patterns; see [`crate::fbits`].

use vstd::prelude::*;

verus! {

/// One control point of a motion script: a timestamp in time units, a
/// position as a binary64 bit pattern, and an optional type tag.
#[derive(Clone, Debug)]
pub struct Action {
    pub at: i64,
    pub pos: u64,
    pub ty: Option<String>,
}

/// The optional metadata envelope of a script document. The transform
/// pipeline never inspects it; it is carried through unchanged.
#[derive(Clone, Debug)]
pub struct Metadata {
    pub duration: Option<u64>,
    pub average_speed: Option<u64>,
    pub creator: Option<String>,
    pub description: Option<String>,
    pub license: Option<String>,
    pub notes: Option<String>,
    pub performers: Option<Vec<String>>,
    pub script_url: Option<String>,
    pub tags: Option<Vec<String>>,
    pub title: Option<String>,
    pub ty: Option<String>,
    pub video_url: Option<String>,
}

/// A script document: the action list, which the pipeline replaces, and the
/// envelope fields, which it leaves alone.
#[derive(Clone, Debug)]
pub struct Funscript {
    pub actions: Vec<Action>,
    pub metadata: Option<Metadata>,
    pub range: Option<u64>,
    pub version: Option<String>,
}

} // verus!
