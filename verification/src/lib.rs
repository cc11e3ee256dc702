//! Collects diagnostic messages emitted inside nested, titled regions
//! of a program into a tree that mirrors the regions' nesting, and
//! renders each outermost region as one framed report. The runtime
//! half records and renders; the resolver half rewrites an annotated
//! function body so that each annotation opens a recording scope.

use vstd::prelude::*;

pub mod action;
pub mod context;
pub mod render;
pub mod resolve;

verus! {

/// Glyph set used for frame borders and tree connectors.
#[derive(Clone, Copy, PartialEq, Eq, Structural, Debug)]
pub enum Theme {
    Unicode,
    Ascii,
}

/// Opaque, payload-free failure marker.
///
/// All context is recorded as an error leaf at the point the failure
/// is produced, so the value itself carries nothing forward.
#[derive(Debug)]
pub struct Error;

} // verus!
