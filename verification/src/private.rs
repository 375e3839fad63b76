//! The sealing trait behind the section-builder surface.

use vstd::prelude::*;

verus! {

/// Seals [`crate::section::Section`]: only a fallible result whose error side
/// is a [`crate::Report`] can carry the builder methods.
pub trait Sealed {

}

impl<T> Sealed for Result<T, crate::Report> {

}

} // verus!
