//! A skeletal interface for pluggable per-link verifiers.

use vstd::prelude::*;

use crate::Link;

verus! {

/// The result of checking whether a [`Link`] is valid.
#[derive(Debug, Clone, Copy, PartialEq, Eq, Structural)]
pub enum ValidationResult {
    /// This [`Link`] is valid.
    Valid,
    /// This type of link isn't supported.
    Unsupported,
    /// The link should be ignored.
    Ignored,
}

/// Something used to check whether a link is valid.
///
/// An implementation that does not support a particular kind of [`Link`]
/// should quickly detect this and answer
/// [`ValidationResult::Unsupported`], so another [`Verifier`] can be tried.
pub trait Verifier: Sized {
    /// Check the link.
    fn verify(&self, link: &Link) -> ValidationResult;
}

/// A [`Verifier`] for links on the local filesystem.
#[derive(Debug, Clone, PartialEq)]
pub struct File {}

/// A [`Verifier`] for checking links on the internet.
#[derive(Debug, Clone, PartialEq)]
pub struct Web {}

} // verus!
