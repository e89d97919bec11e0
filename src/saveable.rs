//! The [`Saveable`] trait that producers implement for the items they submit.

use vstd::prelude::*;

verus! {

/// An item that carries HTML content and the name it is stored under.
///
/// The worker reads both at flush time: the content goes through the
/// sanitizer pipeline, and the name, behind the configured prefix, becomes
/// the storage key.
pub trait Saveable: Send + 'static {
    /// The raw HTML content to save.
    fn content(&self) -> &str;

    /// The storage key (file path or object key) of this item.
    fn name(&self) -> String;
}

} // verus!
