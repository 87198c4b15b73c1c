use vstd::prelude::*;

verus! {

/// What can go wrong in the storage layer.
#[derive(Debug, Clone, PartialEq, Eq)]
pub enum Error {
    /// A record id that does not address a tuple of the page it was used on.
    /// The text is the record id.
    InvalidInput(String),
    /// A tuple that does not fit into the free space of a page.
    OutOfSpace,
    /// Bytes that are not a table page.
    Io(String),
}

} // verus!
