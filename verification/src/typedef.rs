use vstd::prelude::*;

verus! {

/// Identifier of a page in the table file.
pub type PageId = u32;

/// Index of a slot in a page's directory.
pub type SlotId = u32;

/// Identifier of a frame in the buffer pool.
pub type FrameId = usize;

/// Size in bytes of every page and of every frame.
pub const PAGE_SIZE: usize = 4096;

/// The page id that marks the end of a page chain.
pub const INVALID_PAGE_ID: PageId = 0;

} // verus!
