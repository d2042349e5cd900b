//! Which image bears which tag.

use vstd::prelude::*;

verus! {

/// A stored link between an image and a tag.
#[derive(Clone, Copy, Debug, PartialEq, Eq, Structural)]
pub struct ImageTag {
    pub image_id: i32,
    pub tag_id: i32,
}

/// A link between an image and a tag, to be stored.
#[derive(Clone, Copy, Debug, PartialEq, Eq, Structural)]
pub struct NewImageTag {
    pub image_id: i32,
    pub tag_id: i32,
}

} // verus!
