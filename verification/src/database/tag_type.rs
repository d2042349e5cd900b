//! The kinds of tags.

use vstd::prelude::*;

verus! {

/// A stored kind of tag.
#[derive(Clone, Debug)]
pub struct TagType {
    pub type_id: i32,
    pub name: String,
}

} // verus!
