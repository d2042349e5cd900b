//! Tags.

use vstd::prelude::*;
use crate::foreign::validate_length;
use crate::validation::{Violation, flagged};

verus! {

/// A stored tag.
#[derive(Clone, Debug)]
pub struct Tag {
    pub tag_id: i32,
    pub type_id: i32,
    pub tag_value: String,
}

/// A tag to be stored, or the new contents of a stored one.
#[derive(Clone, Debug)]
pub struct NewTag {
    pub tag_id: i32,
    pub tag_value: String,
}

impl NewTag {
    /// The rules that this tag breaks: its value has at least 2 characters.
    pub open spec fn violations(&self) -> Seq<Violation> {
        flagged(self.tag_value@.len() >= 2, Violation::TagValueTooShort)
    }

    /// Holds the tag to its rules; the error lists every rule it breaks.
    pub fn validate(&self) -> (outcome: Result<(), Vec<Violation>>)
        ensures
            match outcome {
                Ok(_) => self.violations().len() == 0,
                Err(found) => found@ == self.violations() && found@.len() > 0,
            },
    {
        let mut found: Vec<Violation> = Vec::new();
        Violation::flag(
            validate_length(&self.tag_value, Some(2), None, None),
            Violation::TagValueTooShort,
            &mut found,
        );
        assert(found@ =~= self.violations());
        Violation::conclude(found)
    }
}

} // verus!
