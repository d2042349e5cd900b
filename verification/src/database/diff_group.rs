//! Groups of images.

use vstd::prelude::*;
use vstd::string::*;
use crate::foreign::{is_hyphenated_id, random_id, validate_length};
use crate::validation::{Violation, flagged};

verus! {

/// A stored group.
#[derive(Clone, Debug)]
pub struct DiffGroup {
    pub group_id: String,
    pub group_name: String,
    pub cover_image_id: Option<i32>,
    pub created_at: String,
}

/// A group to be stored, or the new contents of a stored one.
#[derive(Clone, Debug)]
pub struct NewDiffGroup {
    pub group_id: String,
    pub group_name: String,
    pub cover_image_id: Option<i32>,
}

impl DiffGroup {
    /// The pattern that finds the groups whose name holds the keyword: the
    /// keyword between two percent signs.
    pub fn keyword_pattern(keyword: &str) -> (pattern: String)
        ensures
            pattern@ == seq!['%'] + keyword@ + seq!['%'],
    {
        proof {
            reveal_strlit("%");
        }
        let pattern = String::from_str("%").concat(keyword).concat("%");
        assert(pattern@ =~= seq!['%'] + keyword@ + seq!['%']);
        pattern
    }
}

impl NewDiffGroup {
    /// The rules that this group breaks: its identifier has at least 36
    /// characters and its name at least 2.
    pub open spec fn violations(&self) -> Seq<Violation> {
        flagged(self.group_id@.len() >= 36, Violation::GroupIdTooShort) + flagged(
            self.group_name@.len() >= 2,
            Violation::GroupNameTooShort,
        )
    }

    /// A group with the identifier the caller names.
    pub fn new_with_id(group_id: String, group_name: String, cover_image_id: Option<i32>) -> (group:
        Self)
        ensures
            group.group_id@ == group_id@,
            group.group_name@ == group_name@,
            group.cover_image_id == cover_image_id,
    {
        Self { group_id, group_name, cover_image_id }
    }

    /// A group with a fresh random identifier, in hyphenated form. The
    /// identifier meets the rule on identifiers. Drawing it panics where
    /// the operating system can give no random bytes; a caller that must
    /// not panic draws the identifier itself and calls `new_with_id`.
    pub fn new(group_name: String, cover_image_id: Option<i32>) -> (group: Self)
        ensures
            is_hyphenated_id(group.group_id@),
            group.group_name@ == group_name@,
            group.cover_image_id == cover_image_id,
            group.violations() == flagged(
                group_name@.len() >= 2,
                Violation::GroupNameTooShort,
            ),
    {
        let group_id = random_id();
        let group = Self { group_id, group_name, cover_image_id };
        assert(group.violations() =~= flagged(
            group_name@.len() >= 2,
            Violation::GroupNameTooShort,
        ));
        group
    }

    /// Holds the group to its rules; the error lists every rule it breaks,
    /// in the order of the fields.
    pub fn validate(&self) -> (outcome: Result<(), Vec<Violation>>)
        ensures
            match outcome {
                Ok(_) => self.violations().len() == 0,
                Err(found) => found@ == self.violations() && found@.len() > 0,
            },
    {
        let mut found: Vec<Violation> = Vec::new();
        Violation::flag(
            validate_length(&self.group_id, Some(36), None, None),
            Violation::GroupIdTooShort,
            &mut found,
        );
        Violation::flag(
            validate_length(&self.group_name, Some(2), None, None),
            Violation::GroupNameTooShort,
            &mut found,
        );
        assert(found@ =~= self.violations());
        Violation::conclude(found)
    }
}

} // verus!
