//! Images.

use vstd::prelude::*;
use crate::foreign::{validate_length, validate_range};
use crate::validation::{Violation, flagged, is_unix_path, unix_path};

verus! {

/// A stored image.
#[derive(Clone, Debug)]
pub struct Image {
    pub id: i32,
    pub file_path: String,
    pub collection_path: String,
    pub filesize: i64,
    pub checksum: Option<String>,
    pub exif_json: Option<String>,
    pub created_at: String,
    pub modified_at: String,
}

/// An image to be stored, or the new contents of a stored one.
#[derive(Clone, Debug)]
pub struct NewImage {
    pub file_path: String,
    pub collection_path: String,
    pub filesize: i64,
    pub checksum: Option<String>,
    pub exif_json: Option<String>,
}

impl NewImage {
    /// The rules that this image breaks: the path of the file is not
    /// empty, the path of the collection is an absolute path, the size is
    /// positive, and a checksum, where there is one, has 64 characters.
    pub open spec fn violations(&self) -> Seq<Violation> {
        flagged(self.file_path@.len() >= 1, Violation::FilePathEmpty) + flagged(
            is_unix_path(self.collection_path@),
            Violation::CollectionPathMalformed,
        ) + flagged(self.filesize >= 1, Violation::FileSizeNotPositive) + flagged(
            self.checksum matches Some(sum) ==> sum@.len() == 64,
            Violation::ChecksumLength,
        )
    }

    /// Holds the image to its rules; the error lists every rule it breaks,
    /// in the order of the fields.
    pub fn validate(&self) -> (outcome: Result<(), Vec<Violation>>)
        ensures
            match outcome {
                Ok(_) => self.violations().len() == 0,
                Err(found) => found@ == self.violations() && found@.len() > 0,
            },
    {
        let mut found: Vec<Violation> = Vec::new();
        Violation::flag(
            validate_length(&self.file_path, Some(1), None, None),
            Violation::FilePathEmpty,
            &mut found,
        );
        Violation::flag(
            unix_path(self.collection_path.as_str()),
            Violation::CollectionPathMalformed,
            &mut found,
        );
        Violation::flag(
            validate_range(self.filesize, Some(1), None),
            Violation::FileSizeNotPositive,
            &mut found,
        );
        let checksum_kept = match &self.checksum {
            Some(sum) => validate_length(sum, None, None, Some(64)),
            None => true,
        };
        Violation::flag(checksum_kept, Violation::ChecksumLength, &mut found);
        assert(found@ =~= self.violations());
        Violation::conclude(found)
    }
}

} // verus!
