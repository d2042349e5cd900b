//! The rules that new records have to meet before they are stored.

use vstd::prelude::*;
use vstd::string::*;

verus! {

/// A rule that a new record breaks.
#[derive(Clone, Copy, Debug, PartialEq, Eq, Structural)]
pub enum Violation {
    /// The identifier of a group has fewer than 36 characters.
    GroupIdTooShort,
    /// The name of a group has fewer than 2 characters.
    GroupNameTooShort,
    /// A sort order is negative or above the highest storable rank.
    SortOrderOutOfRange,
    /// The path of a file is empty.
    FilePathEmpty,
    /// The path of a collection is not an absolute path.
    CollectionPathMalformed,
    /// The size of a file is not positive.
    FileSizeNotPositive,
    /// A checksum does not have 64 characters.
    ChecksumLength,
    /// The value of a tag has fewer than 2 characters.
    TagValueTooShort,
}

/// The violation, where the rule is broken; nothing, where it is kept.
pub open spec fn flagged(kept: bool, violation: Violation) -> Seq<Violation> {
    if kept {
        Seq::empty()
    } else {
        seq![violation]
    }
}

/// An absolute path in the style of Unix: a slash, then one or more names
/// with a slash between them. A name is one or more characters other than
/// the slash, so the path neither ends in a slash nor holds two in a row.
pub open spec fn is_unix_path(path: Seq<char>) -> bool {
    &&& path.len() >= 2
    &&& path[0] == '/'
    &&& path.last() != '/'
    &&& forall|k: int| 0 < k < path.len() ==> !(#[trigger] path[k] == '/' && path[k - 1] == '/')
}

/// Tells whether a path is an absolute path in the style of Unix.
pub fn unix_path(path: &str) -> (ok: bool)
    ensures
        ok == is_unix_path(path@),
{
    broadcast use group_string_axioms;

    let mut seen_one = false;
    let mut seen_two = false;
    let mut after_slash = false;
    let mut sound = true;
    for c in it: path.chars()
        invariant
            it.seq() == path@,
            seen_one == (it.index() >= 1),
            seen_two == (it.index() >= 2),
            seen_one ==> after_slash == (path@[it.index() - 1] == '/'),
            sound == ((seen_one ==> path@[0] == '/') && forall|k: int|
                0 < k < it.index() ==> !(#[trigger] path@[k] == '/' && path@[k - 1] == '/')),
    {
        let slash = c == '/';
        if !seen_one {
            sound = slash;
        } else if slash && after_slash {
            sound = false;
        }
        seen_two = seen_one;
        seen_one = true;
        after_slash = slash;
    }
    sound && seen_two && !after_slash
}

/// What the caller is told of a broken rule.
pub open spec fn message_of(violation: Violation) -> Seq<char> {
    match violation {
        Violation::GroupIdTooShort => "差分组uuid长度错误"@,
        Violation::GroupNameTooShort => "差分组名称需大于等于2个字符"@,
        Violation::SortOrderOutOfRange => "排序值必须大于等于0"@,
        Violation::FilePathEmpty => "文件路径不能为空"@,
        Violation::CollectionPathMalformed => "合集路径必须为有效的Unix风格路径"@,
        Violation::FileSizeNotPositive => "文件大小必须大于0"@,
        Violation::ChecksumLength => "校验和必须为64字符"@,
        Violation::TagValueTooShort => "标签值不能为空，至少2个字符"@,
    }
}

impl Violation {
    /// What the caller is told of this broken rule.
    pub fn message(&self) -> (text: String)
        ensures
            text@ == message_of(*self),
    {
        match self {
            Violation::GroupIdTooShort => "差分组uuid长度错误".to_owned(),
            Violation::GroupNameTooShort => "差分组名称需大于等于2个字符".to_owned(),
            Violation::SortOrderOutOfRange => "排序值必须大于等于0".to_owned(),
            Violation::FilePathEmpty => "文件路径不能为空".to_owned(),
            Violation::CollectionPathMalformed => "合集路径必须为有效的Unix风格路径".to_owned(),
            Violation::FileSizeNotPositive => "文件大小必须大于0".to_owned(),
            Violation::ChecksumLength => "校验和必须为64字符".to_owned(),
            Violation::TagValueTooShort => "标签值不能为空，至少2个字符".to_owned(),
        }
    }

    /// The outcome of a validation that found these violations: a success
    /// where there is none, else the violations.
    pub fn conclude(found: Vec<Violation>) -> (outcome: Result<(), Vec<Violation>>)
        ensures
            match outcome {
                Ok(_) => found@.len() == 0,
                Err(listed) => listed@ == found@ && found@.len() > 0,
            },
    {
        if found.len() == 0 {
            Ok(())
        } else {
            Err(found)
        }
    }

    /// Records a violation where a rule is broken.
    pub fn flag(kept: bool, violation: Violation, found: &mut Vec<Violation>)
        ensures
            final(found)@ == old(found)@ + flagged(kept, violation),
    {
        if !kept {
            found.push(violation);
        }
        assert(found@ =~= old(found)@ + flagged(kept, violation));
    }
}

} // verus!
