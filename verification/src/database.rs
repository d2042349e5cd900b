//! The records of the store and the operations on them.

use vstd::prelude::*;

pub mod diff_group;
pub mod diff_group_image;
pub mod image;
pub mod image_tag;
pub mod tag;
pub mod tag_type;

verus! {

/// The direction of a listing.
#[derive(Clone, Copy, Debug, PartialEq, Eq, Structural)]
pub enum SortType {
    /// Lowest rank first.
    Ascending,
    /// Highest rank first.
    Descending,
}

/// The number of rows that come before a page, where pages are counted
/// from one.
pub open spec fn rows_before(page: int, per_page: int) -> int {
    (page - 1) * per_page
}

/// The number of rows to skip for a page of a listing, `None` where that
/// number does not fit into an `i64`.
pub fn page_offset(page: i64, per_page: i64) -> (offset: Option<i64>)
    ensures
        match offset {
            Some(rows) => rows == rows_before(page as int, per_page as int),
            None => rows_before(page as int, per_page as int) < i64::MIN || rows_before(
                page as int,
                per_page as int,
            ) > i64::MAX,
        },
{
    match page.checked_sub(1) {
        Some(before) => before.checked_mul(per_page),
        None => {
            if per_page == 0 {
                Some(0)
            } else {
                assert(rows_before(page as int, per_page as int) < i64::MIN || rows_before(
                    page as int,
                    per_page as int,
                ) > i64::MAX) by (nonlinear_arith)
                    requires
                        page - 1 < i64::MIN,
                        per_page != 0,
                        i64::MIN <= per_page <= i64::MAX,
                ;
                None
            }
        },
    }
}

} // verus!
