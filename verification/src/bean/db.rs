//! Articles.

use vstd::prelude::*;

verus! {

/// A stored article.
#[derive(Clone, Debug)]
pub struct Article {
    pub id: i32,
    pub title: String,
    pub author: String,
    pub content: String,
    pub created_at: String,
}

/// An article to be stored, or the new contents of a stored one.
#[derive(Clone, Debug)]
pub struct PostArticle {
    pub title: String,
    pub author: String,
    pub content: String,
    pub created_at: String,
}

} // verus!
