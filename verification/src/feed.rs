//! Request bodies and query parameters of the social feed.
//!
//! The feed itself is a collaborator outside the core; these are the plain
//! shapes it exchanges, including the clamped pagination parameters.

use vstd::prelude::*;

verus! {

#[derive(Debug)]
pub struct CreateFeedPostRequest {
    pub content: String,
    pub images: Vec<String>,
}

#[derive(Debug)]
pub struct UpdateFeedPostRequest {
    pub content: String,
    pub images: Vec<String>,
}

#[derive(Debug)]
pub struct CreateFeedCommentRequest {
    pub content: String,
}

#[derive(Debug)]
pub struct UpdateFeedCommentRequest {
    pub content: String,
}

/// Feed pagination: an optional offset and page size, normalised by
/// `offset` and `limit`.
#[derive(Debug, Clone, Copy, PartialEq, Eq, Structural)]
pub struct FeedQueryParams {
    pub offset: Option<i32>,
    pub limit: Option<i32>,
}

impl FeedQueryParams {
    /// The requested offset, never negative; missing means zero.
    pub fn offset(&self) -> (r: i32)
        ensures
            r == (match self.offset {
                Some(o) => if o >= 0 {
                    o
                } else {
                    0
                },
                None => 0,
            }),
    {
        match self.offset {
            Some(o) => if o >= 0 {
                o
            } else {
                0
            },
            None => 0,
        }
    }

    /// The requested page size, clamped between one and one hundred;
    /// missing means twenty.
    pub fn limit(&self) -> (r: i32)
        ensures
            r == (match self.limit {
                Some(l) => if l < 1 {
                    1int
                } else if l > 100 {
                    100int
                } else {
                    l as int
                },
                None => 20int,
            }),
    {
        let l = match self.limit {
            Some(l) => l,
            None => 20,
        };
        if l < 1 {
            1
        } else if l > 100 {
            100
        } else {
            l
        }
    }
}

} // verus!
