//! Request payloads and response DTOs of the JSON API.
//!
//! These are plain data shapes: the envelope structs mirror the wire format
//! (`{"user": ...}`, `{"article": ...}`, ...), and the handlers' contracts
//! pin every field of every response that leaves the library.

use vstd::prelude::*;

verus! {

// ----- request payloads -----

#[derive(Debug)]
pub struct RegistrationDetails {
    pub email: String,
    pub username: String,
    pub password: String,
}

#[derive(Debug)]
pub struct Registration {
    pub user: RegistrationDetails,
}

#[derive(Debug)]
pub struct LoginDetails {
    pub email: String,
    pub password: String,
}

#[derive(Debug)]
pub struct Login {
    pub user: LoginDetails,
}

/// Partial user update: an absent field leaves the stored value unchanged.
#[derive(Debug)]
pub struct UpdateUserDetail {
    pub email: Option<String>,
    pub username: Option<String>,
    pub bio: Option<String>,
    pub image: Option<String>,
    pub password: Option<String>,
}

#[derive(Debug)]
pub struct UpdateUser {
    pub user: UpdateUserDetail,
}

#[allow(non_snake_case)]
#[derive(Debug)]
pub struct CreateArticleDetail {
    pub title: String,
    pub description: String,
    pub body: String,
    pub tagList: Option<Vec<String>>,
}

#[derive(Debug)]
pub struct CreateArticle {
    pub article: CreateArticleDetail,
}

/// Partial article update: an absent field leaves the stored value unchanged.
#[derive(Debug)]
pub struct UpdateArticleDetail {
    pub title: Option<String>,
    pub description: Option<String>,
    pub body: Option<String>,
}

#[derive(Debug)]
pub struct UpdateArticle {
    pub article: UpdateArticleDetail,
}

#[derive(Debug)]
pub struct AddCommentDetail {
    pub body: String,
}

#[derive(Debug)]
pub struct AddComment {
    pub comment: AddCommentDetail,
}

// ----- response DTOs -----

#[derive(Debug)]
pub struct User {
    pub email: String,
    pub token: String,
    pub username: String,
    pub bio: Option<String>,
    pub image: Option<String>,
}

#[derive(Debug)]
pub struct UserResult {
    pub user: User,
}

#[derive(Debug)]
pub struct Profile {
    pub username: String,
    pub bio: Option<String>,
    pub image: Option<String>,
    pub following: bool,
}

#[derive(Debug)]
pub struct ProfileResult {
    pub profile: Profile,
}

#[allow(non_snake_case)]
#[derive(Debug)]
pub struct Article {
    pub slug: String,
    pub title: String,
    pub description: String,
    pub body: String,
    pub tagList: Vec<String>,
    pub createdAt: u64,
    pub updatedAt: Option<u64>,
    pub favorited: bool,
    pub favoritesCount: u64,
    pub author: Profile,
}

#[derive(Debug)]
pub struct CreateArticleResult {
    pub article: Article,
}

#[derive(Debug)]
pub struct ArticlesResult {
    pub articles: Vec<Article>,
}

#[allow(non_snake_case)]
#[derive(Debug)]
pub struct Comment {
    pub id: u64,
    pub createdAt: u64,
    pub updatedAt: u64,
    pub body: String,
    pub author: Profile,
}

#[derive(Debug)]
pub struct CommentResult {
    pub comment: Comment,
}

#[derive(Debug)]
pub struct CommentsResult {
    pub comments: Vec<Comment>,
}

#[derive(Debug)]
pub struct GetTagsResult {
    pub tags: Vec<String>,
}

// ----- view helpers -----

/// The character-level view of an optional string.
pub open spec fn opt_str(o: Option<String>) -> Option<Seq<char>> {
    match o {
        None => None,
        Some(s) => Some(s@),
    }
}

/// Clone an optional string, preserving its view.
pub fn clone_opt_string(o: &Option<String>) -> (r: Option<String>)
    ensures
        opt_str(r) == opt_str(*o),
{
    match o {
        None => None,
        Some(s) => Some(s.clone()),
    }
}

} // verus!
