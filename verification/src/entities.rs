//! The data the API serves: users, posts, and the creation timestamps
//! their snowflake ids carry.

use crate::decimal::{parse_u64, parse_u64_chars};
use crate::snowflake::{id_timestamp_ms, SnowflakeGenerator};
use vstd::prelude::*;

verus! {

/// A user as authentication sees them.
#[derive(Debug, Clone)]
pub struct AuthUser {
    pub username: String,
    pub user_id: String,
    pub email: String,
    pub password_hash: Option<String>,
    pub email_verified: Option<bool>,
    pub pending_email: Option<String>,
    pub pending_email_until: Option<i64>,
}

/// A user as the frontend sees them.
#[derive(Debug, Clone)]
pub struct User {
    pub user_id: String,
    pub username: String,
    pub role_id: i32,
    pub following_count: Option<i64>,
    pub followers_count: Option<i64>,
    pub display_name: Option<String>,
    pub avatar_url: Option<String>,
    pub banner_url: Option<String>,
    pub bio: Option<String>,
    pub badges: Option<Vec<i16>>,
    pub languages: Option<Vec<String>>,
}

/// A post as the frontend sees it.
#[derive(Debug, Clone)]
pub struct Post {
    pub post_id: String,
    pub user_id: String,
    pub content: String,
    pub created_at: i64,
    pub updated_at: i64,
    pub likes_count: i64,
    pub dislikes_count: i64,
    pub comments_count: i64,
    pub flags: Vec<String>,
    pub media: Vec<String>,
    pub media_type: Option<String>,
    pub status: Option<String>,
    pub is_deleted: Option<bool>,
    pub tags: Option<Vec<String>>,
}

/// When the id string was minted, in milliseconds since the Unix epoch;
/// `None` if the id is not a decimal number.
pub fn created_at_ms_of_id(user_id: &str) -> (r: Option<u64>)
    ensures
        match parse_u64_chars(user_id@) {
            Some(id) => r == Some(id_timestamp_ms(id)),
            None => r is None,
        },
{
    match parse_u64(user_id) {
        Some(id) => {
            let (ts, _server, _worker, _seq) = SnowflakeGenerator::parse(id);
            Some(ts)
        },
        None => None,
    }
}

impl AuthUser {
    /// When this account was created, read out of its snowflake id.
    pub fn created_at_ms(&self) -> (r: Option<u64>)
        ensures
            match parse_u64_chars(self.user_id@) {
                Some(id) => r == Some(id_timestamp_ms(id)),
                None => r is None,
            },
    {
        created_at_ms_of_id(self.user_id.as_str())
    }
}

impl User {
    /// When this account was created, read out of its snowflake id.
    pub fn created_at_ms(&self) -> (r: Option<u64>)
        ensures
            match parse_u64_chars(self.user_id@) {
                Some(id) => r == Some(id_timestamp_ms(id)),
                None => r is None,
            },
    {
        created_at_ms_of_id(self.user_id.as_str())
    }
}

} // verus!
