//! Posts of a feed.

use vstd::prelude::*;
use vstd::string::*;

verus! {

/// `uuid::Uuid`, a universally unique identifier. Nothing is known of what
/// it holds.
#[verifier::external_type_specification]
#[verifier::external_body]
pub struct ExUuid(uuid::Uuid);

/// A point in time, UTC: the whole seconds since the start of 1970, and
/// the nanoseconds past them.
#[derive(Debug, Clone, Copy, PartialEq, Eq, Structural)]
pub struct Timestamp {
    pub seconds: i64,
    pub nanoseconds: u32,
}

/// What a post holds.
pub struct PostView {
    pub title: Seq<char>,
    pub body: Seq<char>,
    pub author: Seq<char>,
    pub date_time: Timestamp,
    pub uuid: uuid::Uuid,
}

/// A post: its text, its author, when it was written, and its identifier.
#[derive(Debug)]
pub struct Post {
    title: String,
    body: String,
    author: String,
    date_time: Timestamp,
    uuid: uuid::Uuid,
}

impl View for Post {
    type V = PostView;

    closed spec fn view(&self) -> PostView {
        PostView {
            title: self.title@,
            body: self.body@,
            author: self.author@,
            date_time: self.date_time,
            uuid: self.uuid,
        }
    }
}

impl Post {
    /// The post with the given parts.
    pub fn new(title: &str, body: &str, author: &str, date_time: Timestamp, uuid: uuid::Uuid) -> (post:
        Post)
        ensures
            post@ == (PostView { title: title@, body: body@, author: author@, date_time, uuid }),
    {
        broadcast use to_string_from_display_ensures_for_str;

        Self {
            title: title.to_string(),
            body: body.to_string(),
            author: author.to_string(),
            date_time,
            uuid,
        }
    }

    /// The identifier of the post.
    pub fn uuid(&self) -> (uuid: &uuid::Uuid)
        ensures
            *uuid == self@.uuid,
    {
        &self.uuid
    }

    /// The title of the post.
    pub fn title(&self) -> (title: &String)
        ensures
            title@ == self@.title,
    {
        &self.title
    }

    /// The text of the post.
    pub fn body(&self) -> (body: &String)
        ensures
            body@ == self@.body,
    {
        &self.body
    }

    /// Who wrote the post.
    pub fn author(&self) -> (author: &String)
        ensures
            author@ == self@.author,
    {
        &self.author
    }

    /// When the post was written.
    pub fn date_time(&self) -> (date_time: Timestamp)
        ensures
            date_time == self@.date_time,
    {
        self.date_time
    }
}

} // verus!
