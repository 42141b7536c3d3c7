//! Plain data mirroring the timeline service's response payloads.

use vstd::prelude::*;

use crate::scheduler::strs;

verus! {

/// The view of an optional string.
pub open spec fn opt_str(o: Option<String>) -> Option<Seq<char>> {
    match o {
        Some(s) => Some(s@),
        None => None,
    }
}

/// One tweet of a timeline response.
#[derive(Debug)]
pub struct Tweet {
    pub author_id: String,
    pub created_at: String,
    pub edit_history_tweet_ids: Vec<String>,
    pub id: String,
    pub text: String,
}

/// The mathematical value of a `Tweet`.
#[verifier::ext_equal]
pub ghost struct TweetV {
    pub author_id: Seq<char>,
    pub created_at: Seq<char>,
    pub edit_history_tweet_ids: Seq<Seq<char>>,
    pub id: Seq<char>,
    pub text: Seq<char>,
}

impl View for Tweet {
    type V = TweetV;

    open spec fn view(&self) -> TweetV {
        TweetV {
            author_id: self.author_id@,
            created_at: self.created_at@,
            edit_history_tweet_ids: strs(self.edit_history_tweet_ids@),
            id: self.id@,
            text: self.text@,
        }
    }
}

/// One author of a timeline response.
#[derive(Debug)]
pub struct User {
    pub id: String,
    pub name: String,
    pub username: String,
    pub profile_image_url: String,
}

/// One media item attached to a tweet.  `url` carries the full image
/// address, `preview_image_url` the still used for animated media;
/// either may be absent in a response.
#[derive(Debug)]
pub struct Media {
    pub media_key: String,
    pub kind: String,
    pub url: Option<String>,
    pub preview_image_url: Option<String>,
}

/// The mathematical value of a `User`.
#[verifier::ext_equal]
pub ghost struct UserV {
    pub id: Seq<char>,
    pub name: Seq<char>,
    pub username: Seq<char>,
    pub profile_image_url: Seq<char>,
}

impl View for User {
    type V = UserV;

    open spec fn view(&self) -> UserV {
        UserV {
            id: self.id@,
            name: self.name@,
            username: self.username@,
            profile_image_url: self.profile_image_url@,
        }
    }
}

/// The views of a sequence of users.
pub open spec fn user_views(s: Seq<User>) -> Seq<UserV> {
    s.map_values(|u: User| u@)
}

/// The mathematical value of a `Media`.
#[verifier::ext_equal]
pub ghost struct MediaV {
    pub media_key: Seq<char>,
    pub kind: Seq<char>,
    pub url: Option<Seq<char>>,
    pub preview_image_url: Option<Seq<char>>,
}

impl View for Media {
    type V = MediaV;

    open spec fn view(&self) -> MediaV {
        MediaV {
            media_key: self.media_key@,
            kind: self.kind@,
            url: opt_str(self.url),
            preview_image_url: opt_str(self.preview_image_url),
        }
    }
}

/// The views of a sequence of media items.
pub open spec fn media_views(s: Seq<Media>) -> Seq<MediaV> {
    s.map_values(|m: Media| m@)
}

/// The authors bundled with a timeline response.
#[derive(Debug)]
pub struct Includes {
    pub users: Vec<User>,
}

/// Paging information of a timeline response.
#[derive(Debug)]
pub struct Meta {
    pub newest_id: Option<String>,
    pub next_token: Option<String>,
    pub oldest_id: Option<String>,
    pub result_count: u32,
}

/// A whole timeline response.
#[derive(Debug)]
pub struct TweetsResponse {
    pub data: Option<Vec<Tweet>>,
    pub includes: Option<Includes>,
    pub meta: Meta,
}

} // verus!
