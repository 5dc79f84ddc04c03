//! The normalized post document and its mathematical views.
use vstd::prelude::*;
use crate::json::JsonNumber;

verus! {

/// The account that owns a post, or one tagged in it.
#[derive(Debug)]
pub struct User {
    pub id: String,
    pub image: String,
    pub full_name: String,
    pub username: String,
    pub is_verified: bool,
}

pub struct UserView {
    pub id: Seq<char>,
    pub image: Seq<char>,
    pub full_name: Seq<char>,
    pub username: Seq<char>,
    pub is_verified: bool,
}

impl View for User {
    type V = UserView;

    open spec fn view(&self) -> UserView {
        UserView {
            id: self.id@,
            image: self.image@,
            full_name: self.full_name@,
            username: self.username@,
            is_verified: self.is_verified,
        }
    }
}

/// One rendition of a thumbnail.
#[derive(Debug)]
pub struct Source {
    pub src: String,
    pub width: u32,
    pub height: u32,
}

pub struct SourceView {
    pub src: Seq<char>,
    pub width: u32,
    pub height: u32,
}

impl View for Source {
    type V = SourceView;

    open spec fn view(&self) -> SourceView {
        SourceView { src: self.src@, width: self.width, height: self.height }
    }
}

/// One image or video of a post.
#[derive(Debug)]
pub struct Media {
    pub id: String,
    pub shortcode: String,
    pub thumbnail: String,
    pub resources: Vec<Source>,
    pub video: Option<String>,
    /// The duration in seconds, as the payload wrote the number.
    pub video_duration: Option<JsonNumber>,
    pub is_video: bool,
}

pub struct MediaView {
    pub id: Seq<char>,
    pub shortcode: Seq<char>,
    pub thumbnail: Seq<char>,
    pub resources: Seq<SourceView>,
    pub video: Option<Seq<char>>,
    pub video_duration: Option<JsonNumber>,
    pub is_video: bool,
}

impl View for Media {
    type V = MediaView;

    open spec fn view(&self) -> MediaView {
        MediaView {
            id: self.id@,
            shortcode: self.shortcode@,
            thumbnail: self.thumbnail@,
            resources: sources_view(self.resources@),
            video: match self.video {
                Some(v) => Some(v@),
                None => None,
            },
            video_duration: self.video_duration,
            is_video: self.is_video,
        }
    }
}

/// A post with its owner, tagged users, caption fragments and media.
#[derive(Debug)]
pub struct Post {
    pub id: String,
    pub shortcode: String,
    pub typename: String,
    pub user: User,
    pub tagged_user: Vec<User>,
    pub caption: Vec<String>,
    pub media: Vec<Media>,
}

pub struct PostView {
    pub id: Seq<char>,
    pub shortcode: Seq<char>,
    pub typename: Seq<char>,
    pub user: UserView,
    pub tagged_user: Seq<UserView>,
    pub caption: Seq<Seq<char>>,
    pub media: Seq<MediaView>,
}

impl View for Post {
    type V = PostView;

    open spec fn view(&self) -> PostView {
        PostView {
            id: self.id@,
            shortcode: self.shortcode@,
            typename: self.typename@,
            user: self.user@,
            tagged_user: users_view(self.tagged_user@),
            caption: texts_view(self.caption@),
            media: medias_view(self.media@),
        }
    }
}

pub open spec fn users_view(s: Seq<User>) -> Seq<UserView> {
    s.map_values(|u: User| u@)
}

pub open spec fn sources_view(s: Seq<Source>) -> Seq<SourceView> {
    s.map_values(|x: Source| x@)
}

pub open spec fn medias_view(s: Seq<Media>) -> Seq<MediaView> {
    s.map_values(|m: Media| m@)
}

pub open spec fn texts_view(s: Seq<String>) -> Seq<Seq<char>> {
    s.map_values(|t: String| t@)
}

/// Why a post could not be had.
#[derive(PartialEq, Eq, Structural, Clone, Copy, Debug)]
pub enum FetchError {
    /// No post identifier could be found in the URL.
    InvalidUrl,
    /// The remote platform could not be reached, or its answer could not be read as JSON.
    NetworkError,
    /// The answer was JSON, but not in the shape of a post.
    MalformedResponse,
}

} // verus!
