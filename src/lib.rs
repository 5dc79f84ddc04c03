//! Fetching an Instagram post: the shortcode is found in a URL, the lookup query is built
//! from it, and the platform's JSON answer is normalized into a `Post`.
pub mod json;
pub mod normalize;
pub mod post;
pub mod shortcode;

pub use json::{JsonNumber, JsonValue};
pub use normalize::{normalize, tagged_user};
pub use post::{FetchError, Media, Post, Source, User};
pub use shortcode::{Instagram, Utils};
