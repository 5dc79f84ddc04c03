//! Projection of the platform's post payload into a `Post`.
use vstd::prelude::*;
use crate::json::{
    as_dimension, as_flag, as_items, as_text, at, copy_number, deref_opt, dimension_of, field,
    flag_of, is_null, items_of, text_of, JsonNumber, JsonValue, absent_or_null,
};
use crate::post::{
    medias_view, sources_view, texts_view, users_view, FetchError, Media, MediaView, Post,
    PostView, Source, SourceView, User, UserView,
};

verus! {

/// Maps `f` over the first `n` items of `s`; nothing as soon as one item gives nothing.
pub open spec fn map_all<A, B>(s: Seq<A>, f: spec_fn(A) -> Option<B>, n: int) -> Option<Seq<B>>
    decreases n,
{
    if n <= 0 {
        Some(Seq::empty())
    } else {
        match (map_all(s, f, n - 1), f(s[n - 1])) {
            (Some(done), Some(b)) => Some(done.push(b)),
            _ => None,
        }
    }
}

/// Maps `f` over all of `s`.
pub open spec fn all_of<A, B>(s: Seq<A>, f: spec_fn(A) -> Option<B>) -> Option<Seq<B>> {
    map_all(s, f, s.len() as int)
}

pub proof fn lemma_map_all_stays_none<A, B>(s: Seq<A>, f: spec_fn(A) -> Option<B>, i: int, n: int)
    requires
        0 <= i <= n,
        map_all(s, f, i) is None,
    ensures
        map_all(s, f, n) is None,
    decreases n - i,
{
    if n > i {
        lemma_map_all_stays_none(s, f, i, n - 1);
    }
}

pub proof fn lemma_map_all_some<A, B>(s: Seq<A>, f: spec_fn(A) -> Option<B>, n: int)
    requires
        0 <= n,
        map_all(s, f, n) is Some,
    ensures
        map_all(s, f, n)->0.len() == n,
        forall|j: int| 0 <= j < n ==> f(s[j]) == Some(map_all(s, f, n)->0[j]),
    decreases n,
{
    if n > 0 {
        lemma_map_all_some(s, f, n - 1);
        let done = map_all(s, f, n - 1)->0;
        assert forall|j: int| 0 <= j < n implies f(s[j]) == Some(map_all(s, f, n)->0[j]) by {
            if j < n - 1 {
                assert(map_all(s, f, n)->0[j] == done[j]);
            }
        }
    }
}

/// The user described by the object `v`: all five fields must be there.
pub open spec fn user_from(v: Option<JsonValue>) -> Option<UserView> {
    let id = text_of(at(v, "id"@));
    let full_name = text_of(at(v, "full_name"@));
    let username = text_of(at(v, "username"@));
    let image = text_of(at(v, "profile_pic_url"@));
    let verified = flag_of(at(v, "is_verified"@));
    if id is Some && full_name is Some && username is Some && image is Some && verified is Some {
        Some(
            UserView {
                id: id->0,
                image: image->0,
                full_name: full_name->0,
                username: username->0,
                is_verified: verified->0,
            },
        )
    } else {
        None
    }
}

/// The edges of the list `name` of `v`.
pub open spec fn edges_of(v: Option<JsonValue>, name: Seq<char>) -> Option<Seq<JsonValue>> {
    items_of(at(at(v, name), "edges"@))
}

pub open spec fn tagged_entry() -> spec_fn(JsonValue) -> Option<UserView> {
    |e: JsonValue| user_from(at(at(Some(e), "node"@), "user"@))
}

pub open spec fn caption_entry() -> spec_fn(JsonValue) -> Option<Seq<char>> {
    |e: JsonValue| text_of(at(at(Some(e), "node"@), "text"@))
}

pub open spec fn source_from(e: JsonValue) -> Option<SourceView> {
    let src = text_of(at(Some(e), "src"@));
    let width = dimension_of(at(Some(e), "config_width"@));
    let height = dimension_of(at(Some(e), "config_height"@));
    if src is Some && width is Some && height is Some {
        Some(SourceView { src: src->0, width: width->0, height: height->0 })
    } else {
        None
    }
}

pub open spec fn source_entry() -> spec_fn(JsonValue) -> Option<SourceView> {
    |e: JsonValue| source_from(e)
}

/// The duration to record for a field `v`: none when it is absent or null, the number
/// when it is one; nothing at all for any other value.
pub open spec fn duration_from(v: Option<JsonValue>) -> Option<Option<JsonNumber>> {
    match v {
        None => Some(None),
        Some(JsonValue::Null) => Some(None),
        Some(JsonValue::Number(n)) => Some(Some(n)),
        _ => None,
    }
}

/// The media described by the object `v`. Only a single-media post (`single`) carries a
/// duration; a carousel child never does.
pub open spec fn media_from(v: Option<JsonValue>, single: bool) -> Option<MediaView> {
    let id = text_of(at(v, "id"@));
    let shortcode = text_of(at(v, "shortcode"@));
    let thumbnail = text_of(at(v, "display_url"@));
    let resources = match items_of(at(v, "display_resources"@)) {
        Some(items) => all_of(items, source_entry()),
        None => None,
    };
    let is_video = flag_of(at(v, "is_video"@));
    let video = text_of(at(v, "video_url"@));
    let duration = if single {
        duration_from(at(v, "video_duration"@))
    } else {
        Some(None)
    };
    if id is Some && shortcode is Some && thumbnail is Some && resources is Some && is_video is Some
        && (is_video->0 ==> video is Some) && duration is Some {
        Some(
            MediaView {
                id: id->0,
                shortcode: shortcode->0,
                thumbnail: thumbnail->0,
                resources: resources->0,
                video: if is_video->0 {
                    video
                } else {
                    None
                },
                video_duration: duration->0,
                is_video: is_video->0,
            },
        )
    } else {
        None
    }
}

pub open spec fn child_entry() -> spec_fn(JsonValue) -> Option<MediaView> {
    |e: JsonValue| media_from(at(Some(e), "node"@), false)
}

/// The tag of the carousel variant.
pub open spec fn carousel_tag() -> Seq<char> {
    "GraphSidecar"@
}

/// The media of the post `v` whose variant tag is `typename`.
pub open spec fn media_list_from(v: Option<JsonValue>, typename: Seq<char>) -> Option<Seq<MediaView>> {
    if typename == carousel_tag() {
        match edges_of(v, "edge_sidecar_to_children"@) {
            Some(edges) => all_of(edges, child_entry()),
            None => None,
        }
    } else {
        match media_from(v, true) {
            Some(m) => Some(seq![m]),
            None => None,
        }
    }
}

/// The post described by the container `v`, or nothing when a required part is missing.
pub open spec fn post_from(v: Option<JsonValue>) -> Option<PostView> {
    let user = user_from(at(v, "owner"@));
    let tagged = match edges_of(v, "edge_media_to_tagged_user"@) {
        Some(edges) => all_of(edges, tagged_entry()),
        None => None,
    };
    let caption = match edges_of(v, "edge_media_to_caption"@) {
        Some(edges) => all_of(edges, caption_entry()),
        None => None,
    };
    let typename = text_of(at(v, "__typename"@));
    let media = match typename {
        Some(t) => media_list_from(v, t),
        None => None,
    };
    let id = text_of(at(v, "id"@));
    let shortcode = text_of(at(v, "shortcode"@));
    if user is Some && tagged is Some && caption is Some && typename is Some && media is Some
        && id is Some && shortcode is Some {
        Some(
            PostView {
                id: id->0,
                shortcode: shortcode->0,
                typename: typename->0,
                user: user->0,
                tagged_user: tagged->0,
                caption: caption->0,
                media: media->0,
            },
        )
    } else {
        None
    }
}

/// Where the payload holds the post: `data.shortcode_media`.
pub open spec fn container(root: JsonValue) -> Option<JsonValue> {
    at(at(Some(root), "data"@), "shortcode_media"@)
}

/// What a payload says: no post when the container is absent or null, the post when the
/// container describes one, a malformed answer otherwise.
pub open spec fn normalized(root: JsonValue) -> Result<Option<PostView>, FetchError> {
    let c = container(root);
    if is_null(c) {
        Ok(None)
    } else {
        match post_from(c) {
            Some(p) => Ok(Some(p)),
            None => Err(FetchError::MalformedResponse),
        }
    }
}

pub open spec fn outcome_view(r: Result<Option<Post>, FetchError>) -> Result<Option<PostView>, FetchError> {
    match r {
        Ok(Some(p)) => Ok(Some(p@)),
        Ok(None) => Ok(None),
        Err(e) => Err(e),
    }
}

fn read_user(v: Option<&JsonValue>) -> (r: Option<User>)
    ensures
        match r {
            Some(u) => user_from(deref_opt(v)) == Some(u@),
            None => user_from(deref_opt(v)) is None,
        },
{
    let id = as_text(field(v, "id"));
    let full_name = as_text(field(v, "full_name"));
    let username = as_text(field(v, "username"));
    let image = as_text(field(v, "profile_pic_url"));
    let verified = as_flag(field(v, "is_verified"));
    match (id, full_name, username, image, verified) {
        (Some(id), Some(full_name), Some(username), Some(image), Some(is_verified)) => Some(
            User { id, image, full_name, username, is_verified },
        ),
        _ => None,
    }
}

/// The users tagged in a post, one for each edge of the tagged-user list.
pub fn tagged_user(edges: &Vec<JsonValue>) -> (r: Option<Vec<User>>)
    ensures
        match r {
            Some(us) => all_of(edges@, tagged_entry()) == Some(users_view(us@)),
            None => all_of(edges@, tagged_entry()) is None,
        },
{
    let mut out: Vec<User> = Vec::new();
    let mut i: usize = 0;
    while i < edges.len()
        invariant
            i <= edges@.len(),
            map_all(edges@, tagged_entry(), i as int) == Some(users_view(out@)),
        decreases edges.len() - i,
    {
        let node = field(Some(&edges[i]), "node");
        match read_user(field(node, "user")) {
            Some(u) => {
                let ghost before = out@;
                out.push(u);
                assert(users_view(out@) =~= users_view(before).push(u@));
            },
            None => {
                proof {
                    lemma_map_all_stays_none(edges@, tagged_entry(), i + 1, edges@.len() as int);
                }
                return None;
            },
        }
        i += 1;
    }
    Some(out)
}

fn read_captions(edges: &Vec<JsonValue>) -> (r: Option<Vec<String>>)
    ensures
        match r {
            Some(cs) => all_of(edges@, caption_entry()) == Some(texts_view(cs@)),
            None => all_of(edges@, caption_entry()) is None,
        },
{
    let mut out: Vec<String> = Vec::new();
    let mut i: usize = 0;
    while i < edges.len()
        invariant
            i <= edges@.len(),
            map_all(edges@, caption_entry(), i as int) == Some(texts_view(out@)),
        decreases edges.len() - i,
    {
        let node = field(Some(&edges[i]), "node");
        match as_text(field(node, "text")) {
            Some(t) => {
                let ghost before = out@;
                out.push(t);
                assert(texts_view(out@) =~= texts_view(before).push(t@));
            },
            None => {
                proof {
                    lemma_map_all_stays_none(edges@, caption_entry(), i + 1, edges@.len() as int);
                }
                return None;
            },
        }
        i += 1;
    }
    Some(out)
}

fn read_source(e: &JsonValue) -> (r: Option<Source>)
    ensures
        match r {
            Some(x) => source_from(*e) == Some(x@),
            None => source_from(*e) is None,
        },
{
    let src = as_text(field(Some(e), "src"));
    let width = as_dimension(field(Some(e), "config_width"));
    let height = as_dimension(field(Some(e), "config_height"));
    match (src, width, height) {
        (Some(src), Some(width), Some(height)) => Some(Source { src, width, height }),
        _ => None,
    }
}

fn read_sources(items: &Vec<JsonValue>) -> (r: Option<Vec<Source>>)
    ensures
        match r {
            Some(xs) => all_of(items@, source_entry()) == Some(sources_view(xs@)),
            None => all_of(items@, source_entry()) is None,
        },
{
    let mut out: Vec<Source> = Vec::new();
    let mut i: usize = 0;
    while i < items.len()
        invariant
            i <= items@.len(),
            map_all(items@, source_entry(), i as int) == Some(sources_view(out@)),
        decreases items.len() - i,
    {
        match read_source(&items[i]) {
            Some(x) => {
                let ghost before = out@;
                out.push(x);
                assert(sources_view(out@) =~= sources_view(before).push(x@));
            },
            None => {
                proof {
                    lemma_map_all_stays_none(items@, source_entry(), i + 1, items@.len() as int);
                }
                return None;
            },
        }
        i += 1;
    }
    Some(out)
}

fn read_duration(v: Option<&JsonValue>) -> (r: Option<Option<JsonNumber>>)
    ensures
        r == duration_from(deref_opt(v)),
{
    match v {
        None => Some(None),
        Some(JsonValue::Null) => Some(None),
        Some(JsonValue::Number(n)) => Some(Some(copy_number(n))),
        _ => None,
    }
}

fn read_media(v: Option<&JsonValue>, single: bool) -> (r: Option<Media>)
    ensures
        match r {
            Some(m) => media_from(deref_opt(v), single) == Some(m@),
            None => media_from(deref_opt(v), single) is None,
        },
{
    let id = as_text(field(v, "id"));
    let shortcode = as_text(field(v, "shortcode"));
    let thumbnail = as_text(field(v, "display_url"));
    let resources = match as_items(field(v, "display_resources")) {
        Some(items) => read_sources(items),
        None => None,
    };
    let is_video = as_flag(field(v, "is_video"));
    let video_url = as_text(field(v, "video_url"));
    let duration = if single {
        read_duration(field(v, "video_duration"))
    } else {
        Some(None)
    };
    match (id, shortcode, thumbnail, resources, is_video, duration) {
        (Some(id), Some(shortcode), Some(thumbnail), Some(resources), Some(is_video), Some(video_duration)) => {
            let video = if is_video {
                match video_url {
                    Some(u) => Some(u),
                    None => {
                        return None;
                    },
                }
            } else {
                None
            };
            Some(Media { id, shortcode, thumbnail, resources, video, video_duration, is_video })
        },
        _ => None,
    }
}

fn read_children(edges: &Vec<JsonValue>) -> (r: Option<Vec<Media>>)
    ensures
        match r {
            Some(ms) => all_of(edges@, child_entry()) == Some(medias_view(ms@)),
            None => all_of(edges@, child_entry()) is None,
        },
{
    let mut out: Vec<Media> = Vec::new();
    let mut i: usize = 0;
    while i < edges.len()
        invariant
            i <= edges@.len(),
            map_all(edges@, child_entry(), i as int) == Some(medias_view(out@)),
        decreases edges.len() - i,
    {
        match read_media(field(Some(&edges[i]), "node"), false) {
            Some(m) => {
                let ghost before = out@;
                let ghost mv = m@;
                out.push(m);
                assert(medias_view(out@) =~= medias_view(before).push(mv));
            },
            None => {
                proof {
                    lemma_map_all_stays_none(edges@, child_entry(), i + 1, edges@.len() as int);
                }
                return None;
            },
        }
        i += 1;
    }
    Some(out)
}

fn read_media_list(v: Option<&JsonValue>, typename: &String) -> (r: Option<Vec<Media>>)
    ensures
        match r {
            Some(ms) => media_list_from(deref_opt(v), typename@) == Some(medias_view(ms@)),
            None => media_list_from(deref_opt(v), typename@) is None,
        },
{
    let tag = String::from_str("GraphSidecar");
    if *typename == tag {
        match as_items(field(field(v, "edge_sidecar_to_children"), "edges")) {
            Some(edges) => read_children(edges),
            None => None,
        }
    } else {
        match read_media(v, true) {
            Some(m) => {
                let ghost mv = m@;
                let out = vec![m];
                assert(medias_view(out@) =~= seq![mv]);
                Some(out)
            },
            None => None,
        }
    }
}

fn read_post(v: Option<&JsonValue>) -> (r: Option<Post>)
    ensures
        match r {
            Some(p) => post_from(deref_opt(v)) == Some(p@),
            None => post_from(deref_opt(v)) is None,
        },
{
    let user = read_user(field(v, "owner"));
    let tagged = match as_items(field(field(v, "edge_media_to_tagged_user"), "edges")) {
        Some(edges) => tagged_user(edges),
        None => None,
    };
    let caption = match as_items(field(field(v, "edge_media_to_caption"), "edges")) {
        Some(edges) => read_captions(edges),
        None => None,
    };
    let typename = as_text(field(v, "__typename"));
    let media = match &typename {
        Some(t) => read_media_list(v, t),
        None => None,
    };
    let id = as_text(field(v, "id"));
    let shortcode = as_text(field(v, "shortcode"));
    match (user, tagged, caption, typename, media, id, shortcode) {
        (Some(user), Some(tagged_user), Some(caption), Some(typename), Some(media), Some(id), Some(shortcode)) => {
            Some(Post { id, shortcode, typename, user, tagged_user, caption, media })
        },
        _ => None,
    }
}

/// Reads the post out of a payload of the post-lookup endpoint.
pub fn normalize(root: &JsonValue) -> (r: Result<Option<Post>, FetchError>)
    ensures
        outcome_view(r) == normalized(*root),
{
    let c = field(field(Some(root), "data"), "shortcode_media");
    if absent_or_null(c) {
        return Ok(None);
    }
    match read_post(c) {
        Some(p) => Ok(Some(p)),
        None => Err(FetchError::MalformedResponse),
    }
}

/// A payload whose post is a single media item with known values normalizes to a post that
/// holds exactly those values, with one media item, and no duration when the payload gives
/// none.
pub proof fn lemma_single_media_round_trip(
    root: JsonValue,
    id: Seq<char>,
    shortcode: Seq<char>,
    typename: Seq<char>,
    owner: UserView,
    tagged_edges: Seq<JsonValue>,
    tagged: Seq<UserView>,
    caption_edges: Seq<JsonValue>,
    caption: Seq<Seq<char>>,
    thumbnail: Seq<char>,
    resource_items: Seq<JsonValue>,
    resources: Seq<SourceView>,
    is_video: bool,
    video: Seq<char>,
)
    requires
        text_of(at(container(root), "id"@)) == Some(id),
        text_of(at(container(root), "shortcode"@)) == Some(shortcode),
        text_of(at(container(root), "__typename"@)) == Some(typename),
        typename != carousel_tag(),
        user_from(at(container(root), "owner"@)) == Some(owner),
        edges_of(container(root), "edge_media_to_tagged_user"@) == Some(tagged_edges),
        all_of(tagged_edges, tagged_entry()) == Some(tagged),
        edges_of(container(root), "edge_media_to_caption"@) == Some(caption_edges),
        all_of(caption_edges, caption_entry()) == Some(caption),
        text_of(at(container(root), "display_url"@)) == Some(thumbnail),
        items_of(at(container(root), "display_resources"@)) == Some(resource_items),
        all_of(resource_items, source_entry()) == Some(resources),
        flag_of(at(container(root), "is_video"@)) == Some(is_video),
        is_video ==> text_of(at(container(root), "video_url"@)) == Some(video),
        at(container(root), "video_duration"@) is None,
    ensures
        normalized(root) == Ok::<Option<PostView>, FetchError>(
            Some(
                PostView {
                    id,
                    shortcode,
                    typename,
                    user: owner,
                    tagged_user: tagged,
                    caption,
                    media: seq![
                        MediaView {
                            id,
                            shortcode,
                            thumbnail,
                            resources,
                            video: if is_video {
                                Some(video)
                            } else {
                                None
                            },
                            video_duration: None,
                            is_video,
                        },
                    ],
                },
            ),
        ),
{
}

/// A carousel payload that normalizes without error gives one media item per child edge,
/// none of them with a duration.
pub proof fn lemma_carousel_media(root: JsonValue, children: Seq<JsonValue>)
    requires
        text_of(at(container(root), "__typename"@)) == Some(carousel_tag()),
        edges_of(container(root), "edge_sidecar_to_children"@) == Some(children),
        normalized(root) is Ok,
    ensures
        match normalized(root) {
            Ok(Some(p)) => {
                &&& p.media.len() == children.len()
                &&& forall|i: int| 0 <= i < p.media.len() ==> p.media[i].video_duration is None
            },
            _ => false,
        },
{
    let c = container(root);
    assert(!is_null(c));
    let p = post_from(c)->0;
    assert(all_of(children, child_entry()) == Some(p.media));
    lemma_map_all_some(children, child_entry(), children.len() as int);
    assert forall|i: int| 0 <= i < p.media.len() implies p.media[i].video_duration is None by {
        assert(child_entry()(children[i]) == Some(p.media[i]));
    }
}

/// A payload whose post container is absent or null means that there is no such post: no
/// post and no error.
pub proof fn lemma_null_container_no_post(root: JsonValue)
    requires
        is_null(container(root)),
    ensures
        normalized(root) == Ok::<Option<PostView>, FetchError>(None),
{
}

/// A payload whose post owner lacks one of its required fields is malformed.
pub proof fn lemma_owner_field_missing(root: JsonValue, name: Seq<char>)
    requires
        !is_null(container(root)),
        name == "id"@ || name == "full_name"@ || name == "username"@ || name == "profile_pic_url"@
            || name == "is_verified"@,
        at(at(container(root), "owner"@), name) is None,
    ensures
        normalized(root) == Err::<Option<PostView>, FetchError>(FetchError::MalformedResponse),
{
    assert(user_from(at(container(root), "owner"@)) is None);
}

/// Normalization depends on the payload alone: equal payloads give equal outcomes.
pub proof fn lemma_normalize_deterministic(a: JsonValue, b: JsonValue)
    requires
        a == b,
    ensures
        normalized(a) == normalized(b),
{
}

} // verus!
