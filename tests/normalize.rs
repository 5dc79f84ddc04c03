use instagram_post::{normalize, tagged_user, FetchError, Instagram, JsonNumber, JsonValue, Post, Utils};

fn text(s: &str) -> JsonValue {
    JsonValue::String(s.to_string())
}

fn unsigned(n: u64) -> JsonValue {
    JsonValue::Number(JsonNumber::PosInt(n))
}

fn obj(members: Vec<(&str, JsonValue)>) -> JsonValue {
    JsonValue::Object(members.into_iter().map(|(k, v)| (k.to_string(), v)).collect())
}

fn edges(nodes: Vec<JsonValue>) -> JsonValue {
    obj(vec![(
        "edges",
        JsonValue::Array(nodes.into_iter().map(|n| obj(vec![("node", n)])).collect()),
    )])
}

fn user(id: &str, name: &str) -> JsonValue {
    obj(vec![
        ("id", text(id)),
        ("full_name", text(&format!("{} Full", name))),
        ("username", text(name)),
        ("profile_pic_url", text(&format!("https://pic/{}", id))),
        ("is_verified", JsonValue::Bool(id == "1")),
    ])
}

fn resource(src: &str, w: u64, h: u64) -> JsonValue {
    obj(vec![("src", text(src)), ("config_width", unsigned(w)), ("config_height", unsigned(h))])
}

fn wrap(container: JsonValue) -> JsonValue {
    obj(vec![("data", obj(vec![("shortcode_media", container)]))])
}

fn single(is_video: bool, extra: Vec<(&'static str, JsonValue)>) -> Vec<(&'static str, JsonValue)> {
    let mut m: Vec<(&'static str, JsonValue)> = vec![
        ("__typename", text(if is_video { "GraphVideo" } else { "GraphImage" })),
        ("id", text("999")),
        ("shortcode", text("ABC123")),
        ("owner", user("1", "owner")),
        ("edge_media_to_tagged_user", edges(vec![obj(vec![("user", user("2", "tag"))])])),
        (
            "edge_media_to_caption",
            edges(vec![obj(vec![("text", text("first"))]), obj(vec![("text", text("second"))])]),
        ),
        ("display_url", text("https://img/big")),
        (
            "display_resources",
            JsonValue::Array(vec![resource("https://img/640", 640, 800), resource("https://img/1080", 1080, 1350)]),
        ),
        ("is_video", JsonValue::Bool(is_video)),
    ];
    m.extend(extra);
    m
}

fn post_of(payload: &JsonValue) -> Post {
    normalize(payload).unwrap().unwrap()
}

#[test]
fn single_image_round_trip() {
    let p = post_of(&wrap(obj(single(false, vec![]))));
    assert_eq!(p.id, "999");
    assert_eq!(p.shortcode, "ABC123");
    assert_eq!(p.typename, "GraphImage");
    assert_eq!(p.user.id, "1");
    assert_eq!(p.user.username, "owner");
    assert_eq!(p.user.full_name, "owner Full");
    assert_eq!(p.user.image, "https://pic/1");
    assert!(p.user.is_verified);
    assert_eq!(p.tagged_user.len(), 1);
    assert_eq!(p.tagged_user[0].username, "tag");
    assert!(!p.tagged_user[0].is_verified);
    assert_eq!(p.caption, vec!["first".to_string(), "second".to_string()]);
    assert_eq!(p.media.len(), 1);
    let m = &p.media[0];
    assert_eq!(m.id, "999");
    assert_eq!(m.shortcode, "ABC123");
    assert_eq!(m.thumbnail, "https://img/big");
    assert_eq!(m.resources.len(), 2);
    assert_eq!(m.resources[0].src, "https://img/640");
    assert_eq!((m.resources[0].width, m.resources[0].height), (640, 800));
    assert_eq!((m.resources[1].width, m.resources[1].height), (1080, 1350));
    assert_eq!(m.video, None);
    assert!(m.video_duration.is_none());
    assert!(!m.is_video);
}

#[test]
fn single_video_with_duration() {
    let extra = vec![
        ("video_url", text("https://vid/1.mp4")),
        ("video_duration", JsonValue::Number(JsonNumber::Float("12.5".to_string()))),
    ];
    let p = post_of(&wrap(obj(single(true, extra))));
    let m = &p.media[0];
    assert!(m.is_video);
    assert_eq!(m.video, Some("https://vid/1.mp4".to_string()));
    match &m.video_duration {
        Some(JsonNumber::Float(t)) => assert_eq!(t, "12.5"),
        other => panic!("unexpected duration {:?}", other),
    }
}

#[test]
fn null_duration_is_absent() {
    let extra = vec![("video_url", text("https://vid/1.mp4")), ("video_duration", JsonValue::Null)];
    let p = post_of(&wrap(obj(single(true, extra))));
    assert!(p.media[0].video_duration.is_none());
}

#[test]
fn duration_of_wrong_type_is_malformed() {
    let extra = vec![("video_url", text("https://vid/1.mp4")), ("video_duration", text("12"))];
    assert_eq!(normalize(&wrap(obj(single(true, extra)))).unwrap_err(), FetchError::MalformedResponse);
}

#[test]
fn video_without_url_is_malformed() {
    assert_eq!(normalize(&wrap(obj(single(true, vec![])))).unwrap_err(), FetchError::MalformedResponse);
}

#[test]
fn image_ignores_video_url() {
    let p = post_of(&wrap(obj(single(false, vec![("video_url", text("https://vid/x"))]))));
    assert_eq!(p.media[0].video, None);
}

fn child(id: &str, is_video: bool) -> JsonValue {
    let mut m = vec![
        ("id", text(id)),
        ("shortcode", text(&format!("sc{}", id))),
        ("display_url", text(&format!("https://img/{}", id))),
        ("display_resources", JsonValue::Array(vec![resource("https://img/r", 320, 400)])),
        ("is_video", JsonValue::Bool(is_video)),
    ];
    if is_video {
        m.push(("video_url", text(&format!("https://vid/{}", id))));
        m.push(("video_duration", unsigned(30)));
    }
    obj(m)
}

fn carousel(children: Vec<JsonValue>) -> JsonValue {
    wrap(obj(vec![
        ("__typename", text("GraphSidecar")),
        ("id", text("777")),
        ("shortcode", text("CAR")),
        ("owner", user("5", "own")),
        ("edge_media_to_tagged_user", edges(vec![])),
        ("edge_media_to_caption", edges(vec![])),
        ("edge_sidecar_to_children", edges(children)),
    ]))
}

#[test]
fn carousel_one_media_per_child() {
    let p = post_of(&carousel(vec![child("a", false), child("b", true), child("c", false)]));
    assert_eq!(p.typename, "GraphSidecar");
    assert_eq!(p.media.len(), 3);
    assert_eq!(p.media[0].id, "a");
    assert_eq!(p.media[1].shortcode, "scb");
    assert_eq!(p.media[1].video, Some("https://vid/b".to_string()));
    assert!(p.media[1].is_video);
    assert!(p.media.iter().all(|m| m.video_duration.is_none()));
    assert_eq!(p.media[2].video, None);
    assert!(p.tagged_user.is_empty());
    assert!(p.caption.is_empty());
}

#[test]
fn carousel_without_children() {
    let p = post_of(&carousel(vec![]));
    assert!(p.media.is_empty());
}

#[test]
fn carousel_with_bad_child_is_malformed() {
    let bad = obj(vec![("id", text("x"))]);
    assert_eq!(normalize(&carousel(vec![child("a", false), bad])).unwrap_err(), FetchError::MalformedResponse);
}

#[test]
fn null_container_is_no_post() {
    assert!(normalize(&wrap(JsonValue::Null)).unwrap().is_none());
    assert!(normalize(&obj(vec![("data", obj(vec![]))])).unwrap().is_none());
    assert!(normalize(&obj(vec![])).unwrap().is_none());
    assert!(normalize(&JsonValue::Null).unwrap().is_none());
}

#[test]
fn missing_owner_field_is_malformed() {
    for field in ["id", "full_name", "username", "profile_pic_url", "is_verified"] {
        let mut m = single(false, vec![]);
        let owner = obj(vec![
            ("id", text("1")),
            ("full_name", text("F")),
            ("username", text("u")),
            ("profile_pic_url", text("p")),
            ("is_verified", JsonValue::Bool(false)),
        ]);
        let owner = match owner {
            JsonValue::Object(ms) => JsonValue::Object(ms.into_iter().filter(|(k, _)| k != field).collect()),
            other => other,
        };
        m.retain(|e| e.0 != "owner");
        m.push(("owner", owner));
        assert_eq!(normalize(&wrap(obj(m))).unwrap_err(), FetchError::MalformedResponse, "{}", field);
    }
}

#[test]
fn owner_field_of_wrong_type_is_malformed() {
    let mut m = single(false, vec![]);
    m.retain(|e| e.0 != "owner");
    m.push(("owner", obj(vec![
        ("id", unsigned(1)),
        ("full_name", text("F")),
        ("username", text("u")),
        ("profile_pic_url", text("p")),
        ("is_verified", JsonValue::Bool(false)),
    ])));
    assert_eq!(normalize(&wrap(obj(m))).unwrap_err(), FetchError::MalformedResponse);
}

#[test]
fn oversized_width_is_malformed() {
    let mut m = single(false, vec![]);
    m.retain(|e| e.0 != "display_resources");
    m.push(("display_resources", JsonValue::Array(vec![resource("s", 1u64 << 32, 10)])));
    assert_eq!(normalize(&wrap(obj(m))).unwrap_err(), FetchError::MalformedResponse);
}

#[test]
fn largest_width_is_kept() {
    let mut m = single(false, vec![]);
    m.retain(|e| e.0 != "display_resources");
    m.push(("display_resources", JsonValue::Array(vec![resource("s", u32::MAX as u64, 0)])));
    let p = post_of(&wrap(obj(m)));
    assert_eq!(p.media[0].resources[0].width, u32::MAX);
    assert_eq!(p.media[0].resources[0].height, 0);
}

#[test]
fn missing_caption_list_is_malformed() {
    let mut m = single(false, vec![]);
    m.retain(|e| e.0 != "edge_media_to_caption");
    assert_eq!(normalize(&wrap(obj(m))).unwrap_err(), FetchError::MalformedResponse);
}

#[test]
fn normalizing_twice_gives_equal_posts() {
    let payload = wrap(obj(single(false, vec![])));
    let a = post_of(&payload);
    let b = post_of(&payload);
    assert_eq!(format!("{:?}", a), format!("{:?}", b));
}

#[test]
fn tagged_users_in_order() {
    let list = vec![
        obj(vec![("node", obj(vec![("user", user("1", "a"))]))]),
        obj(vec![("node", obj(vec![("user", user("2", "b"))]))]),
    ];
    let us = tagged_user(&list).unwrap();
    assert_eq!(us.len(), 2);
    assert_eq!(us[0].username, "a");
    assert_eq!(us[1].id, "2");
    assert!(tagged_user(&vec![]).unwrap().is_empty());
    assert!(tagged_user(&vec![obj(vec![("node", obj(vec![]))])]).is_none());
}

#[test]
fn example_end_to_end() {
    let i = Instagram::new("https://instagram.com/p/ABC123/?utm=1");
    assert_eq!(i.url, "ABC123");
    assert!(i.query_url().unwrap().contains("ABC123"));
    let p = i.finish(Ok(wrap(obj(single(false, vec![]))))).unwrap().unwrap();
    assert_eq!(p.media[0].video, None);
    assert!(!p.media[0].is_video);
}
