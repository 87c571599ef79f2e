//! Booru layer tests: each provider's normalization of decoded records, the
//! request builders, and the classification of HTTP outcomes.

use ribb::booru::danbooru::{self, Danbooru};
use ribb::booru::e621::{self, E621};
use ribb::booru::gelbooru::{self, Gelbooru};
use ribb::booru::rule34::{self, Rule34};
use ribb::booru::{
    is_image, is_swf, is_video, posts_failure, posts_response, status_text, tags_response,
    BooruClient, Error, PostQuery,
    Rating, ResponseOutcome, Site, TagCategory,
};

fn s(x: &str) -> String {
    x.to_string()
}

fn strings(xs: &[&str]) -> Vec<String> {
    xs.iter().map(|x| x.to_string()).collect()
}

fn danbooru_post(id: i64, file_url: Option<&str>, tag_string: &str, rating: &str, created_at: &str) -> danbooru::RawPost {
    danbooru::RawPost {
        id,
        image_width: 0,
        image_height: 0,
        tag_string: s(tag_string),
        file_url: file_url.map(s),
        large_file_url: None,
        preview_file_url: None,
        rating: s(rating),
        tag_string_general: String::new(),
        tag_string_character: String::new(),
        tag_string_copyright: String::new(),
        tag_string_artist: String::new(),
        tag_string_meta: String::new(),
        created_at: s(created_at),
    }
}

#[test]
fn danbooru_parse_posts() {
    let mut first = danbooru_post(
        123,
        Some("https://cdn.donmai.us/original/abcd.jpg"),
        "1girl solo blue_sky artist_name",
        "s",
        "2023-05-30T12:34:56.789-04:00",
    );
    first.image_width = 800;
    first.image_height = 600;
    first.large_file_url = Some(s("https://cdn.donmai.us/sample/sample-abcd.jpg"));
    first.preview_file_url = Some(s("https://cdn.donmai.us/preview/abcd.jpg"));
    first.tag_string_general = s("1girl solo blue_sky");
    first.tag_string_character = s("hatsune_miku");
    first.tag_string_copyright = s("vocaloid");
    first.tag_string_artist = s("artist_name");
    first.tag_string_meta = s("highres");
    let second = danbooru_post(124, None, "x", "e", "2023-01-01T00:00:00.000Z");
    let page = Danbooru.posts_from_raw(vec![first, second]);

    // Second post has no file_url and is filtered out.
    assert_eq!(page.posts.len(), 1);
    assert!(page.has_next_page);

    let p = &page.posts[0];
    assert_eq!(p.id, "123");
    assert_eq!(p.post_view, "https://danbooru.donmai.us/posts/123");
    assert_eq!(p.tags, ["1girl", "solo", "blue_sky", "artist_name"]);
    assert_eq!(
        p.sample_url.as_deref(),
        Some("https://cdn.donmai.us/sample/sample-abcd.jpg")
    );
    assert_eq!(p.width, 800);
    assert_eq!(p.rating, "sensitive");
    // -04:00 normalized to UTC, with trailing Z.
    assert_eq!(p.created_at, "2023-05-30T16:34:56.789Z");

    let groups: Vec<_> = p
        .tag_groups
        .iter()
        .map(|g| (g.category, g.tags.clone()))
        .collect();
    assert_eq!(
        groups,
        vec![
            (
                TagCategory::General,
                vec!["1girl".to_string(), "solo".to_string(), "blue_sky".to_string()]
            ),
            (TagCategory::Character, vec!["hatsune_miku".to_string()]),
            (TagCategory::Copyright, vec!["vocaloid".to_string()]),
            (TagCategory::Artist, vec!["artist_name".to_string()]),
            (TagCategory::Metadata, vec!["highres".to_string()]),
        ]
    );
}

#[test]
fn danbooru_parse_tags() {
    let raw = vec![
        danbooru::RawTag { label: s("1girl"), value: s("1girl"), category: 0, post_count: 1000 },
        danbooru::RawTag {
            label: s("hatsune_miku"),
            value: s("hatsune_miku"),
            category: 4,
            post_count: 500,
        },
    ];
    let tags = Danbooru.tags_from_raw(raw);
    assert_eq!(tags.len(), 2);
    assert_eq!(tags[0].value, "1girl");
    assert_eq!(tags[0].category, TagCategory::General);
    assert_eq!(tags[0].post_count, Some(1000));
    assert_eq!(tags[1].category, TagCategory::Character);
}

fn e621_tags() -> e621::RawTags {
    e621::RawTags {
        general: Vec::new(),
        artist: Vec::new(),
        copyright: Vec::new(),
        character: Vec::new(),
        species: Vec::new(),
        invalid: Vec::new(),
        meta: Vec::new(),
        lore: Vec::new(),
    }
}

#[test]
fn e621_parse_posts() {
    let mut tags = e621_tags();
    tags.general = strings(&["a", "b"]);
    tags.artist = strings(&["artistx"]);
    tags.character = strings(&["charx"]);
    tags.species = strings(&["wolf"]);
    tags.meta = strings(&["hi"]);
    let first = e621::RawPost {
        id: 1,
        file: e621::RawFile { width: 100, height: 200, url: Some(s("https://static1.e621.net/a.jpg")) },
        preview: e621::RawUrl { url: Some(s("https://static1.e621.net/p.jpg")) },
        sample: e621::RawSample { has: true, url: Some(s("https://static1.e621.net/s.jpg")) },
        tags,
        rating: s("e"),
        created_at: s("2022-02-02T02:02:02.000Z"),
    };
    let second = e621::RawPost {
        id: 2,
        file: e621::RawFile { width: 0, height: 0, url: None },
        preview: e621::RawUrl { url: Some(String::new()) },
        sample: e621::RawSample { has: false, url: None },
        tags: e621_tags(),
        rating: s("s"),
        created_at: s("2022-01-01T00:00:00.000Z"),
    };
    let page = E621.posts_from_raw(vec![first, second]);
    assert_eq!(page.posts.len(), 1); // null file.url filtered out

    let p = &page.posts[0];
    assert_eq!(p.tags, ["a", "b", "artistx", "charx", "wolf", "hi"]);
    assert_eq!(
        p.sample_url.as_deref(),
        Some("https://static1.e621.net/s.jpg")
    );
    assert_eq!(p.rating, "explicit");
    let cats: Vec<_> = p.tag_groups.iter().map(|g| g.category).collect();
    assert_eq!(
        cats,
        vec![
            TagCategory::General,
            TagCategory::Artist,
            TagCategory::Character,
            TagCategory::Species,
            TagCategory::Metadata,
        ]
    );
}

#[test]
fn gelbooru_parse_posts_and_pagination() {
    let raw = gelbooru::RawResponse {
        post: vec![gelbooru::RawPost {
            id: 5,
            width: 10,
            height: 20,
            tags: s("cat dog"),
            file_url: s("https://img.gelbooru.com/f.jpg"),
            preview_url: s("https://img.gelbooru.com/p.jpg"),
            sample_url: s("https://img.gelbooru.com/s.jpg"),
            rating: s("general"),
            created_at: s("Tue May 30 12:34:56 -0500 2023"),
        }],
        attributes: gelbooru::RawAttributes { limit: 100, offset: 0, count: 250 },
    };
    let page = Gelbooru.posts_from_raw(raw);
    assert!(page.has_next_page); // 250 > 100 + 0
    assert_eq!(page.posts.len(), 1);
    let p = &page.posts[0];
    assert_eq!(p.tags, ["cat", "dog"]);
    assert!(p.tag_groups.is_empty()); // needs a separate fetch
    assert_eq!(p.created_at, "2023-05-30T17:34:56.000Z"); // ctime -> UTC
}

#[test]
fn gelbooru_parse_posts_empty() {
    let raw = gelbooru::RawResponse {
        post: Vec::new(),
        attributes: gelbooru::RawAttributes { limit: 100, offset: 0, count: 0 },
    };
    let page = Gelbooru.posts_from_raw(raw);
    assert!(page.posts.is_empty());
    assert!(!page.has_next_page);
}

#[test]
fn gelbooru_parse_tag_groups_decodes_once() {
    let raw = vec![
        gelbooru::RawTagGroupEntry { name: s("cat"), kind: 0 },
        gelbooru::RawTagGroupEntry { name: s("artist&amp;name"), kind: 1 },
    ];
    let groups = Gelbooru.tag_groups_from_raw(raw);
    assert_eq!(groups.len(), 2);
    assert_eq!(groups[0].category, TagCategory::General);
    assert_eq!(groups[0].tags, ["cat"]);
    assert_eq!(groups[1].category, TagCategory::Artist);
    assert_eq!(groups[1].tags, ["artist&name"]); // decoded once
}

#[test]
fn rule34_parse_posts_avoids_gif_sample() {
    let raw = vec![rule34::RawPost {
        id: 9,
        width: 1,
        height: 2,
        tags: s("a b"),
        file_url: s("https://rule34.xxx/f.jpg"),
        preview_url: s("https://rule34.xxx/p.jpg"),
        sample_url: s("https://rule34.xxx/s.gif"),
        rating: s("explicit"),
        change: 1685458496,
    }];
    let page = Rule34.posts_from_raw(raw);
    assert_eq!(page.posts.len(), 1);
    let p = &page.posts[0];
    // .gif sample replaced by the preview.
    assert_eq!(p.sample_url.as_deref(), Some("https://rule34.xxx/p.jpg"));
    assert!(p.created_at.ends_with('Z'));
}

#[test]
fn rule34_parse_tags_extracts_count() {
    let raw = vec![rule34::RawTag {
        label: s("samus_aran (1234)"),
        value: s("samus_aran"),
        kind: s("character"),
    }];
    let tags = Rule34.tags_from_raw(raw);
    assert_eq!(tags.len(), 1);
    assert_eq!(tags[0].value, "samus_aran");
    assert_eq!(tags[0].category, TagCategory::Character);
    assert_eq!(tags[0].post_count, Some(1234));
}

// ---------------------------------------------------------------------------
// Further cases
// ---------------------------------------------------------------------------

#[test]
fn rule34_created_at_is_the_change_time_in_utc() {
    let raw = vec![rule34::RawPost {
        id: 9,
        width: 1,
        height: 2,
        tags: s("a"),
        file_url: s("https://rule34.xxx/f.jpg"),
        preview_url: s("https://rule34.xxx/p.jpg"),
        sample_url: s("https://rule34.xxx/s.jpg"),
        rating: s("explicit"),
        change: 1685458496,
    }];
    let page = Rule34.posts_from_raw(raw);
    assert_eq!(page.posts[0].created_at, "2023-05-30T14:54:56.000Z");
    assert_eq!(page.posts[0].sample_url.as_deref(), Some("https://rule34.xxx/s.jpg"));
}

#[test]
fn danbooru_timestamp_that_does_not_parse_is_kept() {
    let p = danbooru_post(7, Some("https://cdn.donmai.us/x.png"), "x", "g", "yesterday");
    let page = Danbooru.posts_from_raw(vec![p]);
    assert_eq!(page.posts[0].created_at, "yesterday");
    assert_eq!(page.posts[0].rating, "general");
}

#[test]
fn danbooru_empty_page_has_no_next_page() {
    let page = Danbooru.posts_from_raw(Vec::new());
    assert!(page.posts.is_empty());
    assert!(!page.has_next_page);
}

#[test]
fn gelbooru_tag_group_text_without_entities_is_unchanged() {
    let groups = Gelbooru.tag_groups_from_raw(vec![gelbooru::RawTagGroupEntry {
        name: s("plain_name"),
        kind: 3,
    }]);
    assert_eq!(groups.len(), 1);
    assert_eq!(groups[0].category, TagCategory::Copyright);
    assert_eq!(groups[0].tags, ["plain_name"]);
}

#[test]
fn effective_tags_appends_rating() {
    let q = PostQuery { tags: s("cat"), limit: 100, page: 0, rating: Some(Rating::General) };
    assert_eq!(q.effective_tags(), "cat rating:General");
    let q = PostQuery { tags: String::new(), limit: 100, page: 0, rating: Some(Rating::Explicit) };
    assert_eq!(q.effective_tags(), "rating:Explicit");
    let q = PostQuery { tags: s("cat dog"), limit: 100, page: 0, rating: None };
    assert_eq!(q.effective_tags(), "cat dog");
}

#[test]
fn danbooru_post_request_pairs() {
    let client = BooruClient::new();
    let q = PostQuery { tags: s("cat"), limit: 100, page: 2, rating: Some(Rating::General) };
    let r = Danbooru.post_request(&client, &q);
    assert_eq!(r.url, "https://danbooru.donmai.us/posts.json");
    assert!(r.query.contains(&(s("tags"), s("cat rating:General"))));
    assert!(r.query.contains(&(s("limit"), s("100"))));
}

#[test]
fn e621_ignores_short_autocomplete_queries() {
    let client = BooruClient::new();
    assert!(E621.tag_request(&client, "ab").is_none());
    assert!(E621.tag_request(&client, "abc").is_some());
}

#[test]
fn gelbooru_requests_carry_credentials() {
    let client = BooruClient::new().with_gelbooru_credentials(s("&api_key=K&user_id=U"));
    let q = PostQuery { tags: s("cat"), limit: 100, page: 0, rating: None };
    let r = Gelbooru.post_request(&client, &q);
    assert!(r.url.ends_with("&api_key=K&user_id=U"));
}

#[test]
fn site_metadata() {
    assert_eq!(Site::enabled(), &[Site::Danbooru, Site::Gelbooru, Site::E621]);
    assert_eq!(Site::Rule34.label(), "Rule 34");
    assert_eq!(Site::E621.label(), "e621");
    assert_eq!(Site::Danbooru.ratings().len(), 4);
    assert_eq!(Site::Danbooru.icon_url(), "https://danbooru.donmai.us/favicon.svg");
}

#[test]
fn rating_readings() {
    assert_eq!(Rating::from_alias("q"), Some(Rating::Questionable));
    assert_eq!(Rating::from_alias("x"), None);
    assert_eq!(Rating::from_loose(" Safe "), Some(Rating::Sensitive));
    assert_eq!(Rating::from_loose("explicit"), Some(Rating::Explicit));
    assert_eq!(Rating::from_loose("unknown"), None);
    assert_eq!(Rating::General.letter(), 'G');
    assert_eq!(Rating::Sensitive.query_value(), "Sensitive");
    assert_eq!(Rating::Sensitive.as_lower(), "sensitive");
}

#[test]
fn tag_categories() {
    assert_eq!(TagCategory::from_numeric(1), TagCategory::Artist);
    assert_eq!(TagCategory::from_numeric(42), TagCategory::Unknown);
    assert_eq!(TagCategory::General.label(), "Tag");
    assert_eq!(gelbooru::category_from_str("metadata"), TagCategory::Metadata);
    assert_eq!(rule34::category_from_str("bogus"), TagCategory::Unknown);
    assert_eq!(rule34::count_from_label("x (12)"), Some(12));
    assert_eq!(rule34::count_from_label("x"), None);
}

#[test]
fn post_search_outcomes() {
    assert!(matches!(posts_response(Site::Danbooru, 200, "[]"), ResponseOutcome::Decode));
    match posts_response(Site::Danbooru, 422, r#"{"error":"PostQuery::TagLimitError","message":"too many tags"}"#) {
        ResponseOutcome::Failed(Error::Api { error, message }) => {
            assert_eq!(error, "PostQuery::TagLimitError");
            assert_eq!(message, "too many tags");
        }
        other => panic!("unexpected {other:?}"),
    }
    assert!(matches!(
        posts_response(Site::Gelbooru, 401, "denied"),
        ResponseOutcome::Failed(Error::AuthRequired)
    ));
    match posts_response(Site::Danbooru, 401, "denied") {
        ResponseOutcome::Failed(Error::Status(t)) => assert_eq!(t, "401 Unauthorized"),
        other => panic!("unexpected {other:?}"),
    }
    match posts_failure(Site::E621, 404, None) {
        ResponseOutcome::Failed(Error::Status(t)) => assert_eq!(t, "404 Not Found"),
        other => panic!("unexpected {other:?}"),
    }
    match tags_response(500) {
        ResponseOutcome::Failed(Error::Status(t)) => assert_eq!(t, "500 Internal Server Error"),
        other => panic!("unexpected {other:?}"),
    }
    assert!(matches!(tags_response(204), ResponseOutcome::Decode));
    assert_eq!(status_text(599), "599 ");
}

#[test]
fn error_messages() {
    assert_eq!(Error::Http(s("timed out")).message(), "network error: timed out");
    assert_eq!(Error::Parse(s("eof")).message(), "failed to parse response: eof");
    assert_eq!(
        Error::Api { error: s("E"), message: s("M") }.message(),
        "E\nM"
    );
    assert_eq!(
        Error::AuthRequired.message(),
        "Access denied. Please configure your API credentials in settings."
    );
    assert_eq!(Error::Status(s("404 Not Found")).message(), "Error: 404 Not Found");
}

#[test]
fn rating_names_read_back() {
    for r in Rating::ALL {
        assert_eq!(Rating::from_loose(r.as_lower()), Some(r));
        assert_eq!(Rating::from_loose(r.query_value()), Some(r));
        assert_eq!(Rating::from_loose(&r.letter().to_string()), Some(r));
        assert_eq!(r.as_lower(), r.query_value().to_ascii_lowercase());
        assert_eq!(r.query_value().chars().next(), Some(r.letter()));
    }
    for a in ["g", "s", "q", "e", "x", "G", ""] {
        if let Some(r) = Rating::from_alias(a) {
            assert_eq!(Rating::from_loose(a), Some(r));
        }
    }
    let mut words: Vec<&str> = Rating::ALL.iter().map(|r| r.as_lower()).collect();
    words.sort();
    words.dedup();
    assert_eq!(words.len(), 4);
}

#[test]
fn media_kinds_exclude_each_other() {
    assert!(is_swf("https://x/m.SWF?v=1"));
    assert!(!is_swf("https://x/swf"));
    for url in ["https://x/a.jpg", "https://x/a.webm", "https://x/a.swf", "https://x/a.txt", "https://x/a.PNG#f"] {
        let kinds = [is_image(url), is_video(url), is_swf(url)].iter().filter(|b| **b).count();
        assert!(kinds <= 1);
    }
}
