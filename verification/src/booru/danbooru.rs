//! Danbooru provider — <https://danbooru.donmai.us>. No auth required; tag
//! groups arrive inline on each post.
use vstd::prelude::*;
use vstd::string::StringExecFns;

use super::types::{
    group_views, normalize_timestamp, opt_view, post_views, spec_as_lower, spec_effective_tags,
    spec_from_alias, spec_from_numeric, spec_normalize_timestamp, tag_views, BooruPost, BooruTag,
    PageModel, PostModel, PostQuery, PostsPage, Rating, TagCategory, TagGroup, TagGroupModel,
    TagModel,
};
use super::{pair_views, request_of, split_tags, BooruClient, Request, RequestModel};
use crate::text::{i64_to_string, int_string, lower, to_lower, u64_to_string, words};

verus! {

broadcast use vstd::string::group_string_axioms;

pub struct Danbooru;

/// A post record as Danbooru's `posts.json` returns it (absent fields default
/// to zero or empty).
#[derive(Debug, Clone)]
pub struct RawPost {
    pub id: i64,
    pub image_width: u32,
    pub image_height: u32,
    pub tag_string: String,
    pub file_url: Option<String>,
    pub large_file_url: Option<String>,
    pub preview_file_url: Option<String>,
    pub rating: String,
    pub tag_string_general: String,
    pub tag_string_character: String,
    pub tag_string_copyright: String,
    pub tag_string_artist: String,
    pub tag_string_meta: String,
    pub created_at: String,
}

/// An autocomplete record.
#[derive(Debug, Clone)]
pub struct RawTag {
    pub label: String,
    pub value: String,
    pub category: i64,
    pub post_count: u32,
}

/// Normalized rating: the lowercase word of a known alias, else the raw
/// rating lowercased.
pub open spec fn spec_rating(raw: Seq<char>) -> Seq<char> {
    match spec_from_alias(raw) {
        Some(r) => spec_as_lower(r),
        None => lower(raw),
    }
}

/// The group of a category's tags, present only when it has any.
pub open spec fn group_if_any(category: TagCategory, tag_string: Seq<char>) -> Seq<TagGroupModel> {
    if words(tag_string).len() > 0 {
        seq![TagGroupModel { category, tags: words(tag_string) }]
    } else {
        Seq::empty()
    }
}

/// The normalized post of a record; `None` when it has no file URL.
pub open spec fn spec_post(p: RawPost) -> Option<PostModel> {
    match p.file_url {
        None => None,
        Some(file_url) => Some(
            PostModel {
                id: int_string(p.id as int),
                post_view: "https://danbooru.donmai.us/posts/"@ + int_string(p.id as int),
                tags: words(p.tag_string@),
                tag_groups: group_if_any(TagCategory::General, p.tag_string_general@)
                    + group_if_any(TagCategory::Character, p.tag_string_character@)
                    + group_if_any(TagCategory::Copyright, p.tag_string_copyright@)
                    + group_if_any(TagCategory::Artist, p.tag_string_artist@)
                    + group_if_any(TagCategory::Metadata, p.tag_string_meta@),
                file_url: file_url@,
                preview_url: match p.preview_file_url {
                    Some(u) => u@,
                    None => Seq::empty(),
                },
                sample_url: match p.large_file_url {
                    Some(u) => if u@.len() > 0 {
                        Some(u@)
                    } else {
                        None
                    },
                    None => None,
                },
                width: p.image_width,
                height: p.image_height,
                rating: spec_rating(p.rating@),
                created_at: spec_normalize_timestamp(p.created_at@),
            },
        ),
    }
}

/// The tag string Danbooru sends for category `c` (none for a category it
/// sends no string for).
pub open spec fn raw_string_of(p: RawPost, c: TagCategory) -> Seq<char> {
    match c {
        TagCategory::General => p.tag_string_general@,
        TagCategory::Character => p.tag_string_character@,
        TagCategory::Copyright => p.tag_string_copyright@,
        TagCategory::Artist => p.tag_string_artist@,
        TagCategory::Metadata => p.tag_string_meta@,
        _ => Seq::empty(),
    }
}

/// Danbooru's tag groups sort the post's tags by the category string they
/// came in: each group holds exactly the words of its category's string, and
/// holds some; no two groups share a category; and every category string
/// with words has its group.
pub proof fn lemma_danbooru_groups_by_category(p: RawPost)
    ensures
        spec_post(p) matches Some(post) ==> {
            let g = post.tag_groups;
            &&& forall|i: int|
                0 <= i < g.len() ==> (#[trigger] g[i]).tags == words(raw_string_of(p, g[i].category))
                    && g[i].tags.len() > 0
            &&& forall|i: int, j: int|
                0 <= i < j < g.len() ==> (#[trigger] g[i]).category != (#[trigger] g[j]).category
            &&& forall|c: TagCategory|
                (#[trigger] words(raw_string_of(p, c))).len() > 0 ==> exists|i: int|
                    0 <= i < g.len() && (#[trigger] g[i]).category == c
        },
{
    let ge = group_if_any(TagCategory::General, p.tag_string_general@);
    let ch = group_if_any(TagCategory::Character, p.tag_string_character@);
    let co = group_if_any(TagCategory::Copyright, p.tag_string_copyright@);
    let ar = group_if_any(TagCategory::Artist, p.tag_string_artist@);
    let me = group_if_any(TagCategory::Metadata, p.tag_string_meta@);
    let g = ge + ch + co + ar + me;
    assert forall|c: TagCategory|
        (#[trigger] words(raw_string_of(p, c))).len() > 0 implies exists|i: int|
        0 <= i < g.len() && (#[trigger] g[i]).category == c by {
        let k = (ge.len() + ch.len() + co.len() + ar.len()) as int;
        match c {
            TagCategory::General => assert(g[0].category == c),
            TagCategory::Character => assert(g[ge.len() as int].category == c),
            TagCategory::Copyright => assert(g[(ge.len() + ch.len()) as int].category == c),
            TagCategory::Artist => assert(g[(ge.len() + ch.len() + co.len()) as int].category == c),
            TagCategory::Metadata => assert(g[k].category == c),
            _ => {},
        }
    }
}

/// The page of a response: every record with a file URL, normalized and in
/// order; a next page is assumed whenever this one is non-empty.
pub open spec fn spec_page(raw: Seq<RawPost>) -> PageModel {
    PageModel {
        posts: raw.filter_map(|p: RawPost| spec_post(p)),
        has_next_page: raw.filter_map(|p: RawPost| spec_post(p)).len() > 0,
    }
}

pub open spec fn spec_tag(t: RawTag) -> TagModel {
    TagModel {
        label: t.label@,
        value: t.value@,
        category: spec_from_numeric(t.category as int),
        post_count: Some(t.post_count),
    }
}

/// Each Danbooru suggestion keeps its record's fields apart: the tag put
/// into the search is the record's value, what is shown is its label, and
/// its count is the record's post count; one suggestion per record, in order.
pub proof fn lemma_danbooru_suggestions(raw: Seq<RawTag>)
    ensures
        ({
            let s = raw.map_values(|t: RawTag| spec_tag(t));
            &&& s.len() == raw.len()
            &&& forall|i: int|
                0 <= i < raw.len() ==> {
                    &&& (#[trigger] s[i]).value == raw[i].value@
                    &&& s[i].label == raw[i].label@
                    &&& s[i].post_count == Some(raw[i].post_count)
                }
        }),
{
}

fn push_group_if_any(groups: &mut Vec<TagGroup>, category: TagCategory, s: &String)
    ensures
        group_views(final(groups)@) == group_views(old(groups)@) + group_if_any(category, s@),
{
    let tags = split_tags(s.as_str());
    if tags.len() > 0 {
        let ghost before = groups@;
        groups.push(TagGroup { category, tags });
        assert(group_views(groups@) =~= group_views(before) + group_if_any(category, s@));
    } else {
        assert(group_views(groups@) =~= group_views(old(groups)@) + group_if_any(category, s@));
    }
}

fn rating_of(raw: &String) -> (r: String)
    ensures
        r@ == spec_rating(raw@),
{
    match Rating::from_alias(raw.as_str()) {
        Some(r) => String::from_str(r.as_lower()),
        None => to_lower(raw.as_str()),
    }
}

pub open spec fn spec_tag_request(query: Seq<char>) -> RequestModel {
    RequestModel {
        url: "https://danbooru.donmai.us/autocomplete.json"@,
        query: seq![("search[query]"@, query), ("search[type]"@, "tag_query"@), ("limit"@, "10"@)],
    }
}

pub open spec fn spec_post_request(query: PostQuery) -> RequestModel {
    RequestModel {
        url: "https://danbooru.donmai.us/posts.json"@,
        query: seq![
            ("tags"@, spec_effective_tags(query.tags@, query.rating)),
            ("limit"@, int_string(query.limit as int)),
            ("page"@, int_string(query.page + 1)),
        ],
    }
}

impl Danbooru {
    /// Autocomplete request for `query`.
    pub fn tag_request(&self, client: &BooruClient, query: &str) -> (r: Option<Request>)
        ensures
            r matches Some(q) && q@ == spec_tag_request(query@),
    {
        let url = String::from_str("https://danbooru.donmai.us/autocomplete.json");
        let pairs = vec![
            ("search[query]", String::from_str(query)),
            ("search[type]", String::from_str("tag_query")),
            ("limit", String::from_str("10")),
        ];
        let r = request_of(url, pairs);
        assert(r@.query =~= seq![
            ("search[query]"@, query@),
            ("search[type]"@, "tag_query"@),
            ("limit"@, "10"@),
        ]);
        Some(r)
    }

    /// Normalize autocomplete records.
    pub fn tags_from_raw(&self, raw: Vec<RawTag>) -> (r: Vec<BooruTag>)
        ensures
            tag_views(r@) == raw@.map_values(|t: RawTag| spec_tag(t)),
    {
        let mut out: Vec<BooruTag> = Vec::new();
        let mut i: usize = 0;
        while i < raw.len()
            invariant
                i <= raw@.len(),
                tag_views(out@) == raw@.take(i as int).map_values(|t: RawTag| spec_tag(t)),
            decreases raw.len() - i,
        {
            let t = &raw[i];
            let tag = BooruTag {
                label: t.label.clone(),
                value: t.value.clone(),
                category: TagCategory::from_numeric(t.category),
                post_count: Some(t.post_count),
            };
            let ghost before = out@;
            out.push(tag);
            assert(raw@.take(i + 1) =~= raw@.take(i as int).push(raw@[i as int]));
            assert(tag_views(out@) =~= tag_views(before).push(tag@));
            i = i + 1;
        }
        assert(raw@.take(raw@.len() as int) =~= raw@);
        out
    }

    /// Post-search request; Danbooru pages are 1-indexed.
    pub fn post_request(&self, client: &BooruClient, query: &PostQuery) -> (r: Request)
        ensures
            r@ == spec_post_request(*query),
    {
        let url = String::from_str("https://danbooru.donmai.us/posts.json");
        let pairs = vec![
            ("tags", query.effective_tags()),
            ("limit", u64_to_string(query.limit as u64)),
            ("page", u64_to_string(query.page as u64 + 1)),
        ];
        let r = request_of(url, pairs);
        assert(r@.query =~= seq![
            ("tags"@, spec_effective_tags(query.tags@, query.rating)),
            ("limit"@, int_string(query.limit as int)),
            ("page"@, int_string(query.page + 1)),
        ]);
        r
    }

    /// Normalize one post record; `None` when it has no file URL.
    pub fn post_from_raw(&self, p: &RawPost) -> (r: Option<BooruPost>)
        ensures
            match r {
                Some(post) => spec_post(*p) == Some(post@),
                None => spec_post(*p) is None,
            },
    {
        let file_url = match &p.file_url {
            Some(u) => u.clone(),
            None => return None,
        };
        let mut tag_groups: Vec<TagGroup> = Vec::new();
        push_group_if_any(&mut tag_groups, TagCategory::General, &p.tag_string_general);
        push_group_if_any(&mut tag_groups, TagCategory::Character, &p.tag_string_character);
        push_group_if_any(&mut tag_groups, TagCategory::Copyright, &p.tag_string_copyright);
        push_group_if_any(&mut tag_groups, TagCategory::Artist, &p.tag_string_artist);
        push_group_if_any(&mut tag_groups, TagCategory::Metadata, &p.tag_string_meta);
        let id = i64_to_string(p.id);
        let post_view = String::from_str("https://danbooru.donmai.us/posts/").concat(id.as_str());
        let preview_url = match &p.preview_file_url {
            Some(u) => u.clone(),
            None => String::new(),
        };
        let sample_url = match &p.large_file_url {
            Some(u) => if u.as_str().is_empty() {
                None
            } else {
                Some(u.clone())
            },
            None => None,
        };
        let post = BooruPost {
            id,
            post_view,
            tags: split_tags(p.tag_string.as_str()),
            tag_groups,
            file_url,
            preview_url,
            sample_url,
            width: p.image_width,
            height: p.image_height,
            rating: rating_of(&p.rating),
            created_at: normalize_timestamp(p.created_at.as_str()),
        };
        assert(post@.post_view =~= "https://danbooru.donmai.us/posts/"@ + int_string(p.id as int));
        assert(post@.tag_groups =~= group_if_any(TagCategory::General, p.tag_string_general@)
            + group_if_any(TagCategory::Character, p.tag_string_character@) + group_if_any(
            TagCategory::Copyright,
            p.tag_string_copyright@,
        ) + group_if_any(TagCategory::Artist, p.tag_string_artist@) + group_if_any(
            TagCategory::Metadata,
            p.tag_string_meta@,
        ));
        Some(post)
    }

    /// Normalize a response's post records into a page.
    pub fn posts_from_raw(&self, raw: Vec<RawPost>) -> (r: PostsPage)
        ensures
            r@ == spec_page(raw@),
    {
        let mut posts: Vec<BooruPost> = Vec::new();
        let mut i: usize = 0;
        while i < raw.len()
            invariant
                i <= raw@.len(),
                post_views(posts@) == raw@.take(i as int).filter_map(|p: RawPost| spec_post(p)),
            decreases raw.len() - i,
        {
            let ghost before = posts@;
            let ghost prefix = raw@.take(i + 1);
            assert(prefix.drop_last() =~= raw@.take(i as int));
            assert(prefix.last() == raw@[i as int]);
            match self.post_from_raw(&raw[i]) {
                Some(post) => {
                    posts.push(post);
                    assert(post_views(posts@) =~= post_views(before).push(post@));
                    assert(post_views(posts@) =~= prefix.filter_map(|p: RawPost| spec_post(p)));
                },
                None => {},
            }
            i = i + 1;
        }
        assert(raw@.take(raw@.len() as int) =~= raw@);
        let has_next_page = posts.len() > 0;
        PostsPage { posts, has_next_page }
    }
}

} // verus!
