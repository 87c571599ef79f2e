//! Gelbooru provider — <https://gelbooru.com>. Requires API credentials (set on
//! the [`BooruClient`]). Tag names come back double-HTML-encoded, and category
//! groups need a separate fetch.
use vstd::prelude::*;
use vstd::string::StringExecFns;

use super::types::{
    group_views, normalize_timestamp, post_views, spec_effective_tags, spec_from_numeric,
    spec_normalize_timestamp, tag_views, BooruPost, BooruTag, PageModel, PostModel, PostQuery,
    PostsPage, TagCategory, TagGroup, TagGroupModel, TagModel,
};
use super::{
    clone_strings, decode_html, html_decoded, join_spaced, join_with_spaces, request_of,
    split_tags, BooruClient, Request, RequestModel,
};
use crate::text::{
    chars_of, i64_to_string, int_string, parse_u32, parse_u32_chars, same_text, u64_to_string,
    views, words,
};

verus! {

broadcast use vstd::string::group_string_axioms;

pub struct Gelbooru;

/// Paging attributes of a post search response.
#[derive(Debug, Clone)]
pub struct RawAttributes {
    pub limit: i64,
    pub offset: i64,
    pub count: i64,
}

/// A post record as Gelbooru's DAPI returns it.
#[derive(Debug, Clone)]
pub struct RawPost {
    pub id: i64,
    pub width: u32,
    pub height: u32,
    pub tags: String,
    pub file_url: String,
    pub preview_url: String,
    pub sample_url: String,
    pub rating: String,
    pub created_at: String,
}

/// A post search response.
#[derive(Debug, Clone)]
pub struct RawResponse {
    pub post: Vec<RawPost>,
    pub attributes: RawAttributes,
}

/// An autocomplete record; the count comes as text.
#[derive(Debug, Clone)]
pub struct RawTag {
    pub label: String,
    pub value: String,
    pub category: String,
    pub post_count: String,
}

/// A tag of a tag-group response, with its numeric category.
#[derive(Debug, Clone)]
pub struct RawTagGroupEntry {
    pub name: String,
    pub kind: i64,
}

/// Category of Gelbooru's string-typed autocomplete categories.
pub open spec fn spec_category_from_str(c: Seq<char>) -> TagCategory {
    if c == "tag"@ {
        TagCategory::General
    } else if c == "artist"@ {
        TagCategory::Artist
    } else if c == "copyright"@ {
        TagCategory::Copyright
    } else if c == "character"@ {
        TagCategory::Character
    } else if c == "metadata"@ {
        TagCategory::Metadata
    } else {
        TagCategory::Unknown
    }
}

/// Category color for Gelbooru's string-typed autocomplete categories.
pub fn category_from_str(category: &str) -> (r: TagCategory)
    ensures
        r == spec_category_from_str(category@),
{
    if same_text(category, "tag") {
        TagCategory::General
    } else if same_text(category, "artist") {
        TagCategory::Artist
    } else if same_text(category, "copyright") {
        TagCategory::Copyright
    } else if same_text(category, "character") {
        TagCategory::Character
    } else if same_text(category, "metadata") {
        TagCategory::Metadata
    } else {
        TagCategory::Unknown
    }
}

pub open spec fn spec_tag(t: RawTag) -> TagModel {
    TagModel {
        label: t.label@,
        value: t.value@,
        category: spec_category_from_str(t.category@),
        post_count: parse_u32(t.post_count@),
    }
}

pub open spec fn spec_post(p: RawPost) -> PostModel {
    PostModel {
        id: int_string(p.id as int),
        post_view: "https://gelbooru.com/index.php?page=post&s=view&id="@ + int_string(p.id as int),
        tags: words(p.tags@),
        tag_groups: Seq::empty(),
        file_url: p.file_url@,
        preview_url: p.preview_url@,
        sample_url: if p.sample_url@.len() > 0 {
            Some(p.sample_url@)
        } else {
            None
        },
        width: p.width,
        height: p.height,
        rating: p.rating@,
        created_at: spec_normalize_timestamp(p.created_at@),
    }
}

/// Every record normalized, in order; there is a next page when the total
/// count exceeds the offset plus the page size.
pub open spec fn spec_page(r: RawResponse) -> PageModel {
    PageModel {
        posts: r.post@.map_values(|p: RawPost| spec_post(p)),
        has_next_page: r.attributes.count > r.attributes.limit + r.attributes.offset,
    }
}

/// Each Gelbooru suggestion puts the record's value into the search and
/// shows its label; one suggestion per record, in order.
pub proof fn lemma_gelbooru_suggestions(raw: Seq<RawTag>)
    ensures
        ({
            let s = raw.map_values(|t: RawTag| spec_tag(t));
            &&& s.len() == raw.len()
            &&& forall|i: int|
                0 <= i < raw.len() ==> (#[trigger] s[i]).value == raw[i].value@ && s[i].label
                    == raw[i].label@
        }),
{
}

/// A Gelbooru page has a next page exactly when posts remain past it: when
/// the total count exceeds the offset of this page plus its limit. A page that
/// reaches the count is the last, however many posts it holds, and each post
/// record gives one post.
pub proof fn lemma_gelbooru_next_page(r: RawResponse)
    ensures
        spec_page(r).has_next_page <==> r.attributes.offset + r.attributes.limit
            < r.attributes.count,
        r.attributes.count <= r.attributes.offset + r.attributes.limit
            ==> !spec_page(r).has_next_page,
        spec_page(r).posts.len() == r.post@.len(),
{
}

/// Index of the first group of category `c`.
pub open spec fn find_group(g: Seq<TagGroupModel>, c: TagCategory) -> Option<int>
    decreases g.len(),
{
    if g.len() == 0 {
        None
    } else {
        match find_group(g.drop_last(), c) {
            Some(i) => Some(i),
            None => if g.last().category == c {
                Some(g.len() - 1)
            } else {
                None
            },
        }
    }
}

/// Entries grouped by category: groups in order of each category's first
/// entry, each holding its entries' names in order.
pub open spec fn group_entries(e: Seq<(TagCategory, Seq<char>)>) -> Seq<TagGroupModel>
    decreases e.len(),
{
    if e.len() == 0 {
        Seq::empty()
    } else {
        let g = group_entries(e.drop_last());
        let (c, n) = e.last();
        match find_group(g, c) {
            Some(i) => g.update(i, TagGroupModel { category: c, tags: g[i].tags.push(n) }),
            None => g.push(TagGroupModel { category: c, tags: seq![n] }),
        }
    }
}

/// Each entry's category and decoded name.
pub open spec fn group_inputs(raw: Seq<RawTagGroupEntry>) -> Seq<(TagCategory, Seq<char>)> {
    raw.map_values(
        |t: RawTagGroupEntry| (spec_from_numeric(t.kind as int), html_decoded(t.name@)),
    )
}

proof fn lemma_find_group(g: Seq<TagGroupModel>, c: TagCategory)
    ensures
        match find_group(g, c) {
            Some(i) => 0 <= i < g.len() && g[i].category == c && forall|j: int|
                0 <= j < i ==> (#[trigger] g[j]).category != c,
            None => forall|j: int| 0 <= j < g.len() ==> (#[trigger] g[j]).category != c,
        },
    decreases g.len(),
{
    if g.len() > 0 {
        lemma_find_group(g.drop_last(), c);
        assert forall|j: int| 0 <= j < g.len() - 1 implies g[j] == g.drop_last()[j] by {}
    }
}

/// Position of the first group of `category` in `groups`.
fn group_position(groups: &Vec<TagGroup>, category: TagCategory) -> (r: Option<usize>)
    ensures
        match r {
            Some(i) => i < groups@.len() && find_group(group_views(groups@), category) == Some(
                i as int,
            ),
            None => find_group(group_views(groups@), category) is None,
        },
{
    let ghost g = group_views(groups@);
    proof {
        lemma_find_group(g, category);
    }
    let mut i: usize = 0;
    while i < groups.len()
        invariant
            i <= groups@.len(),
            g == group_views(groups@),
            forall|j: int| 0 <= j < i ==> (#[trigger] g[j]).category != category,
            match find_group(g, category) {
                Some(k) => 0 <= k < g.len() && g[k].category == category && forall|j: int|
                    0 <= j < k ==> (#[trigger] g[j]).category != category,
                None => forall|j: int| 0 <= j < g.len() ==> (#[trigger] g[j]).category != category,
            },
        decreases groups.len() - i,
    {
        if groups[i].category == category {
            assert(g[i as int].category == category);
            return Some(i);
        }
        assert(g[i as int].category != category);
        i = i + 1;
    }
    None
}

pub open spec fn spec_tag_request(query: Seq<char>) -> RequestModel {
    RequestModel {
        url: "https://gelbooru.com/index.php"@,
        query: seq![
            ("page"@, "autocomplete2"@),
            ("term"@, query),
            ("type"@, "tag_query"@),
            ("limit"@, "10"@),
        ],
    }
}

pub open spec fn spec_post_request(creds: Seq<char>, query: PostQuery) -> RequestModel {
    RequestModel {
        url: "https://gelbooru.com/index.php?page=dapi&s=post&q=index&json=1"@ + creds,
        query: seq![
            ("tags"@, spec_effective_tags(query.tags@, query.rating)),
            ("pid"@, int_string(query.page as int)),
            ("limit"@, int_string(query.limit as int)),
        ],
    }
}

pub open spec fn spec_tag_groups_request(creds: Seq<char>, post: PostModel) -> RequestModel {
    RequestModel {
        url: "https://gelbooru.com/index.php?page=dapi&s=tag&q=index&json=1&orderby=name&order=asc"@
            + creds,
        query: seq![("names"@, join_spaced(post.tags))],
    }
}

/// The names of the entries of category `c`, in order.
pub open spec fn names_in(e: Seq<(TagCategory, Seq<char>)>, c: TagCategory) -> Seq<Seq<char>>
    decreases e.len(),
{
    if e.len() == 0 {
        Seq::empty()
    } else if e.last().0 == c {
        names_in(e.drop_last(), c).push(e.last().1)
    } else {
        names_in(e.drop_last(), c)
    }
}

proof fn lemma_names_in_absent(e: Seq<(TagCategory, Seq<char>)>, c: TagCategory)
    requires
        forall|k: int| 0 <= k < e.len() ==> (#[trigger] e[k]).0 != c,
    ensures
        names_in(e, c) == Seq::<Seq<char>>::empty(),
    decreases e.len(),
{
    if e.len() > 0 {
        assert forall|k: int| 0 <= k < e.drop_last().len() implies (
        #[trigger] e.drop_last()[k]).0 != c by {
            assert(e.drop_last()[k] == e[k]);
        }
        lemma_names_in_absent(e.drop_last(), c);
        assert(e[e.len() - 1].0 != c);
    }
}

/// Grouping tags by category partitions them: the groups have distinct
/// categories, every entry's category has a group, and each group holds
/// exactly the names of its category's entries, in their original order.
pub proof fn lemma_group_entries_partition(e: Seq<(TagCategory, Seq<char>)>)
    ensures
        forall|i: int, j: int|
            0 <= i < j < group_entries(e).len() ==> (#[trigger] group_entries(e)[i]).category
                != (#[trigger] group_entries(e)[j]).category,
        forall|i: int|
            0 <= i < group_entries(e).len() ==> (#[trigger] group_entries(e)[i]).tags == names_in(
                e,
                group_entries(e)[i].category,
            ),
        forall|k: int|
            0 <= k < e.len() ==> exists|i: int|
                0 <= i < group_entries(e).len() && (#[trigger] group_entries(e)[i]).category == (
                #[trigger] e[k]).0,
    decreases e.len(),
{
    if e.len() > 0 {
        let prev = e.drop_last();
        lemma_group_entries_partition(prev);
        let g = group_entries(prev);
        let (c, n) = e.last();
        lemma_find_group(g, c);
        let ng = group_entries(e);
        match find_group(g, c) {
            Some(i) => {
                assert(ng == g.update(i, TagGroupModel { category: c, tags: g[i].tags.push(n) }));
                assert forall|a: int, b: int|
                    0 <= a < b < ng.len() implies (#[trigger] ng[a]).category != (
                    #[trigger] ng[b]).category by {
                    assert(g[a].category == ng[a].category);
                    assert(g[b].category == ng[b].category);
                }
                assert forall|a: int| 0 <= a < ng.len() implies (#[trigger] ng[a]).tags
                    == names_in(e, ng[a].category) by {
                    if a != i {
                        assert(ng[a] == g[a]);
                        assert(g[a].category != c);
                    }
                }
                assert forall|k: int| 0 <= k < e.len() implies exists|a: int|
                    0 <= a < ng.len() && (#[trigger] ng[a]).category == (#[trigger] e[k]).0 by {
                    if k < prev.len() {
                        assert(e[k] == prev[k]);
                        let a = choose|a: int|
                            0 <= a < g.len() && (#[trigger] g[a]).category == (
                            #[trigger] prev[k]).0;
                        assert(ng[a].category == g[a].category);
                    } else {
                        assert(ng[i].category == c);
                    }
                }
            },
            None => {
                assert(ng == g.push(TagGroupModel { category: c, tags: seq![n] }));
                assert forall|k: int| 0 <= k < prev.len() implies (#[trigger] prev[k]).0 != c by {
                    let a = choose|a: int|
                        0 <= a < g.len() && (#[trigger] g[a]).category == (#[trigger] prev[k]).0;
                }
                lemma_names_in_absent(prev, c);
                assert(names_in(e, c) =~= seq![n]);
                assert forall|a: int, b: int|
                    0 <= a < b < ng.len() implies (#[trigger] ng[a]).category != (
                    #[trigger] ng[b]).category by {
                    if b < g.len() {
                        assert(ng[a] == g[a] && ng[b] == g[b]);
                    } else {
                        assert(ng[a] == g[a]);
                    }
                }
                assert forall|a: int| 0 <= a < ng.len() implies (#[trigger] ng[a]).tags
                    == names_in(e, ng[a].category) by {
                    if a < g.len() {
                        assert(ng[a] == g[a]);
                        assert(g[a].category != c);
                    }
                }
                assert forall|k: int| 0 <= k < e.len() implies exists|a: int|
                    0 <= a < ng.len() && (#[trigger] ng[a]).category == (#[trigger] e[k]).0 by {
                    if k < prev.len() {
                        assert(e[k] == prev[k]);
                        let a = choose|a: int|
                            0 <= a < g.len() && (#[trigger] g[a]).category == (
                            #[trigger] prev[k]).0;
                        assert(ng[a] == g[a]);
                    } else {
                        assert(ng[g.len() as int].category == c);
                    }
                }
            },
        }
    }
}

impl Gelbooru {
    /// Autocomplete request for `query`.
    pub fn tag_request(&self, client: &BooruClient, query: &str) -> (r: Option<Request>)
        ensures
            r matches Some(q) && q@ == spec_tag_request(query@),
    {
        let url = String::from_str("https://gelbooru.com/index.php");
        let pairs = vec![
            ("page", String::from_str("autocomplete2")),
            ("term", String::from_str(query)),
            ("type", String::from_str("tag_query")),
            ("limit", String::from_str("10")),
        ];
        let r = request_of(url, pairs);
        assert(r@.query =~= seq![
            ("page"@, "autocomplete2"@),
            ("term"@, query@),
            ("type"@, "tag_query"@),
            ("limit"@, "10"@),
        ]);
        Some(r)
    }

    /// Normalize autocomplete records; an unparseable count becomes `None`.
    pub fn tags_from_raw(&self, raw: Vec<RawTag>) -> (r: Vec<BooruTag>)
        ensures
            tag_views(r@) == raw@.map_values(|t: RawTag| spec_tag(t)),
    {
        let mut out: Vec<BooruTag> = Vec::new();
        let mut i: usize = 0;
        while i < raw.len()
            invariant
                i <= raw@.len(),
                tag_views(out@) == raw@.take(i as int).map_values(|t: RawTag| spec_tag(t)),
            decreases raw.len() - i,
        {
            let t = &raw[i];
            let tag = BooruTag {
                label: t.label.clone(),
                value: t.value.clone(),
                category: category_from_str(t.category.as_str()),
                post_count: parse_u32_chars(&chars_of(t.post_count.as_str())),
            };
            let ghost before = out@;
            out.push(tag);
            assert(raw@.take(i + 1) =~= raw@.take(i as int).push(raw@[i as int]));
            assert(tag_views(out@) =~= tag_views(before).push(tag@));
            i = i + 1;
        }
        assert(raw@.take(raw@.len() as int) =~= raw@);
        out
    }

    /// Post-search request: the credentials are appended verbatim to the base
    /// URL; Gelbooru pages (`pid`) are 0-indexed.
    pub fn post_request(&self, client: &BooruClient, query: &PostQuery) -> (r: Request)
        ensures
            r@ == spec_post_request(client.spec_credentials(), *query),
    {
        let url = String::from_str("https://gelbooru.com/index.php?page=dapi&s=post&q=index&json=1")
            .concat(client.gelbooru_credentials());
        let pairs = vec![
            ("tags", query.effective_tags()),
            ("pid", u64_to_string(query.page as u64)),
            ("limit", u64_to_string(query.limit as u64)),
        ];
        let r = request_of(url, pairs);
        assert(r@.query =~= seq![
            ("tags"@, spec_effective_tags(query.tags@, query.rating)),
            ("pid"@, int_string(query.page as int)),
            ("limit"@, int_string(query.limit as int)),
        ]);
        r
    }

    /// Normalize one post record (tag groups are filled in by a later fetch).
    pub fn post_from_raw(&self, p: &RawPost) -> (r: BooruPost)
        ensures
            r@ == spec_post(*p),
    {
        let id = i64_to_string(p.id);
        let post_view = String::from_str("https://gelbooru.com/index.php?page=post&s=view&id=")
            .concat(id.as_str());
        let sample_url = if p.sample_url.as_str().is_empty() {
            None
        } else {
            Some(p.sample_url.clone())
        };
        let r = BooruPost {
            id,
            post_view,
            tags: split_tags(p.tags.as_str()),
            tag_groups: Vec::new(),
            file_url: p.file_url.clone(),
            preview_url: p.preview_url.clone(),
            sample_url,
            width: p.width,
            height: p.height,
            rating: p.rating.clone(),
            created_at: normalize_timestamp(p.created_at.as_str()),
        };
        assert(r@.tag_groups =~= Seq::<TagGroupModel>::empty());
        r
    }

    /// Normalize a post search response into a page.
    pub fn posts_from_raw(&self, raw: RawResponse) -> (r: PostsPage)
        ensures
            r@ == spec_page(raw),
    {
        let a = &raw.attributes;
        let has_next_page = a.count as i128 > a.limit as i128 + a.offset as i128;
        let mut posts: Vec<BooruPost> = Vec::new();
        let mut i: usize = 0;
        while i < raw.post.len()
            invariant
                i <= raw.post@.len(),
                post_views(posts@) == raw.post@.take(i as int).map_values(
                    |p: RawPost| spec_post(p),
                ),
            decreases raw.post.len() - i,
        {
            let post = self.post_from_raw(&raw.post[i]);
            let ghost before = posts@;
            posts.push(post);
            assert(raw.post@.take(i + 1) =~= raw.post@.take(i as int).push(raw.post@[i as int]));
            assert(post_views(posts@) =~= post_views(before).push(post@));
            i = i + 1;
        }
        assert(raw.post@.take(raw.post@.len() as int) =~= raw.post@);
        PostsPage { posts, has_next_page }
    }

    /// Follow-up request for a post's category-grouped tags.
    pub fn tag_groups_request(&self, client: &BooruClient, post: &BooruPost) -> (r: Option<
        Request,
    >)
        ensures
            r matches Some(q) && q@ == spec_tag_groups_request(client.spec_credentials(), post@),
    {
        let url = String::from_str(
            "https://gelbooru.com/index.php?page=dapi&s=tag&q=index&json=1&orderby=name&order=asc",
        ).concat(client.gelbooru_credentials());
        let pairs = vec![("names", join_with_spaces(&post.tags))];
        let r = request_of(url, pairs);
        assert(r@.query =~= seq![("names"@, join_spaced(views(post.tags@)))]);
        Some(r)
    }

    /// Group a tag-group response by category. Names arrive double-encoded and
    /// are decoded once.
    pub fn tag_groups_from_raw(&self, raw: Vec<RawTagGroupEntry>) -> (r: Vec<TagGroup>)
        ensures
            group_views(r@) == group_entries(group_inputs(raw@)),
    {
        let mut groups: Vec<TagGroup> = Vec::new();
        let mut i: usize = 0;
        while i < raw.len()
            invariant
                i <= raw@.len(),
                group_views(groups@) == group_entries(group_inputs(raw@.take(i as int))),
            decreases raw.len() - i,
        {
            let entry = &raw[i];
            let category = TagCategory::from_numeric(entry.kind);
            let name = decode_html(entry.name.as_str());
            let ghost inputs = group_inputs(raw@.take(i + 1));
            assert(inputs.drop_last() =~= group_inputs(raw@.take(i as int)));
            assert(inputs.last() == (category, name@));
            let ghost g = group_views(groups@);
            match group_position(&groups, category) {
                Some(k) => {
                    let mut tags = clone_strings(&groups[k].tags);
                    let ghost old_tags = tags@;
                    tags.push(name);
                    assert(views(tags@) =~= views(old_tags).push(name@));
                    assert(g[k as int].tags == views(old_tags));
                    let ghost before = groups@;
                    groups.set(k, TagGroup { category, tags });
                    assert(group_views(groups@) =~= g.update(
                        k as int,
                        TagGroupModel { category, tags: g[k as int].tags.push(name@) },
                    ));
                },
                None => {
                    let tags = vec![name];
                    assert(views(tags@) =~= seq![name@]);
                    let ghost before = groups@;
                    groups.push(TagGroup { category, tags });
                    assert(group_views(groups@) =~= g.push(
                        TagGroupModel { category, tags: seq![name@] },
                    ));
                },
            }
            i = i + 1;
        }
        assert(raw@.take(raw@.len() as int) =~= raw@);
        groups
    }
}

} // verus!
