//! e621 provider — <https://e621.net>. No auth; tags arrive pre-grouped by
//! category. Autocomplete requires at least 3 characters.
use vstd::prelude::*;
use vstd::string::StringExecFns;

use super::danbooru::spec_rating;
use super::types::{
    group_views, normalize_timestamp, post_views, spec_as_lower, spec_effective_tags,
    spec_from_alias, spec_from_numeric, spec_normalize_timestamp, tag_views, BooruPost, BooruTag,
    PageModel, PostModel, PostQuery, PostsPage, Rating, TagCategory, TagGroup, TagGroupModel,
    TagModel,
};
use super::{request_of, BooruClient, Request, RequestModel};
use crate::text::{chars_of, i64_to_string, int_string, to_lower, u64_to_string, views};

verus! {

broadcast use vstd::string::group_string_axioms;

pub struct E621;

#[derive(Debug, Clone)]
pub struct RawFile {
    pub width: u32,
    pub height: u32,
    pub url: Option<String>,
}

#[derive(Debug, Clone)]
pub struct RawUrl {
    pub url: Option<String>,
}

#[derive(Debug, Clone)]
pub struct RawSample {
    pub has: bool,
    pub url: Option<String>,
}

/// A post's tags by category, as e621 sends them.
#[derive(Debug, Clone)]
pub struct RawTags {
    pub general: Vec<String>,
    pub artist: Vec<String>,
    pub copyright: Vec<String>,
    pub character: Vec<String>,
    pub species: Vec<String>,
    pub invalid: Vec<String>,
    pub meta: Vec<String>,
    pub lore: Vec<String>,
}

/// A post record as e621's `posts.json` returns it.
#[derive(Debug, Clone)]
pub struct RawPost {
    pub id: i64,
    pub file: RawFile,
    pub preview: RawUrl,
    pub sample: RawSample,
    pub tags: RawTags,
    pub rating: String,
    pub created_at: String,
}

/// An autocomplete record.
#[derive(Debug, Clone)]
pub struct RawTag {
    pub name: String,
    pub post_count: u32,
    pub category: i64,
}

pub open spec fn group_if_any(category: TagCategory, tags: Seq<Seq<char>>) -> Seq<TagGroupModel> {
    if tags.len() > 0 {
        seq![TagGroupModel { category, tags }]
    } else {
        Seq::empty()
    }
}

/// All of a post's tags, category by category in e621's order.
pub open spec fn flat_tags(t: RawTags) -> Seq<Seq<char>> {
    views(t.general@) + views(t.artist@) + views(t.copyright@) + views(t.character@) + views(
        t.species@,
    ) + views(t.invalid@) + views(t.meta@) + views(t.lore@)
}

/// The non-empty categories, in e621's order.
pub open spec fn tag_groups(t: RawTags) -> Seq<TagGroupModel> {
    group_if_any(TagCategory::General, views(t.general@)) + group_if_any(
        TagCategory::Artist,
        views(t.artist@),
    ) + group_if_any(TagCategory::Copyright, views(t.copyright@)) + group_if_any(
        TagCategory::Character,
        views(t.character@),
    ) + group_if_any(TagCategory::Species, views(t.species@)) + group_if_any(
        TagCategory::Invalid,
        views(t.invalid@),
    ) + group_if_any(TagCategory::Metadata, views(t.meta@)) + group_if_any(
        TagCategory::Lore,
        views(t.lore@),
    )
}

/// The tags e621 sends under category `c`: the field for that category (its
/// `meta` field holds the metadata tags); none for a category e621 has no
/// field for.
pub open spec fn raw_tags_of(t: RawTags, c: TagCategory) -> Seq<Seq<char>> {
    match c {
        TagCategory::General => views(t.general@),
        TagCategory::Artist => views(t.artist@),
        TagCategory::Copyright => views(t.copyright@),
        TagCategory::Character => views(t.character@),
        TagCategory::Species => views(t.species@),
        TagCategory::Invalid => views(t.invalid@),
        TagCategory::Metadata => views(t.meta@),
        TagCategory::Lore => views(t.lore@),
        TagCategory::Unknown => Seq::empty(),
    }
}

/// e621's category order, one category per position.
spec fn order_at(k: int) -> TagCategory {
    if k == 0 {
        TagCategory::General
    } else if k == 1 {
        TagCategory::Artist
    } else if k == 2 {
        TagCategory::Copyright
    } else if k == 3 {
        TagCategory::Character
    } else if k == 4 {
        TagCategory::Species
    } else if k == 5 {
        TagCategory::Invalid
    } else if k == 6 {
        TagCategory::Metadata
    } else {
        TagCategory::Lore
    }
}

/// The position of a category in e621's order (8 for one it does not send).
spec fn rank_of(c: TagCategory) -> int {
    match c {
        TagCategory::General => 0,
        TagCategory::Artist => 1,
        TagCategory::Copyright => 2,
        TagCategory::Character => 3,
        TagCategory::Species => 4,
        TagCategory::Invalid => 5,
        TagCategory::Metadata => 6,
        TagCategory::Lore => 7,
        TagCategory::Unknown => 8,
    }
}

/// The groups of the first `k` categories in e621's order.
spec fn groups_upto(t: RawTags, k: nat) -> Seq<TagGroupModel>
    decreases k,
{
    if k == 0 {
        Seq::empty()
    } else {
        groups_upto(t, (k - 1) as nat) + group_if_any(
            order_at(k - 1),
            raw_tags_of(t, order_at(k - 1)),
        )
    }
}

spec fn groups_sound(g: Seq<TagGroupModel>, t: RawTags, k: int) -> bool {
    &&& forall|i: int|
        0 <= i < g.len() ==> {
            &&& rank_of((#[trigger] g[i]).category) < k
            &&& g[i].tags == raw_tags_of(t, g[i].category)
            &&& g[i].tags.len() > 0
        }
    &&& forall|i: int, j: int|
        0 <= i < j < g.len() ==> (#[trigger] g[i]).category != (#[trigger] g[j]).category
    &&& forall|c: TagCategory|
        rank_of(c) < k && (#[trigger] raw_tags_of(t, c)).len() > 0 ==> exists|i: int|
            0 <= i < g.len() && (#[trigger] g[i]).category == c
}

proof fn lemma_groups_upto(t: RawTags, k: nat)
    requires
        k <= 8,
    ensures
        groups_sound(groups_upto(t, k), t, k as int),
    decreases k,
{
    if k > 0 {
        let k1 = (k - 1) as nat;
        lemma_groups_upto(t, k1);
        let g = groups_upto(t, k1);
        let c = order_at(k1 as int);
        let s = raw_tags_of(t, c);
        let g2 = groups_upto(t, k);
        assert(rank_of(c) == k1);
        assert(g2 == g + group_if_any(c, s));
        if s.len() > 0 {
            assert(g2.len() == g.len() + 1);
            assert(g2[g.len() as int].category == c);
            assert forall|i: int| 0 <= i < g.len() implies #[trigger] g2[i] == g[i] by {}
            assert forall|c2: TagCategory|
                rank_of(c2) < k && (#[trigger] raw_tags_of(t, c2)).len() > 0 implies exists|i: int|
                0 <= i < g2.len() && (#[trigger] g2[i]).category == c2 by {
                if rank_of(c2) < k1 {
                    let i = choose|i: int| 0 <= i < g.len() && (#[trigger] g[i]).category == c2;
                    assert(g2[i] == g[i]);
                } else {
                    assert(c2 == c);
                    assert(g2[g.len() as int].category == c2);
                }
            }
        } else {
            assert(g2 =~= g);
            assert forall|c2: TagCategory|
                rank_of(c2) < k && (#[trigger] raw_tags_of(t, c2)).len() > 0 implies exists|i: int|
                0 <= i < g2.len() && (#[trigger] g2[i]).category == c2 by {
                if rank_of(c2) == k1 {
                    assert(c2 == c);
                }
            }
        }
    }
}

/// e621's tag groups sort the post's tags by the category they came under:
/// each group holds exactly the tags sent under its category, and holds
/// some; no two groups share a category; and every category with tags has
/// its group.
pub proof fn lemma_e621_groups_by_category(p: RawPost)
    ensures
        spec_post(p) matches Some(post) ==> {
            let g = post.tag_groups;
            &&& forall|i: int|
                0 <= i < g.len() ==> (#[trigger] g[i]).tags == raw_tags_of(p.tags, g[i].category)
                    && g[i].tags.len() > 0
            &&& forall|i: int, j: int|
                0 <= i < j < g.len() ==> (#[trigger] g[i]).category != (#[trigger] g[j]).category
            &&& forall|c: TagCategory|
                (#[trigger] raw_tags_of(p.tags, c)).len() > 0 ==> exists|i: int|
                    0 <= i < g.len() && (#[trigger] g[i]).category == c
        },
{
    let t = p.tags;
    reveal_with_fuel(groups_upto, 9);
    assert(tag_groups(t) =~= groups_upto(t, 8)) by {
        assert(Seq::<TagGroupModel>::empty() + group_if_any(
            TagCategory::General,
            views(t.general@),
        ) =~= group_if_any(TagCategory::General, views(t.general@)));
    }
    lemma_groups_upto(t, 8);
    assert forall|c: TagCategory| #[trigger] rank_of(c) < 8 || raw_tags_of(t, c).len() == 0 by {}
}

/// The normalized post of a record; `None` when its file has no URL.
pub open spec fn spec_post(p: RawPost) -> Option<PostModel> {
    match p.file.url {
        None => None,
        Some(file_url) => Some(
            PostModel {
                id: int_string(p.id as int),
                post_view: "https://e621.net/posts/"@ + int_string(p.id as int),
                tags: flat_tags(p.tags),
                tag_groups: tag_groups(p.tags),
                file_url: file_url@,
                preview_url: match p.preview.url {
                    Some(u) => u@,
                    None => Seq::empty(),
                },
                sample_url: if p.sample.has {
                    match p.sample.url {
                        Some(u) => Some(u@),
                        None => None,
                    }
                } else {
                    None
                },
                width: p.file.width,
                height: p.file.height,
                rating: spec_rating(p.rating@),
                created_at: spec_normalize_timestamp(p.created_at@),
            },
        ),
    }
}

pub open spec fn spec_page(raw: Seq<RawPost>) -> PageModel {
    PageModel {
        posts: raw.filter_map(|p: RawPost| spec_post(p)),
        has_next_page: raw.filter_map(|p: RawPost| spec_post(p)).len() > 0,
    }
}

pub open spec fn spec_tag(t: RawTag) -> TagModel {
    TagModel {
        label: t.name@,
        value: t.name@,
        category: spec_from_numeric(t.category as int),
        post_count: Some(t.post_count),
    }
}

/// Each e621 suggestion is its record's name, both shown and put into the
/// search, with the record's post count; one suggestion per record, in order.
pub proof fn lemma_e621_suggestions(raw: Seq<RawTag>)
    ensures
        ({
            let s = raw.map_values(|t: RawTag| spec_tag(t));
            &&& s.len() == raw.len()
            &&& forall|i: int|
                0 <= i < raw.len() ==> {
                    &&& (#[trigger] s[i]).value == raw[i].name@
                    &&& s[i].label == raw[i].name@
                    &&& s[i].post_count == Some(raw[i].post_count)
                }
        }),
{
}

fn add_category(
    groups: &mut Vec<TagGroup>,
    flat: &mut Vec<String>,
    category: TagCategory,
    tags: &Vec<String>,
)
    ensures
        group_views(final(groups)@) == group_views(old(groups)@) + group_if_any(
            category,
            views(tags@),
        ),
        views(final(flat)@) == views(old(flat)@) + views(tags@),
{
    let mut i: usize = 0;
    while i < tags.len()
        invariant
            i <= tags@.len(),
            views(flat@) == views(old(flat)@) + views(tags@.take(i as int)),
            groups@ == old(groups)@,
        decreases tags.len() - i,
    {
        let ghost before = flat@;
        flat.push(tags[i].clone());
        assert(views(flat@) =~= views(before).push(tags@[i as int]@));
        assert(views(tags@.take(i + 1)) =~= views(tags@.take(i as int)).push(tags@[i as int]@));
        i = i + 1;
    }
    assert(tags@.take(tags@.len() as int) =~= tags@);
    if tags.len() > 0 {
        let ghost before = groups@;
        groups.push(TagGroup { category, tags: tags.clone() });
        assert(group_views(groups@) =~= group_views(before) + group_if_any(category, views(tags@)));
    } else {
        assert(group_views(groups@) =~= group_views(old(groups)@) + group_if_any(
            category,
            views(tags@),
        ));
    }
}

pub open spec fn spec_tag_request(query: Seq<char>) -> Option<RequestModel> {
    if query.len() < 3 {
        None
    } else {
        Some(
            RequestModel {
                url: "https://e621.net/tags/autocomplete.json"@,
                query: seq![("search[name_matches]"@, query), ("expiry"@, "7"@)],
            },
        )
    }
}

pub open spec fn spec_post_request(query: PostQuery) -> RequestModel {
    RequestModel {
        url: "https://e621.net/posts.json"@,
        query: seq![
            ("tags"@, spec_effective_tags(query.tags@, query.rating)),
            ("limit"@, int_string(query.limit as int)),
            ("page"@, int_string(query.page + 1)),
        ],
    }
}

impl E621 {
    /// Autocomplete request for `query`; `None` (no request) for queries
    /// shorter than 3 characters.
    pub fn tag_request(&self, client: &BooruClient, query: &str) -> (r: Option<Request>)
        ensures
            match r {
                Some(q) => spec_tag_request(query@) == Some(q@),
                None => spec_tag_request(query@) is None,
            },
    {
        if chars_of(query).len() < 3 {
            return None;
        }
        let url = String::from_str("https://e621.net/tags/autocomplete.json");
        let pairs = vec![
            ("search[name_matches]", String::from_str(query)),
            ("expiry", String::from_str("7")),
        ];
        let r = request_of(url, pairs);
        assert(r@.query =~= seq![("search[name_matches]"@, query@), ("expiry"@, "7"@)]);
        Some(r)
    }

    /// Normalize autocomplete records: the name is both label and value.
    pub fn tags_from_raw(&self, raw: Vec<RawTag>) -> (r: Vec<BooruTag>)
        ensures
            tag_views(r@) == raw@.map_values(|t: RawTag| spec_tag(t)),
    {
        let mut out: Vec<BooruTag> = Vec::new();
        let mut i: usize = 0;
        while i < raw.len()
            invariant
                i <= raw@.len(),
                tag_views(out@) == raw@.take(i as int).map_values(|t: RawTag| spec_tag(t)),
            decreases raw.len() - i,
        {
            let t = &raw[i];
            let tag = BooruTag {
                label: t.name.clone(),
                value: t.name.clone(),
                category: TagCategory::from_numeric(t.category),
                post_count: Some(t.post_count),
            };
            let ghost before = out@;
            out.push(tag);
            assert(raw@.take(i + 1) =~= raw@.take(i as int).push(raw@[i as int]));
            assert(tag_views(out@) =~= tag_views(before).push(tag@));
            i = i + 1;
        }
        assert(raw@.take(raw@.len() as int) =~= raw@);
        out
    }

    /// Post-search request; e621 pages are 1-indexed.
    pub fn post_request(&self, client: &BooruClient, query: &PostQuery) -> (r: Request)
        ensures
            r@ == spec_post_request(*query),
    {
        let url = String::from_str("https://e621.net/posts.json");
        let pairs = vec![
            ("tags", query.effective_tags()),
            ("limit", u64_to_string(query.limit as u64)),
            ("page", u64_to_string(query.page as u64 + 1)),
        ];
        let r = request_of(url, pairs);
        assert(r@.query =~= seq![
            ("tags"@, spec_effective_tags(query.tags@, query.rating)),
            ("limit"@, int_string(query.limit as int)),
            ("page"@, int_string(query.page + 1)),
        ]);
        r
    }

    /// Normalize one post record; `None` when its file has no URL.
    pub fn post_from_raw(&self, p: &RawPost) -> (r: Option<BooruPost>)
        ensures
            match r {
                Some(post) => spec_post(*p) == Some(post@),
                None => spec_post(*p) is None,
            },
    {
        let file_url = match &p.file.url {
            Some(u) => u.clone(),
            None => return None,
        };
        let mut groups: Vec<TagGroup> = Vec::new();
        let mut flat: Vec<String> = Vec::new();
        add_category(&mut groups, &mut flat, TagCategory::General, &p.tags.general);
        add_category(&mut groups, &mut flat, TagCategory::Artist, &p.tags.artist);
        add_category(&mut groups, &mut flat, TagCategory::Copyright, &p.tags.copyright);
        add_category(&mut groups, &mut flat, TagCategory::Character, &p.tags.character);
        add_category(&mut groups, &mut flat, TagCategory::Species, &p.tags.species);
        add_category(&mut groups, &mut flat, TagCategory::Invalid, &p.tags.invalid);
        add_category(&mut groups, &mut flat, TagCategory::Metadata, &p.tags.meta);
        add_category(&mut groups, &mut flat, TagCategory::Lore, &p.tags.lore);
        let rating = match Rating::from_alias(p.rating.as_str()) {
            Some(r) => String::from_str(r.as_lower()),
            None => to_lower(p.rating.as_str()),
        };
        let id = i64_to_string(p.id);
        let post_view = String::from_str("https://e621.net/posts/").concat(id.as_str());
        let preview_url = match &p.preview.url {
            Some(u) => u.clone(),
            None => String::new(),
        };
        let sample_url = if p.sample.has {
            p.sample.url.clone()
        } else {
            None
        };
        let post = BooruPost {
            id,
            post_view,
            tags: flat,
            tag_groups: groups,
            file_url,
            preview_url,
            sample_url,
            width: p.file.width,
            height: p.file.height,
            rating,
            created_at: normalize_timestamp(p.created_at.as_str()),
        };
        assert(views(Seq::<String>::empty()) =~= Seq::<Seq<char>>::empty());
        assert(group_views(Seq::<TagGroup>::empty()) =~= Seq::<TagGroupModel>::empty());
        assert(post@.tags =~= flat_tags(p.tags));
        assert(post@.tag_groups =~= tag_groups(p.tags));
        Some(post)
    }

    /// Normalize a response's post records into a page.
    pub fn posts_from_raw(&self, raw: Vec<RawPost>) -> (r: PostsPage)
        ensures
            r@ == spec_page(raw@),
    {
        let mut posts: Vec<BooruPost> = Vec::new();
        let mut i: usize = 0;
        while i < raw.len()
            invariant
                i <= raw@.len(),
                post_views(posts@) == raw@.take(i as int).filter_map(|p: RawPost| spec_post(p)),
            decreases raw.len() - i,
        {
            let ghost before = posts@;
            let ghost prefix = raw@.take(i + 1);
            assert(prefix.drop_last() =~= raw@.take(i as int));
            assert(prefix.last() == raw@[i as int]);
            match self.post_from_raw(&raw[i]) {
                Some(post) => {
                    posts.push(post);
                    assert(post_views(posts@) =~= post_views(before).push(post@));
                    assert(post_views(posts@) =~= prefix.filter_map(|p: RawPost| spec_post(p)));
                },
                None => {},
            }
            i = i + 1;
        }
        assert(raw@.take(raw@.len() as int) =~= raw@);
        let has_next_page = posts.len() > 0;
        PostsPage { posts, has_next_page }
    }
}

} // verus!
