//! Rule 34 provider — <https://rule34.xxx>. Left out of the UI (see
//! [`super::Site::enabled`]) but kept for completeness. No auth.
use vstd::prelude::*;
use vstd::string::StringExecFns;

use super::types::{
    after_last, after_last_pos, lemma_after_last_split, post_views, spec_effective_tags,
    spec_timestamp_from_unix, tag_views, timestamp_from_unix, BooruPost, BooruTag, PageModel,
    PostModel, PostQuery, PostsPage, TagCategory, TagGroupModel, TagModel,
};
use super::{decode_html, html_decoded, request_of, split_tags, BooruClient, Request, RequestModel};
use crate::text::{
    before_char, chars_of, ends_with, i64_to_string, int_string, lemma_before_char, parse_u32,
    parse_u32_chars, same_text, text_ends_with, trim, trim_chars, u64_to_string, words,
};

verus! {

broadcast use vstd::string::group_string_axioms;

pub struct Rule34;

/// A post record as the Rule 34 DAPI returns it.
#[derive(Debug, Clone)]
pub struct RawPost {
    pub id: i64,
    pub width: u32,
    pub height: u32,
    pub tags: String,
    pub file_url: String,
    pub preview_url: String,
    pub sample_url: String,
    pub rating: String,
    /// Last change, as a Unix timestamp in seconds.
    pub change: i64,
}

/// An autocomplete record.
#[derive(Debug, Clone)]
pub struct RawTag {
    pub label: String,
    pub value: String,
    pub kind: String,
}

pub open spec fn spec_category_from_str(c: Seq<char>) -> TagCategory {
    if c == "general"@ {
        TagCategory::General
    } else if c == "artist"@ {
        TagCategory::Artist
    } else if c == "copyright"@ {
        TagCategory::Copyright
    } else if c == "character"@ {
        TagCategory::Character
    } else if c == "metadata"@ {
        TagCategory::Metadata
    } else {
        TagCategory::Unknown
    }
}

/// Category of Rule 34's string-typed autocomplete categories.
pub fn category_from_str(category: &str) -> (r: TagCategory)
    ensures
        r == spec_category_from_str(category@),
{
    if same_text(category, "general") {
        TagCategory::General
    } else if same_text(category, "artist") {
        TagCategory::Artist
    } else if same_text(category, "copyright") {
        TagCategory::Copyright
    } else if same_text(category, "character") {
        TagCategory::Character
    } else if same_text(category, "metadata") {
        TagCategory::Metadata
    } else {
        TagCategory::Unknown
    }
}

/// The count in a label like `"samus_aran (1234)"`: the text between the last
/// `(` and the first `)` after it, trimmed and read as a `u32`.
pub open spec fn spec_count_from_label(label: Seq<char>) -> Option<u32> {
    if !label.contains('(') {
        None
    } else {
        let rest = after_last(label, '(');
        if !rest.contains(')') {
            None
        } else {
            parse_u32(trim(before_char(rest, ')')))
        }
    }
}

/// Extract the post count from an autocomplete label like `"samus_aran (1234)"`.
pub fn count_from_label(label: &str) -> (r: Option<u32>)
    ensures
        r == spec_count_from_label(label@),
{
    let cs = chars_of(label);
    let start = after_last_pos(&cs, cs.len(), '(');
    proof {
        lemma_after_last_split(cs@, '(', start as int);
    }
    if start == 0 {
        assert(!label@.contains('('));
        return None;
    }
    let ghost rest = cs@.subrange(start as int, cs@.len() as int);
    let mut end = start;
    while end < cs.len() && cs[end] != ')'
        invariant
            start <= end <= cs@.len(),
            forall|j: int| start <= j < end ==> cs@[j] != ')',
        decreases cs.len() - end,
    {
        end = end + 1;
    }
    proof {
        assert forall|j: int| 0 <= j < end - start implies rest[j] != ')' by {
            assert(rest[j] == cs@[start + j]);
        }
        if end < cs@.len() {
            assert(rest[end - start] == cs@[end as int]);
        }
        lemma_before_char(rest, ')', end - start);
    }
    if end == cs.len() {
        return None;
    }
    let mut seg: Vec<char> = Vec::new();
    let mut i = start;
    while i < end
        invariant
            start <= i <= end <= cs@.len(),
            seg@ == cs@.subrange(start as int, i as int),
        decreases end - i,
    {
        seg.push(cs[i]);
        assert(cs@.subrange(start as int, i + 1) =~= cs@.subrange(start as int, i as int).push(
            cs@[i as int],
        ));
        i = i + 1;
    }
    assert(rest.take(end - start) =~= seg@);
    parse_u32_chars(&trim_chars(&seg))
}

/// The sample shown for a post: the preview instead of a `.gif` sample.
pub open spec fn spec_sample(p: RawPost) -> Seq<char> {
    if ends_with(p.sample_url@, ".gif"@) {
        p.preview_url@
    } else {
        p.sample_url@
    }
}

pub open spec fn spec_post(p: RawPost) -> PostModel {
    PostModel {
        id: int_string(p.id as int),
        post_view: "https://rule34.xxx/index.php?page=post&s=view&id="@ + int_string(p.id as int),
        tags: words(p.tags@),
        tag_groups: Seq::empty(),
        file_url: p.file_url@,
        preview_url: p.preview_url@,
        sample_url: if spec_sample(p).len() > 0 {
            Some(spec_sample(p))
        } else {
            None
        },
        width: p.width,
        height: p.height,
        rating: p.rating@,
        created_at: spec_timestamp_from_unix(p.change as int),
    }
}

/// Every record normalized, in order; a next page is assumed whenever the
/// response is non-empty.
pub open spec fn spec_page(raw: Seq<RawPost>) -> PageModel {
    PageModel { posts: raw.map_values(|p: RawPost| spec_post(p)), has_next_page: raw.len() > 0 }
}

/// The tag of a record: its decoded value is both label and value, and the
/// count comes from the label.
pub open spec fn spec_tag(t: RawTag) -> TagModel {
    TagModel {
        label: html_decoded(t.value@),
        value: html_decoded(t.value@),
        category: spec_category_from_str(t.kind@),
        post_count: spec_count_from_label(t.label@),
    }
}

/// Each Rule34 suggestion shows and puts into the search the record's value
/// with its HTML entities decoded, and takes its count from the record's
/// label; one suggestion per record, in order.
pub proof fn lemma_rule34_suggestions(raw: Seq<RawTag>)
    ensures
        ({
            let s = raw.map_values(|t: RawTag| spec_tag(t));
            &&& s.len() == raw.len()
            &&& forall|i: int|
                0 <= i < raw.len() ==> {
                    &&& (#[trigger] s[i]).value == html_decoded(raw[i].value@)
                    &&& s[i].label == s[i].value
                    &&& s[i].post_count == spec_count_from_label(raw[i].label@)
                }
        }),
{
}

pub open spec fn spec_tag_request(query: Seq<char>) -> RequestModel {
    RequestModel { url: "https://ac.rule34.xxx/autocomplete.php"@, query: seq![("q"@, query)] }
}

pub open spec fn spec_post_request(query: PostQuery) -> RequestModel {
    RequestModel {
        url: "https://api.rule34.xxx/index.php?page=dapi&s=post&q=index&json=1"@,
        query: seq![
            ("tags"@, spec_effective_tags(query.tags@, query.rating)),
            ("pid"@, int_string(query.page as int)),
            ("limit"@, int_string(query.limit as int)),
        ],
    }
}

impl Rule34 {
    /// Autocomplete request for `query`.
    pub fn tag_request(&self, client: &BooruClient, query: &str) -> (r: Option<Request>)
        ensures
            r matches Some(q) && q@ == spec_tag_request(query@),
    {
        let url = String::from_str("https://ac.rule34.xxx/autocomplete.php");
        let pairs = vec![("q", String::from_str(query))];
        let r = request_of(url, pairs);
        assert(r@.query =~= seq![("q"@, query@)]);
        Some(r)
    }

    /// Normalize autocomplete records.
    pub fn tags_from_raw(&self, raw: Vec<RawTag>) -> (r: Vec<BooruTag>)
        ensures
            tag_views(r@) == raw@.map_values(|t: RawTag| spec_tag(t)),
    {
        let mut out: Vec<BooruTag> = Vec::new();
        let mut i: usize = 0;
        while i < raw.len()
            invariant
                i <= raw@.len(),
                tag_views(out@) == raw@.take(i as int).map_values(|t: RawTag| spec_tag(t)),
            decreases raw.len() - i,
        {
            let t = &raw[i];
            let post_count = count_from_label(t.label.as_str());
            let value = decode_html(t.value.as_str());
            let tag = BooruTag {
                label: value.clone(),
                value,
                category: category_from_str(t.kind.as_str()),
                post_count,
            };
            let ghost before = out@;
            out.push(tag);
            assert(raw@.take(i + 1) =~= raw@.take(i as int).push(raw@[i as int]));
            assert(tag_views(out@) =~= tag_views(before).push(tag@));
            i = i + 1;
        }
        assert(raw@.take(raw@.len() as int) =~= raw@);
        out
    }

    /// Post-search request; Rule 34 pages (`pid`) are 0-indexed.
    pub fn post_request(&self, client: &BooruClient, query: &PostQuery) -> (r: Request)
        ensures
            r@ == spec_post_request(*query),
    {
        let url = String::from_str("https://api.rule34.xxx/index.php?page=dapi&s=post&q=index&json=1");
        let pairs = vec![
            ("tags", query.effective_tags()),
            ("pid", u64_to_string(query.page as u64)),
            ("limit", u64_to_string(query.limit as u64)),
        ];
        let r = request_of(url, pairs);
        assert(r@.query =~= seq![
            ("tags"@, spec_effective_tags(query.tags@, query.rating)),
            ("pid"@, int_string(query.page as int)),
            ("limit"@, int_string(query.limit as int)),
        ]);
        r
    }

    /// Normalize one post record; a `.gif` sample is replaced by the preview.
    pub fn post_from_raw(&self, p: &RawPost) -> (r: BooruPost)
        ensures
            r@ == spec_post(*p),
    {
        let sample = if text_ends_with(p.sample_url.as_str(), ".gif") {
            p.preview_url.clone()
        } else {
            p.sample_url.clone()
        };
        let sample_url = if sample.as_str().is_empty() {
            None
        } else {
            Some(sample)
        };
        let id = i64_to_string(p.id);
        let post_view = String::from_str("https://rule34.xxx/index.php?page=post&s=view&id=")
            .concat(id.as_str());
        let r = BooruPost {
            id,
            post_view,
            tags: split_tags(p.tags.as_str()),
            tag_groups: Vec::new(),
            file_url: p.file_url.clone(),
            preview_url: p.preview_url.clone(),
            sample_url,
            width: p.width,
            height: p.height,
            rating: p.rating.clone(),
            created_at: timestamp_from_unix(p.change),
        };
        assert(r@.tag_groups =~= Seq::<TagGroupModel>::empty());
        r
    }

    /// Normalize a response's post records into a page.
    pub fn posts_from_raw(&self, raw: Vec<RawPost>) -> (r: PostsPage)
        ensures
            r@ == spec_page(raw@),
    {
        let has_next_page = raw.len() > 0;
        let mut posts: Vec<BooruPost> = Vec::new();
        let mut i: usize = 0;
        while i < raw.len()
            invariant
                i <= raw@.len(),
                post_views(posts@) == raw@.take(i as int).map_values(|p: RawPost| spec_post(p)),
            decreases raw.len() - i,
        {
            let post = self.post_from_raw(&raw[i]);
            let ghost before = posts@;
            posts.push(post);
            assert(raw@.take(i + 1) =~= raw@.take(i as int).push(raw@[i as int]));
            assert(post_views(posts@) =~= post_views(before).push(post@));
            i = i + 1;
        }
        assert(raw@.take(raw@.len() as int) =~= raw@);
        PostsPage { posts, has_next_page }
    }
}

} // verus!
