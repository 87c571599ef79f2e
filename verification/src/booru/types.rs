//! Normalized data types shared across all booru providers, with their
//! mathematical views.
use vstd::prelude::*;

use crate::text::{
    chars_of, lower, lower_char, same_text, string_from_chars, to_lower, to_lower_char, trim,
    trim_chars, views,
};

verus! {

broadcast use vstd::string::group_string_axioms;

// ---------------------------------------------------------------------------
// Rating
// ---------------------------------------------------------------------------

/// Content rating, consistent across the supported providers.
#[derive(Debug, Clone, Copy, PartialEq, Eq, Structural)]
pub enum Rating {
    General,
    Sensitive,
    Questionable,
    Explicit,
}

pub open spec fn spec_query_value(r: Rating) -> Seq<char> {
    match r {
        Rating::General => "General"@,
        Rating::Sensitive => "Sensitive"@,
        Rating::Questionable => "Questionable"@,
        Rating::Explicit => "Explicit"@,
    }
}

pub open spec fn spec_as_lower(r: Rating) -> Seq<char> {
    match r {
        Rating::General => "general"@,
        Rating::Sensitive => "sensitive"@,
        Rating::Questionable => "questionable"@,
        Rating::Explicit => "explicit"@,
    }
}

pub open spec fn spec_letter(r: Rating) -> char {
    match r {
        Rating::General => 'G',
        Rating::Sensitive => 'S',
        Rating::Questionable => 'Q',
        Rating::Explicit => 'E',
    }
}

pub open spec fn spec_from_alias(s: Seq<char>) -> Option<Rating> {
    if s == "g"@ {
        Some(Rating::General)
    } else if s == "s"@ {
        Some(Rating::Sensitive)
    } else if s == "q"@ {
        Some(Rating::Questionable)
    } else if s == "e"@ {
        Some(Rating::Explicit)
    } else {
        None
    }
}

/// Full word or single-letter alias, in any case and with surrounding
/// whitespace; `safe` is read as sensitive.
pub open spec fn spec_from_loose(s: Seq<char>) -> Option<Rating> {
    let t = lower(trim(s));
    if t == "general"@ || t == "g"@ {
        Some(Rating::General)
    } else if t == "sensitive"@ || t == "s"@ || t == "safe"@ {
        Some(Rating::Sensitive)
    } else if t == "questionable"@ || t == "q"@ {
        Some(Rating::Questionable)
    } else if t == "explicit"@ || t == "e"@ {
        Some(Rating::Explicit)
    } else {
        None
    }
}

proof fn lemma_trim_unpadded(s: Seq<char>)
    requires
        s.len() > 0,
        !crate::text::is_ws(s[0]),
        !crate::text::is_ws(s.last()),
    ensures
        trim(s) == s,
{
}

proof fn lemma_reads_as(s: Seq<char>, word: Seq<char>)
    requires
        s.len() > 0,
        !crate::text::is_ws(s[0]),
        !crate::text::is_ws(s.last()),
        lower(s) =~= word,
    ensures
        lower(trim(s)) == word,
{
    lemma_trim_unpadded(s);
}

/// Every rendering of a rating reads back as that rating: its lowercase
/// word, its query value and its letter, loosely; its letter in lowercase
/// as a provider's alias.
pub proof fn lemma_rating_readings(r: Rating)
    ensures
        spec_from_loose(spec_as_lower(r)) == Some(r),
        spec_from_loose(spec_query_value(r)) == Some(r),
        spec_from_loose(seq![spec_letter(r)]) == Some(r),
        spec_from_alias(lower(seq![spec_letter(r)])) == Some(r),
{
    reveal_strlit("general");
    reveal_strlit("sensitive");
    reveal_strlit("questionable");
    reveal_strlit("explicit");
    reveal_strlit("General");
    reveal_strlit("Sensitive");
    reveal_strlit("Questionable");
    reveal_strlit("Explicit");
    reveal_strlit("g");
    reveal_strlit("s");
    reveal_strlit("q");
    reveal_strlit("e");
    reveal_strlit("safe");
    let w = spec_as_lower(r);
    let q = spec_query_value(r);
    let l = seq![spec_letter(r)];
    let a = match r {
        Rating::General => "g"@,
        Rating::Sensitive => "s"@,
        Rating::Questionable => "q"@,
        Rating::Explicit => "e"@,
    };
    lemma_reads_as(w, w);
    lemma_reads_as(q, w);
    assert(lower_char(spec_letter(r)) == a[0]) by {
        assert('G' as u32 + 32 == 'g' as u32);
        assert('S' as u32 + 32 == 's' as u32);
        assert('Q' as u32 + 32 == 'q' as u32);
        assert('E' as u32 + 32 == 'e' as u32);
    }
    assert(lower(l) =~= a);
    lemma_reads_as(l, a);
}

/// A provider's single-letter alias for a rating is also read loosely as
/// that rating.
pub proof fn lemma_alias_reads_loosely(a: Seq<char>)
    ensures
        spec_from_alias(a) matches Some(r) ==> spec_from_loose(a) == Some(r),
{
    reveal_strlit("g");
    reveal_strlit("s");
    reveal_strlit("q");
    reveal_strlit("e");
    reveal_strlit("general");
    reveal_strlit("sensitive");
    reveal_strlit("questionable");
    reveal_strlit("explicit");
    reveal_strlit("safe");
    if spec_from_alias(a) is Some {
        assert(a.len() == 1);
        assert(lower(a) =~= a) by {
            assert(lower_char(a[0]) == a[0]);
        }
        lemma_reads_as(a, a);
    }
}

/// A rating's names agree: its lowercase word is its query value in
/// lowercase, its letter is the query value's first character, and different
/// ratings have different words.
pub proof fn lemma_rating_names(r: Rating, other: Rating)
    ensures
        spec_as_lower(r) == lower(spec_query_value(r)),
        spec_query_value(r).len() > 0 && spec_query_value(r)[0] == spec_letter(r),
        r != other ==> spec_as_lower(r) != spec_as_lower(other),
{
    reveal_strlit("general");
    reveal_strlit("sensitive");
    reveal_strlit("questionable");
    reveal_strlit("explicit");
    reveal_strlit("General");
    reveal_strlit("Sensitive");
    reveal_strlit("Questionable");
    reveal_strlit("Explicit");
    let q = spec_query_value(r);
    let w = spec_as_lower(r);
    assert(lower(q) =~= w);
    if r != other {
        assert(w[0] != spec_as_lower(other)[0]);
    }
}

/// Every rating, in display order.
pub open spec fn all_ratings() -> Seq<Rating> {
    seq![Rating::General, Rating::Sensitive, Rating::Questionable, Rating::Explicit]
}

impl Rating {
    /// Every rating, in display order — mirrors each provider's `ratings` list.
    pub const ALL: [Rating; 4] = [
        Rating::General,
        Rating::Sensitive,
        Rating::Questionable,
        Rating::Explicit,
    ];

    /// The value used in a `rating:<x>` search term (capitalized).
    pub fn query_value(self) -> (s: &'static str)
        ensures
            s@ == spec_query_value(self),
    {
        match self {
            Rating::General => "General",
            Rating::Sensitive => "Sensitive",
            Rating::Questionable => "Questionable",
            Rating::Explicit => "Explicit",
        }
    }

    /// Lowercase form, matching the normalized `BooruPost::rating` string.
    pub fn as_lower(self) -> (s: &'static str)
        ensures
            s@ == spec_as_lower(self),
    {
        match self {
            Rating::General => "general",
            Rating::Sensitive => "sensitive",
            Rating::Questionable => "questionable",
            Rating::Explicit => "explicit",
        }
    }

    /// Single-letter label shown in the rating selector (G/S/Q/E).
    pub fn letter(self) -> (c: char)
        ensures
            c == spec_letter(self),
    {
        match self {
            Rating::General => 'G',
            Rating::Sensitive => 'S',
            Rating::Questionable => 'Q',
            Rating::Explicit => 'E',
        }
    }

    /// Map a provider's single-char alias (`g`/`s`/`q`/`e`) to a rating.
    pub fn from_alias(alias: &str) -> (r: Option<Rating>)
        ensures
            r == spec_from_alias(alias@),
    {
        if same_text(alias, "g") {
            Some(Rating::General)
        } else if same_text(alias, "s") {
            Some(Rating::Sensitive)
        } else if same_text(alias, "q") {
            Some(Rating::Questionable)
        } else if same_text(alias, "e") {
            Some(Rating::Explicit)
        } else {
            None
        }
    }

    /// Best-effort parse of any rating string a provider might return
    /// (full word or single-char alias, any case).
    pub fn from_loose(s: &str) -> (r: Option<Rating>)
        ensures
            r == spec_from_loose(s@),
    {
        let trimmed = trim_chars(&chars_of(s));
        let t0 = string_from_chars(&trimmed);
        let t = to_lower(t0.as_str());
        let t = t.as_str();
        if same_text(t, "general") || same_text(t, "g") {
            Some(Rating::General)
        } else if same_text(t, "sensitive") || same_text(t, "s") || same_text(t, "safe") {
            Some(Rating::Sensitive)
        } else if same_text(t, "questionable") || same_text(t, "q") {
            Some(Rating::Questionable)
        } else if same_text(t, "explicit") || same_text(t, "e") {
            Some(Rating::Explicit)
        } else {
            None
        }
    }
}

// ---------------------------------------------------------------------------
// Tag categories
// ---------------------------------------------------------------------------

/// Tag category, used both for autocomplete coloring and for grouping a post's
/// tags in the detail view.
#[derive(Debug, Clone, Copy, PartialEq, Eq, Structural)]
pub enum TagCategory {
    /// "general" tags — labeled simply "Tag" in the UI.
    General,
    Artist,
    Copyright,
    Character,
    Species,
    Metadata,
    Lore,
    Invalid,
    Unknown,
}

/// The fixed palette used for tag categories.
#[derive(Debug, Clone, Copy, PartialEq, Eq, Structural)]
pub enum TagColor {
    Blue,
    Orange,
    Purple,
    Green,
    Yellow,
    Gray,
}

pub open spec fn spec_from_numeric(category: int) -> TagCategory {
    if category == 0 {
        TagCategory::General
    } else if category == 1 {
        TagCategory::Artist
    } else if category == 3 {
        TagCategory::Copyright
    } else if category == 4 {
        TagCategory::Character
    } else if category == 5 {
        TagCategory::Metadata
    } else {
        TagCategory::Unknown
    }
}

pub open spec fn spec_label(c: TagCategory) -> Seq<char> {
    match c {
        TagCategory::General => "Tag"@,
        TagCategory::Artist => "Artist"@,
        TagCategory::Copyright => "Copyright"@,
        TagCategory::Character => "Character"@,
        TagCategory::Species => "Species"@,
        TagCategory::Metadata => "Metadata"@,
        TagCategory::Lore => "Lore"@,
        TagCategory::Invalid => "Invalid"@,
        TagCategory::Unknown => "Unknown"@,
    }
}

pub open spec fn spec_color(c: TagCategory) -> TagColor {
    match c {
        TagCategory::General => TagColor::Blue,
        TagCategory::Artist => TagColor::Orange,
        TagCategory::Copyright => TagColor::Purple,
        TagCategory::Character => TagColor::Green,
        TagCategory::Metadata => TagColor::Yellow,
        _ => TagColor::Gray,
    }
}

impl TagCategory {
    /// Map the numeric `category` field Danbooru/e621 use in tag responses.
    pub fn from_numeric(category: i64) -> (r: TagCategory)
        ensures
            r == spec_from_numeric(category as int),
    {
        match category {
            0 => TagCategory::General,
            1 => TagCategory::Artist,
            3 => TagCategory::Copyright,
            4 => TagCategory::Character,
            5 => TagCategory::Metadata,
            _ => TagCategory::Unknown,
        }
    }

    /// Display label for a tag group heading (the general group is "Tag").
    pub fn label(self) -> (s: &'static str)
        ensures
            s@ == spec_label(self),
    {
        match self {
            TagCategory::General => "Tag",
            TagCategory::Artist => "Artist",
            TagCategory::Copyright => "Copyright",
            TagCategory::Character => "Character",
            TagCategory::Species => "Species",
            TagCategory::Metadata => "Metadata",
            TagCategory::Lore => "Lore",
            TagCategory::Invalid => "Invalid",
            TagCategory::Unknown => "Unknown",
        }
    }

    /// Color shown for this category.
    pub fn color(self) -> (c: TagColor)
        ensures
            c == spec_color(self),
    {
        match self {
            TagCategory::General => TagColor::Blue,
            TagCategory::Artist => TagColor::Orange,
            TagCategory::Copyright => TagColor::Purple,
            TagCategory::Character => TagColor::Green,
            TagCategory::Metadata => TagColor::Yellow,
            TagCategory::Species | TagCategory::Lore | TagCategory::Invalid
            | TagCategory::Unknown => TagColor::Gray,
        }
    }
}

// ---------------------------------------------------------------------------
// Tags, posts, queries
// ---------------------------------------------------------------------------

/// A tag suggestion returned by autocomplete.
#[derive(Debug, Clone)]
pub struct BooruTag {
    /// Display text (may differ from `value`, e.g. shows an alias's target).
    pub label: String,
    /// The actual tag inserted into the search query.
    pub value: String,
    pub category: TagCategory,
    pub post_count: Option<u32>,
}

pub struct TagModel {
    pub label: Seq<char>,
    pub value: Seq<char>,
    pub category: TagCategory,
    pub post_count: Option<u32>,
}

impl View for BooruTag {
    type V = TagModel;

    open spec fn view(&self) -> TagModel {
        TagModel {
            label: self.label@,
            value: self.value@,
            category: self.category,
            post_count: self.post_count,
        }
    }
}

/// A post's tags, grouped by category for the detail view.
#[derive(Debug, Clone)]
pub struct TagGroup {
    pub category: TagCategory,
    pub tags: Vec<String>,
}

pub struct TagGroupModel {
    pub category: TagCategory,
    pub tags: Seq<Seq<char>>,
}

impl View for TagGroup {
    type V = TagGroupModel;

    open spec fn view(&self) -> TagGroupModel {
        TagGroupModel { category: self.category, tags: views(self.tags@) }
    }
}

/// A normalized post, identical in shape across every provider.
#[derive(Debug, Clone)]
pub struct BooruPost {
    pub id: String,
    /// URL of the post's page on the booru site.
    pub post_view: String,
    /// All tags flattened into one list, for search interactions.
    pub tags: Vec<String>,
    /// Tags grouped by category for display. Empty when the provider doesn't
    /// supply category info inline.
    pub tag_groups: Vec<TagGroup>,
    pub file_url: String,
    pub preview_url: String,
    pub sample_url: Option<String>,
    pub width: u32,
    pub height: u32,
    /// Lowercase rating string (e.g. "general"). Parse with [`Rating::from_loose`].
    pub rating: String,
    /// Creation time, normalized to an RFC3339 UTC string when parseable.
    pub created_at: String,
}

pub struct PostModel {
    pub id: Seq<char>,
    pub post_view: Seq<char>,
    pub tags: Seq<Seq<char>>,
    pub tag_groups: Seq<TagGroupModel>,
    pub file_url: Seq<char>,
    pub preview_url: Seq<char>,
    pub sample_url: Option<Seq<char>>,
    pub width: u32,
    pub height: u32,
    pub rating: Seq<char>,
    pub created_at: Seq<char>,
}

pub open spec fn opt_view(o: Option<String>) -> Option<Seq<char>> {
    match o {
        Some(s) => Some(s@),
        None => None,
    }
}

pub open spec fn group_views(g: Seq<TagGroup>) -> Seq<TagGroupModel> {
    g.map_values(|x: TagGroup| x@)
}

pub open spec fn post_views(p: Seq<BooruPost>) -> Seq<PostModel> {
    p.map_values(|x: BooruPost| x@)
}

pub open spec fn tag_views(t: Seq<BooruTag>) -> Seq<TagModel> {
    t.map_values(|x: BooruTag| x@)
}

impl View for BooruPost {
    type V = PostModel;

    open spec fn view(&self) -> PostModel {
        PostModel {
            id: self.id@,
            post_view: self.post_view@,
            tags: views(self.tags@),
            tag_groups: group_views(self.tag_groups@),
            file_url: self.file_url@,
            preview_url: self.preview_url@,
            sample_url: opt_view(self.sample_url),
            width: self.width,
            height: self.height,
            rating: self.rating@,
            created_at: self.created_at@,
        }
    }
}

/// Copy of an optional string.
pub(crate) fn copy_opt(o: &Option<String>) -> (r: Option<String>)
    ensures
        opt_view(r) == opt_view(*o),
{
    match o {
        Some(s) => Some(s.clone()),
        None => None,
    }
}

/// Copy of a list of tag groups.
pub(crate) fn copy_groups(v: &Vec<TagGroup>) -> (r: Vec<TagGroup>)
    ensures
        group_views(r@) == group_views(v@),
{
    let mut r: Vec<TagGroup> = Vec::new();
    let mut i: usize = 0;
    while i < v.len()
        invariant
            i <= v@.len(),
            group_views(r@) == group_views(v@.take(i as int)),
        decreases v.len() - i,
    {
        let ghost before = r@;
        let g = TagGroup { category: v[i].category, tags: crate::booru::clone_strings(&v[i].tags) };
        r.push(g);
        assert(group_views(r@) =~= group_views(before).push(v@[i as int]@));
        assert(group_views(v@.take(i + 1)) =~= group_views(v@.take(i as int)).push(v@[i as int]@));
        i = i + 1;
    }
    assert(v@.take(v@.len() as int) =~= v@);
    r
}

/// Copy of a post.
pub(crate) fn copy_post(p: &BooruPost) -> (r: BooruPost)
    ensures
        r@ == p@,
{
    BooruPost {
        id: p.id.clone(),
        post_view: p.post_view.clone(),
        tags: crate::booru::clone_strings(&p.tags),
        tag_groups: copy_groups(&p.tag_groups),
        file_url: p.file_url.clone(),
        preview_url: p.preview_url.clone(),
        sample_url: copy_opt(&p.sample_url),
        width: p.width,
        height: p.height,
        rating: p.rating.clone(),
        created_at: p.created_at.clone(),
    }
}

/// Parameters for a post search.
#[derive(Debug, Clone)]
pub struct PostQuery {
    /// Space-separated tag query.
    pub tags: String,
    pub limit: u32,
    /// Zero-indexed page (providers translate this to their own scheme).
    pub page: u32,
    pub rating: Option<Rating>,
}

/// The tag string actually searched: the query's tags, followed by a
/// `rating:<Value>` term when a rating filter is set.
pub open spec fn spec_effective_tags(tags: Seq<char>, rating: Option<Rating>) -> Seq<char> {
    match rating {
        Some(r) => if tags.len() == 0 {
            "rating:"@ + spec_query_value(r)
        } else {
            tags + " rating:"@ + spec_query_value(r)
        },
        None => tags,
    }
}

impl Default for PostQuery {
    fn default() -> (q: PostQuery)
        ensures
            q.tags@ == Seq::<char>::empty(),
            q.limit == 0,
            q.page == 0,
            q.rating is None,
    {
        PostQuery { tags: String::new(), limit: 0, page: 0, rating: None }
    }
}

impl PostQuery {
    /// Build the effective tag string, appending `rating:<x>` when a rating
    /// filter is set.
    pub fn effective_tags(&self) -> (s: String)
        ensures
            s@ == spec_effective_tags(self.tags@, self.rating),
    {
        match self.rating {
            Some(r) => {
                if self.tags.as_str().is_empty() {
                    let s = String::from_str("rating:");
                    s.concat(r.query_value())
                } else {
                    let s = self.tags.clone();
                    let s = s.concat(" rating:");
                    s.concat(r.query_value())
                }
            },
            None => self.tags.clone(),
        }
    }
}

/// A page of search results.
#[derive(Debug, Clone)]
pub struct PostsPage {
    pub posts: Vec<BooruPost>,
    pub has_next_page: bool,
}

pub struct PageModel {
    pub posts: Seq<PostModel>,
    pub has_next_page: bool,
}

impl View for PostsPage {
    type V = PageModel;

    open spec fn view(&self) -> PageModel {
        PageModel { posts: post_views(self.posts@), has_next_page: self.has_next_page }
    }
}

// ---------------------------------------------------------------------------
// URL file types
// ---------------------------------------------------------------------------

/// The prefix of `s` before the first `?` or `#`.
pub open spec fn before_query(s: Seq<char>) -> Seq<char>
    decreases s.len(),
{
    if s.len() == 0 {
        s
    } else if s[0] == '?' || s[0] == '#' {
        Seq::empty()
    } else {
        seq![s[0]] + before_query(s.drop_first())
    }
}

/// The suffix of `s` after its last `c` (all of `s` when it holds no `c`).
pub open spec fn after_last(s: Seq<char>, c: char) -> Seq<char>
    decreases s.len(),
{
    if s.len() == 0 {
        s
    } else if s.last() == c {
        Seq::empty()
    } else {
        after_last(s.drop_last(), c).push(s.last())
    }
}

/// Lowercase extension of the URL's last path segment, ignoring any query
/// string or fragment; `None` when that segment has no `.`.
pub open spec fn spec_url_extension(url: Seq<char>) -> Option<Seq<char>> {
    let name = after_last(before_query(url), '/');
    if name.contains('.') {
        Some(lower(after_last(name, '.')))
    } else {
        None
    }
}

pub open spec fn ext_is_image(e: Option<Seq<char>>) -> bool {
    e == Some("jpg"@) || e == Some("jpeg"@) || e == Some("png"@) || e == Some("gif"@) || e == Some(
        "webp"@,
    )
}

pub open spec fn ext_is_video(e: Option<Seq<char>>) -> bool {
    e == Some("webm"@) || e == Some("mp4"@)
}

pub open spec fn ext_is_swf(e: Option<Seq<char>>) -> bool {
    e == Some("swf"@)
}

/// A URL is of at most one media kind: image, video or Flash.
pub proof fn lemma_media_kinds_exclusive(url: Seq<char>)
    ensures
        ({
            let e = spec_url_extension(url);
            &&& !(ext_is_image(e) && ext_is_video(e))
            &&& !(ext_is_image(e) && ext_is_swf(e))
            &&& !(ext_is_video(e) && ext_is_swf(e))
        }),
{
    reveal_strlit("jpg");
    reveal_strlit("jpeg");
    reveal_strlit("png");
    reveal_strlit("gif");
    reveal_strlit("webp");
    reveal_strlit("webm");
    reveal_strlit("mp4");
    reveal_strlit("swf");
    let e = spec_url_extension(url);
    if let Some(x) = e {
        if x == "swf"@ {
            assert(x != "jpg"@ && x != "png"@ && x != "gif"@ && x != "mp4"@) by {
                assert(x[0] == 's');
            }
            assert(x != "jpeg"@ && x != "webp"@ && x != "webm"@);
        }
        if x == "webm"@ || x == "mp4"@ {
            assert(x[0] != 'j' && x[0] != 'p' && x[0] != 'g');
            assert(x != "webp"@) by {
                if x.len() == 4 {
                    assert(x[3] == 'm');
                }
            }
        }
    }
}

proof fn lemma_before_query_step(s: Seq<char>, i: int)
    requires
        0 <= i < s.len(),
        forall|j: int| 0 <= j < i ==> s[j] != '?' && s[j] != '#',
    ensures
        s[i] == '?' || s[i] == '#' ==> before_query(s) == s.take(i),
        s[i] != '?' && s[i] != '#' ==> (forall|j: int|
            0 <= j < i + 1 ==> s[j] != '?' && s[j] != '#'),
    decreases i,
{
    if i > 0 {
        assert forall|j: int| 0 <= j < i - 1 implies s.drop_first()[j] != '?' && s.drop_first()[j]
            != '#' by {
            assert(s.drop_first()[j] == s[j + 1]);
        }
        lemma_before_query_step(s.drop_first(), i - 1);
        assert(s.take(i) =~= seq![s[0]] + s.drop_first().take(i - 1));
    }
}

proof fn lemma_before_query_none(s: Seq<char>)
    requires
        forall|j: int| 0 <= j < s.len() ==> s[j] != '?' && s[j] != '#',
    ensures
        before_query(s) == s,
    decreases s.len(),
{
    if s.len() > 0 {
        assert forall|j: int| 0 <= j < s.drop_first().len() implies s.drop_first()[j] != '?'
            && s.drop_first()[j] != '#' by {
            assert(s.drop_first()[j] == s[j + 1]);
        }
        lemma_before_query_none(s.drop_first());
        assert(s =~= seq![s[0]] + s.drop_first());
    }
}

pub proof fn lemma_after_last_split(s: Seq<char>, c: char, k: int)
    requires
        0 <= k <= s.len(),
        forall|j: int| k <= j < s.len() ==> s[j] != c,
        k == 0 || s[k - 1] == c,
    ensures
        after_last(s, c) == s.subrange(k, s.len() as int),
        k > 0 ==> s.contains(c),
    decreases s.len() - k,
{
    if k < s.len() {
        assert(s.drop_last().subrange(k, s.drop_last().len() as int).push(s.last())
            =~= s.subrange(k, s.len() as int));
        lemma_after_last_split(s.drop_last(), c, k);
    } else if k > 0 {
        assert(s[k - 1] == c);
    }
    if k > 0 {
        assert(s[k - 1] == c);
    }
}

/// Position just after the last `c` in `cs[..end]` (0 when there is none).
pub fn after_last_pos(cs: &Vec<char>, end: usize, c: char) -> (k: usize)
    requires
        end <= cs@.len(),
    ensures
        k <= end,
        forall|j: int| k <= j < end ==> cs@[j] != c,
        k == 0 || cs@[k - 1] == c,
{
    let mut k = end;
    while k > 0 && cs[k - 1] != c
        invariant
            k <= end <= cs@.len(),
            forall|j: int| k <= j < end ==> cs@[j] != c,
        decreases k,
    {
        k = k - 1;
    }
    k
}

/// Lowercase file extension of a URL, ignoring any query string.
pub fn url_extension(url: &str) -> (r: Option<String>)
    ensures
        opt_view(r) == spec_url_extension(url@),
{
    let cs = chars_of(url);
    // End of the path: the first `?` or `#`.
    let mut end: usize = 0;
    while end < cs.len() && cs[end] != '?' && cs[end] != '#'
        invariant
            cs@ == url@,
            end <= cs@.len(),
            forall|j: int| 0 <= j < end ==> cs@[j] != '?' && cs@[j] != '#',
        decreases cs.len() - end,
    {
        end = end + 1;
    }
    let ghost path = cs@.take(end as int);
    proof {
        if end < cs@.len() {
            lemma_before_query_step(cs@, end as int);
        } else {
            lemma_before_query_none(cs@);
            assert(cs@.take(end as int) =~= cs@);
        }
    }
    assert(before_query(url@) == path);
    let name_start = after_last_pos(&cs, end, '/');
    proof {
        lemma_after_last_split(path, '/', name_start as int);
    }
    let ghost name = path.subrange(name_start as int, end as int);
    assert(after_last(before_query(url@), '/') == name);
    let dot = after_last_pos(&cs, end, '.');
    if dot <= name_start {
        proof {
            assert forall|j: int| 0 <= j < name.len() implies name[j] != '.' by {
                assert(name[j] == cs@[name_start + j]);
            }
        }
        return None;
    }
    proof {
        assert forall|j: int| (dot - name_start) <= j < name.len() implies name[j] != '.' by {
            assert(name[j] == cs@[name_start + j]);
        }
        assert(name[dot - name_start - 1] == cs@[dot - 1]);
        lemma_after_last_split(name, '.', dot - name_start);
        assert(name.subrange(dot - name_start, name.len() as int) =~= cs@.subrange(
            dot as int,
            end as int,
        ));
    }
    let mut ext = String::new();
    let mut i = dot;
    while i < end
        invariant
            dot <= i <= end <= cs@.len(),
            ext@ == lower(cs@.subrange(dot as int, i as int)),
        decreases end - i,
    {
        let c = to_lower_char(cs[i]);
        ext.push(c);
        assert(lower(cs@.subrange(dot as int, i + 1)) =~= lower(
            cs@.subrange(dot as int, i as int),
        ).push(c));
        i = i + 1;
    }
    Some(ext)
}

fn ext_matches(e: &Option<String>, lit: &str) -> (r: bool)
    ensures
        r == (opt_view(*e) == Some(lit@)),
{
    match e {
        Some(s) => same_text(s.as_str(), lit),
        None => false,
    }
}

/// Whether a URL points at a displayable still image.
pub fn is_image(url: &str) -> (r: bool)
    ensures
        r == ext_is_image(spec_url_extension(url@)),
{
    let e = url_extension(url);
    ext_matches(&e, "jpg") || ext_matches(&e, "jpeg") || ext_matches(&e, "png") || ext_matches(
        &e,
        "gif",
    ) || ext_matches(&e, "webp")
}

/// Whether a URL points at a video file (webm/mp4).
pub fn is_video(url: &str) -> (r: bool)
    ensures
        r == ext_is_video(spec_url_extension(url@)),
{
    let e = url_extension(url);
    ext_matches(&e, "webm") || ext_matches(&e, "mp4")
}

/// Whether a URL points at a Flash movie.
pub fn is_swf(url: &str) -> (r: bool)
    ensures
        r == ext_is_swf(spec_url_extension(url@)),
{
    let e = url_extension(url);
    ext_matches(&e, "swf")
}

// ---------------------------------------------------------------------------
// Timestamps
// ---------------------------------------------------------------------------

/// Names the UTC rendering, in RFC3339 with milliseconds and a `Z` suffix, of
/// `raw` read as an RFC3339 timestamp; `None` when it does not parse.
pub uninterp spec fn rfc3339_as_utc(raw: Seq<char>) -> Option<Seq<char>>;

/// Names the UTC rendering (as above) of `raw` read with the `chrono` format
/// string `fmt`; `None` when it does not parse.
pub uninterp spec fn formatted_as_utc(raw: Seq<char>, fmt: Seq<char>) -> Option<Seq<char>>;

/// Names the UTC rendering (as above) of a Unix timestamp in seconds; `None`
/// when it is outside the representable range.
pub uninterp spec fn unix_as_utc(secs: int) -> Option<Seq<char>>;

pub open spec fn ends_in_z(s: Option<Seq<char>>) -> bool {
    s matches Some(t) ==> t.len() > 0 && t.last() == 'Z'
}

/// `chrono::DateTime::parse_from_rfc3339`, converted to UTC and rendered by
/// `to_rfc3339_opts(SecondsFormat::Millis, true)`. The result depends on `raw`
/// alone; a UTC rendering with `use_z` ends in `Z` (chrono's offset writer).
#[verifier::external_body]
fn parse_rfc3339_utc(raw: &str) -> (r: Option<String>)
    ensures
        opt_view(r) == rfc3339_as_utc(raw@),
        ends_in_z(opt_view(r)),
{
    chrono::DateTime::parse_from_rfc3339(raw).ok().map(
        |dt| dt.with_timezone(&chrono::Utc).to_rfc3339_opts(chrono::SecondsFormat::Millis, true),
    )
}

/// `chrono::DateTime::parse_from_str(raw, fmt)`, converted to UTC and rendered
/// as in [`parse_rfc3339_utc`].
#[verifier::external_body]
fn parse_formatted_utc(raw: &str, fmt: &str) -> (r: Option<String>)
    ensures
        opt_view(r) == formatted_as_utc(raw@, fmt@),
        ends_in_z(opt_view(r)),
{
    chrono::DateTime::parse_from_str(raw, fmt).ok().map(
        |dt| dt.with_timezone(&chrono::Utc).to_rfc3339_opts(chrono::SecondsFormat::Millis, true),
    )
}

/// `chrono::DateTime::<Utc>::from_timestamp(secs, 0)`, rendered as in
/// [`parse_rfc3339_utc`].
#[verifier::external_body]
fn unix_utc(secs: i64) -> (r: Option<String>)
    ensures
        opt_view(r) == unix_as_utc(secs as int),
        ends_in_z(opt_view(r)),
{
    chrono::DateTime::<chrono::Utc>::from_timestamp(secs, 0).map(
        |dt| dt.to_rfc3339_opts(chrono::SecondsFormat::Millis, true),
    )
}

/// The timestamp format Gelbooru uses, e.g. `Tue May 30 12:34:56 -0500 2023`.
pub open spec fn ctime_format() -> Seq<char> {
    "%a %b %d %H:%M:%S %z %Y"@
}

/// Normalized timestamp: the RFC3339 reading if there is one, else the
/// Gelbooru ctime reading, else the raw text unchanged.
pub open spec fn spec_normalize_timestamp(raw: Seq<char>) -> Seq<char> {
    match rfc3339_as_utc(raw) {
        Some(s) => s,
        None => match formatted_as_utc(raw, ctime_format()) {
            Some(s) => s,
            None => raw,
        },
    }
}

/// Normalize a timestamp to an RFC3339 UTC string (like JS
/// `Date.toISOString()`), falling back to the raw input when it can't be parsed.
pub fn normalize_timestamp(raw: &str) -> (r: String)
    ensures
        r@ == spec_normalize_timestamp(raw@),
{
    if let Some(s) = parse_rfc3339_utc(raw) {
        return s;
    }
    if let Some(s) = parse_formatted_utc(raw, "%a %b %d %H:%M:%S %z %Y") {
        return s;
    }
    String::from_str(raw)
}

/// A Unix timestamp's UTC rendering, or the empty string when out of range.
pub open spec fn spec_timestamp_from_unix(secs: int) -> Seq<char> {
    match unix_as_utc(secs) {
        Some(s) => s,
        None => Seq::empty(),
    }
}

/// Normalize a Unix timestamp (seconds) to an RFC3339 UTC string.
pub fn timestamp_from_unix(secs: i64) -> (r: String)
    ensures
        r@ == spec_timestamp_from_unix(secs as int),
        r@.len() > 0 ==> r@.last() == 'Z',
{
    match unix_utc(secs) {
        Some(s) => s,
        None => String::new(),
    }
}

} // verus!
