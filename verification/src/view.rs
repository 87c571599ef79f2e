//! What the views show, apart from how they are drawn: humanized counts,
//! long dates, and the state of a tag button.
use vstd::prelude::*;
use vstd::string::StringExecFns;

use crate::booru::types::{group_views, opt_view, spec_label, PostModel, TagGroupModel};
use crate::app::{ActionKind, ActionStatus};
use crate::booru::{BooruPost, TagCategory};
use crate::style::Swatch;
use crate::text::{dec_string, digit_char, push_decimal, same_text, u64_to_string, views};

verus! {

broadcast use vstd::string::group_string_axioms;

// ---------------------------------------------------------------------------
// Post counts
// ---------------------------------------------------------------------------

/// `a / b` rounded to the nearest integer, ties to the even one.
pub open spec fn round_half_even(a: nat, b: nat) -> nat {
    let q = a / b;
    let r = a % b;
    if 2 * r < b {
        q
    } else if 2 * r > b {
        q + 1
    } else if q % 2 == 0 {
        q
    } else {
        q + 1
    }
}

pub open spec fn two_pow(k: nat) -> nat
    decreases k,
{
    if k == 0 {
        1
    } else {
        2 * two_pow((k - 1) as nat)
    }
}

/// The exponent of the highest power of two not above `k` (0 for 0 and 1).
pub open spec fn ilog2(k: nat) -> nat
    decreases k,
{
    if k < 2 {
        0
    } else {
        1 + ilog2(k / 2)
    }
}

/// `n / d` as an `f64` (the nearest double, ties to even), then rounded to
/// tenths (ties to even), counted in tenths. With `2^e <= n / d < 2^(e+1)`,
/// doubles there are the multiples of `2^(e-52)`: the double is `F` of them,
/// `F` being `n * 2^(52-e) / d` rounded, and its tenths are `10 F / 2^(52-e)`
/// rounded.
pub open spec fn tenths_of_quotient(n: nat, d: nat) -> nat {
    let p = two_pow((52 - ilog2(n / d)) as nat);
    round_half_even(round_half_even(n * p, d) * 10, p)
}

/// A count in tenths written with one decimal, as `{:.1}` writes it.
pub open spec fn tenths_string(t: nat) -> Seq<char> {
    dec_string(t / 10) + "."@ + seq![digit_char(t % 10)]
}

/// A post count for a suggestion: below a thousand as it is; then in
/// thousands (`k`) or millions (`m`) with one decimal, the quotient being
/// taken as an `f64` and rounded as `{:.1}` rounds it.
pub open spec fn spec_format_count(n: u32) -> Seq<char> {
    if n >= 1_000_000 {
        tenths_string(tenths_of_quotient(n as nat, 1_000_000)) + "m"@
    } else if n >= 1_000 {
        tenths_string(tenths_of_quotient(n as nat, 1_000)) + "k"@
    } else {
        dec_string(n as nat)
    }
}

fn round_half_even_u128(a: u128, b: u128) -> (r: u128)
    requires
        b > 0,
        a < 0x1_0000_0000_0000_0000_0000_0000,
    ensures
        r == round_half_even(a as nat, b as nat),
        r <= a / b + 1,
{
    let q = a / b;
    let r = a % b;
    if r < b - r {
        q
    } else if r > b - r {
        q + 1
    } else if q % 2 == 0 {
        q
    } else {
        q + 1
    }
}

fn ilog2_u32(k: u32) -> (e: u32)
    ensures
        e == ilog2(k as nat),
        e < 32,
{
    let mut e: u32 = 0;
    let mut m: u32 = k;
    assert(two_pow(0) == 1);
    assert(m as nat * two_pow(0) == k);
    while m >= 2
        invariant
            e + ilog2(m as nat) == ilog2(k as nat),
            e < 32,
            m as nat * two_pow(e as nat) <= k,
        decreases m,
    {
        proof {
            lemma_two_pow_bound(e as nat);
            assert((m / 2) as nat * two_pow((e + 1) as nat) <= m as nat * two_pow(e as nat))
                by (nonlinear_arith)
                requires
                    two_pow((e + 1) as nat) == 2 * two_pow(e as nat),
            ;
            assert(2 * two_pow(e as nat) <= m as nat * two_pow(e as nat)) by (nonlinear_arith)
                requires
                    m >= 2,
                    two_pow(e as nat) >= 1,
            ;
            if e + 1 >= 32 {
                lemma_two_pow_mono(32, (e + 1) as nat);
                lemma_two_pow_32_52();
            }
        }
        m = m / 2;
        e = e + 1;
    }
    e
}

proof fn lemma_two_pow_bound(k: nat)
    ensures
        two_pow(k) >= 1,
        two_pow(k + 1) == 2 * two_pow(k),
    decreases k,
{
    if k > 0 {
        lemma_two_pow_bound((k - 1) as nat);
    }
}

proof fn lemma_two_pow_32_52()
    ensures
        two_pow(32) == 0x1_0000_0000,
        two_pow(52) == 0x10_0000_0000_0000,
{
    reveal_with_fuel(two_pow, 53);
}

proof fn lemma_two_pow_mono(a: nat, b: nat)
    requires
        a <= b,
    ensures
        two_pow(a) <= two_pow(b),
    decreases b,
{
    lemma_two_pow_bound(b);
    if a < b {
        lemma_two_pow_mono(a, (b - 1) as nat);
    }
}

/// `n / d` taken as an `f64` and rounded to tenths, in tenths (see
/// [`tenths_of_quotient`]).
fn tenths(n: u32, d: u32) -> (t: u64)
    requires
        d >= 1_000,
        n >= d,
    ensures
        t == tenths_of_quotient(n as nat, d as nat),
{
    let e = ilog2_u32(n / d);
    let s: u32 = 52 - e;
    let mut p: u128 = 1;
    let mut j: u32 = 0;
    while j < s
        invariant
            j <= s <= 52,
            p == two_pow(j as nat),
        decreases s - j,
    {
        proof {
            lemma_two_pow_bound(j as nat);
            lemma_two_pow_mono((j + 1) as nat, 52);
            lemma_two_pow_32_52();
        }
        p = p * 2;
        j = j + 1;
    }
    proof {
        lemma_two_pow_bound(s as nat);
        lemma_two_pow_mono(s as nat, 52);
        lemma_two_pow_32_52();
        assert(n as u128 * p <= 0xffff_ffff * 0x10_0000_0000_0000) by (nonlinear_arith)
            requires
                n <= 0xffff_ffff,
                p <= 0x10_0000_0000_0000,
        ;
    }
    let np: u128 = n as u128 * p;
    let f = round_half_even_u128(np, d as u128);
    let ghost ni = n as int;
    let ghost pi = p as int;
    let ghost di = d as int;
    proof {
        assert(np as int / di <= np as int / 1000) by (nonlinear_arith)
            requires
                di >= 1000,
                np >= 0,
        ;
        assert(np as int / 1000 * 10 <= np as int) by (nonlinear_arith)
            requires
                np >= 0,
        ;
    }
    let t = round_half_even_u128(f * 10, p);
    proof {
        let fi = f as int;
        assert(fi * 10 <= ni * pi + 10);
        assert((fi * 10) / pi <= (ni * pi + 10) / pi) by (nonlinear_arith)
            requires
                fi * 10 <= ni * pi + 10,
                pi >= 1,
        ;
        assert((ni * pi + 10) / pi <= ni + 10) by (nonlinear_arith)
            requires
                pi >= 1,
                ni >= 0,
        ;
    }
    t as u64
}

/// Humanize a post count, e.g. 1234 -> "1.2k", 2_500_000 -> "2.5m".
pub fn format_count(n: u32) -> (s: String)
    ensures
        s@ == spec_format_count(n),
{
    if n >= 1_000_000 {
        let t = tenths(n, 1_000_000);
        let s = tenths_text(t);
        s.concat("m")
    } else if n >= 1_000 {
        let t = tenths(n, 1_000);
        let s = tenths_text(t);
        s.concat("k")
    } else {
        u64_to_string(n as u64)
    }
}

fn tenths_text(t: u64) -> (s: String)
    ensures
        s@ == tenths_string(t as nat),
{
    let mut s = u64_to_string(t / 10);
    s = s.concat(".");
    let ghost before = s@;
    push_decimal(&mut s, t % 10);
    assert(dec_string((t % 10) as nat) == seq![digit_char((t % 10) as nat)]);
    s
}

// ---------------------------------------------------------------------------
// Dates
// ---------------------------------------------------------------------------

/// Names the date of an RFC 3339 timestamp written as "Month day, year"
/// (e.g. "March 5, 2024"), in the timestamp's own offset; `None` when the text
/// is not an RFC 3339 timestamp.
pub uninterp spec fn rfc3339_long_date(raw: Seq<char>) -> Option<Seq<char>>;

/// `chrono::DateTime::parse_from_rfc3339`, formatted with `%B %-d, %Y`. The
/// parse keeps the timestamp's own offset and the month names are chrono's
/// fixed English ones, so the result depends on `raw` alone; the contract
/// names it and states nothing more.
#[verifier::external_body]
fn long_date(raw: &str) -> (r: Option<String>)
    ensures
        opt_view(r) == rfc3339_long_date(raw@),
{
    match chrono::DateTime::parse_from_rfc3339(raw) {
        Ok(dt) => Some(dt.format("%B %-d, %Y").to_string()),
        Err(_) => None,
    }
}

/// The date shown for a post: its long form when there is one, else the
/// timestamp as it came.
pub fn date_text(raw: &str, long: Option<String>) -> (s: String)
    ensures
        s@ == match long {
            Some(l) => l@,
            None => raw@,
        },
{
    match long {
        Some(l) => l,
        None => raw.to_string(),
    }
}

/// A post's creation time as "Month day, year", or as it came when it is not
/// an RFC 3339 timestamp.
pub fn format_date(raw: &str) -> (s: String)
    ensures
        s@ == match rfc3339_long_date(raw@) {
            Some(l) => l,
            None => raw@,
        },
{
    date_text(raw, long_date(raw))
}

// ---------------------------------------------------------------------------
// Tag buttons
// ---------------------------------------------------------------------------

/// Where a post's tag stands against the search: in the submitted search and
/// in the box (active), only in the box (added, not yet searched), only in
/// the submitted search (removed, not yet searched), or in neither.
#[derive(Debug, Clone, Copy, PartialEq, Eq, Structural)]
pub enum TagState {
    Active,
    Added,
    Removed,
    Plain,
}

pub open spec fn spec_tag_state(in_query: bool, in_temp: bool) -> TagState {
    if in_query && in_temp {
        TagState::Active
    } else if in_temp {
        TagState::Added
    } else if in_query {
        TagState::Removed
    } else {
        TagState::Plain
    }
}

fn contains_word(ws: &[String], w: &str) -> (r: bool)
    ensures
        r == views(ws@).contains(w@),
{
    let mut i: usize = 0;
    while i < ws.len()
        invariant
            i <= ws@.len(),
            forall|j: int| 0 <= j < i ==> views(ws@)[j] != w@,
        decreases ws.len() - i,
    {
        if same_text(ws[i].as_str(), w) {
            assert(views(ws@)[i as int] == w@);
            return true;
        }
        i = i + 1;
    }
    false
}

/// The state of a tag's button, given the words of the submitted search and
/// of the search box.
pub fn tag_state(tag: &str, query_words: &[String], temp_words: &[String]) -> (s: TagState)
    ensures
        s == spec_tag_state(views(query_words@).contains(tag@), views(temp_words@).contains(tag@)),
{
    let in_query = contains_word(query_words, tag);
    let in_temp = contains_word(temp_words, tag);
    if in_query && in_temp {
        TagState::Active
    } else if in_temp {
        TagState::Added
    } else if in_query {
        TagState::Removed
    } else {
        TagState::Plain
    }
}

pub open spec fn spec_tag_colors(s: TagState) -> (Swatch, Swatch) {
    match s {
        TagState::Active => (Swatch::Blue700, Swatch::Blue600),
        TagState::Added => (Swatch::Purple500, Swatch::Purple600),
        TagState::Removed => (Swatch::Red500, Swatch::Red500),
        TagState::Plain => (Swatch::Blue500, Swatch::Blue700),
    }
}

impl TagState {
    /// The button's background and its hovered background.
    pub fn colors(self) -> (c: (Swatch, Swatch))
        ensures
            c == spec_tag_colors(self),
    {
        match self {
            TagState::Active => (Swatch::Blue700, Swatch::Blue600),
            TagState::Added => (Swatch::Purple500, Swatch::Purple600),
            TagState::Removed => (Swatch::Red500, Swatch::Red500),
            TagState::Plain => (Swatch::Blue500, Swatch::Blue700),
        }
    }
}

// ---------------------------------------------------------------------------
// Tag groups of the detail view
// ---------------------------------------------------------------------------

/// Where a category's label comes in alphabetical order.
pub open spec fn label_rank(c: TagCategory) -> nat {
    match c {
        TagCategory::Artist => 0,
        TagCategory::Character => 1,
        TagCategory::Copyright => 2,
        TagCategory::Invalid => 3,
        TagCategory::Lore => 4,
        TagCategory::Metadata => 5,
        TagCategory::Species => 6,
        TagCategory::General => 7,
        TagCategory::Unknown => 8,
    }
}

fn label_rank_of(c: TagCategory) -> (r: u8)
    ensures
        r == label_rank(c),
{
    match c {
        TagCategory::Artist => 0,
        TagCategory::Character => 1,
        TagCategory::Copyright => 2,
        TagCategory::Invalid => 3,
        TagCategory::Lore => 4,
        TagCategory::Metadata => 5,
        TagCategory::Species => 6,
        TagCategory::General => 7,
        TagCategory::Unknown => 8,
    }
}

/// A group as a detail row shows it: its label and its tags.
pub open spec fn labeled(g: TagGroupModel) -> (Seq<char>, Seq<Seq<char>>) {
    (spec_label(g.category), g.tags)
}

/// The groups whose label has rank `r`, in their order, labeled.
pub open spec fn of_rank(g: Seq<TagGroupModel>, r: nat) -> Seq<(Seq<char>, Seq<Seq<char>>)>
    decreases g.len(),
{
    if g.len() == 0 {
        Seq::empty()
    } else if label_rank(g.last().category) == r {
        of_rank(g.drop_last(), r).push(labeled(g.last()))
    } else {
        of_rank(g.drop_last(), r)
    }
}

/// The groups whose label has rank below `k`, by rank, each rank in order.
pub open spec fn below_rank(g: Seq<TagGroupModel>, k: nat) -> Seq<(Seq<char>, Seq<Seq<char>>)>
    decreases k,
{
    if k == 0 {
        Seq::empty()
    } else {
        below_rank(g, (k - 1) as nat) + of_rank(g, (k - 1) as nat)
    }
}

/// The rows of a post's tags in the detail view: its groups ordered by label
/// (groups with the same label keep their order), or a single "Tag" row of
/// all its tags when it has no groups.
pub open spec fn spec_detail_groups(p: PostModel) -> Seq<(Seq<char>, Seq<Seq<char>>)> {
    if p.tag_groups.len() == 0 {
        seq![("Tag"@, p.tags)]
    } else {
        below_rank(p.tag_groups, 9)
    }
}

pub open spec fn row_views(v: Seq<(String, Vec<String>)>) -> Seq<(Seq<char>, Seq<Seq<char>>)> {
    v.map_values(|x: (String, Vec<String>)| (x.0@, views(x.1@)))
}

/// The labeled tag rows of a post's detail view (see [`spec_detail_groups`]).
pub fn detail_groups(post: &BooruPost) -> (rows: Vec<(String, Vec<String>)>)
    ensures
        row_views(rows@) == spec_detail_groups(post@),
{
    let mut rows: Vec<(String, Vec<String>)> = Vec::new();
    if post.tag_groups.len() == 0 {
        rows.push((String::from_str("Tag"), crate::booru::clone_strings(&post.tags)));
        assert(row_views(rows@) =~= seq![("Tag"@, post@.tags)]);
        return rows;
    }
    let ghost g = group_views(post.tag_groups@);
    let mut r: u8 = 0;
    while r < 9
        invariant
            g == group_views(post.tag_groups@),
            r <= 9,
            row_views(rows@) == below_rank(g, r as nat),
        decreases 9 - r,
    {
        let ghost base = below_rank(g, r as nat);
        let mut i: usize = 0;
        while i < post.tag_groups.len()
            invariant
                g == group_views(post.tag_groups@),
                i <= post.tag_groups@.len(),
                row_views(rows@) == base + of_rank(g.take(i as int), r as nat),
            decreases post.tag_groups.len() - i,
        {
            let grp = &post.tag_groups[i];
            assert(g.take(i + 1).drop_last() =~= g.take(i as int));
            assert(g.take(i + 1).last() == grp@);
            if label_rank_of(grp.category) == r {
                let ghost before = rows@;
                let row = (String::from_str(grp.category.label()), crate::booru::clone_strings(&grp.tags));
                rows.push(row);
                assert(row_views(rows@) =~= row_views(before).push(labeled(grp@)));
            }
            i = i + 1;
        }
        assert(g.take(g.len() as int) =~= g);
        r = r + 1;
    }
    rows
}

// ---------------------------------------------------------------------------
// Action buttons
// ---------------------------------------------------------------------------

/// The label of a post's action button: its name while idle, a progress
/// form while the action runs, then a brief confirmation or failure.
pub open spec fn spec_action_label(kind: ActionKind, status: Option<ActionStatus>) -> Seq<char> {
    match (kind, status) {
        (ActionKind::Download, None) => "Download"@,
        (ActionKind::Copy, None) => "Copy"@,
        (ActionKind::Download, Some(ActionStatus::InProgress)) => "Downloading\u{2026}"@,
        (ActionKind::Copy, Some(ActionStatus::InProgress)) => "Copying\u{2026}"@,
        (ActionKind::Download, Some(ActionStatus::Done)) => "Downloaded"@,
        (ActionKind::Copy, Some(ActionStatus::Done)) => "Copied"@,
        (_, Some(ActionStatus::Failed)) => "Failed"@,
    }
}

/// Label of a post's action button for the action's current status.
pub fn action_label(kind: ActionKind, status: Option<ActionStatus>) -> (s: &'static str)
    ensures
        s@ == spec_action_label(kind, status),
{
    match (kind, status) {
        (ActionKind::Download, None) => "Download",
        (ActionKind::Copy, None) => "Copy",
        (ActionKind::Download, Some(ActionStatus::InProgress)) => "Downloading\u{2026}",
        (ActionKind::Copy, Some(ActionStatus::InProgress)) => "Copying\u{2026}",
        (ActionKind::Download, Some(ActionStatus::Done)) => "Downloaded",
        (ActionKind::Copy, Some(ActionStatus::Done)) => "Copied",
        (_, Some(ActionStatus::Failed)) => "Failed",
    }
}

} // verus!
