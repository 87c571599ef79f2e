//! The booru API layer. Each provider turns a search into a plain [`Request`]
//! (URL and query pairs) and turns the decoded response records into
//! normalized posts and tags; the HTTP exchange itself is the caller's.
pub mod danbooru;
pub mod e621;
pub mod gelbooru;
pub mod rule34;
pub mod types;

pub use types::{
    is_image, is_swf, is_video, BooruPost, BooruTag, PostQuery, PostsPage, Rating, TagCategory,
    TagColor, TagGroup,
};

use vstd::prelude::*;
use vstd::string::StringExecFns;

use crate::text::{int_string, split_whitespace, u64_to_string, views, words};
use types::all_ratings;

verus! {

broadcast use vstd::string::group_string_axioms;

// ---------------------------------------------------------------------------
// Errors
// ---------------------------------------------------------------------------

/// Errors surfaced by the booru layer.
#[derive(Debug, Clone)]
pub enum Error {
    /// A transport failure, with the HTTP client's description of it.
    Http(String),
    /// A response body that could not be decoded.
    Parse(String),
    /// A structured API error (Danbooru returns `{error, message}`).
    Api { error: String, message: String },
    /// Gelbooru refused the request for want of credentials.
    AuthRequired,
    /// Any other unsuccessful HTTP status, as `"<code> <reason>"`.
    Status(String),
}

pub type Result<T> = std::result::Result<T, Error>;

pub open spec fn auth_required_text() -> Seq<char> {
    "Access denied. Please configure your API credentials in settings."@
}

/// The user-facing text of an error.
pub open spec fn spec_error_text(e: Error) -> Seq<char> {
    match e {
        Error::Http(s) => "network error: "@ + s@,
        Error::Parse(s) => "failed to parse response: "@ + s@,
        Error::Api { error, message } => error@ + "\n"@ + message@,
        Error::AuthRequired => auth_required_text(),
        Error::Status(s) => "Error: "@ + s@,
    }
}

impl Error {
    /// The user-facing text of this error.
    pub fn message(&self) -> (s: String)
        ensures
            s@ == spec_error_text(*self),
    {
        match self {
            Error::Http(s) => String::from_str("network error: ").concat(s.as_str()),
            Error::Parse(s) => String::from_str("failed to parse response: ").concat(s.as_str()),
            Error::Api { error, message } => error.clone().concat("\n").concat(message.as_str()),
            Error::AuthRequired => String::from_str(
                "Access denied. Please configure your API credentials in settings.",
            ),
            Error::Status(s) => String::from_str("Error: ").concat(s.as_str()),
        }
    }
}

/// Names `html_escape::decode_html_entities` of a text.
pub uninterp spec fn html_decoded(s: Seq<char>) -> Seq<char>;

/// `html_escape::decode_html_entities`: decodes named and numeric character
/// references. The result depends on `s` alone, and a text with no `&` comes
/// back unchanged (the crate returns its input when it finds no entity).
#[verifier::external_body]
pub(crate) fn decode_html(s: &str) -> (r: String)
    ensures
        r@ == html_decoded(s@),
        !s@.contains('&') ==> r@ == s@,
{
    html_escape::decode_html_entities(s).into_owned()
}

/// Copy of a list of strings.
pub(crate) fn clone_strings(v: &Vec<String>) -> (r: Vec<String>)
    ensures
        views(r@) == views(v@),
{
    let mut r: Vec<String> = Vec::new();
    let mut i: usize = 0;
    while i < v.len()
        invariant
            i <= v@.len(),
            views(r@) == views(v@.take(i as int)),
        decreases v.len() - i,
    {
        let ghost before = r@;
        r.push(v[i].clone());
        assert(views(r@) =~= views(before).push(v@[i as int]@));
        assert(views(v@.take(i + 1)) =~= views(v@.take(i as int)).push(v@[i as int]@));
        i = i + 1;
    }
    assert(v@.take(v@.len() as int) =~= v@);
    r
}

/// The words of `tags` joined by single spaces.
pub open spec fn join_spaced(tags: Seq<Seq<char>>) -> Seq<char>
    decreases tags.len(),
{
    if tags.len() == 0 {
        Seq::empty()
    } else if tags.len() == 1 {
        tags[0]
    } else {
        join_spaced(tags.drop_last()) + " "@ + tags.last()
    }
}

/// A word of a tag query: non-empty, without whitespace.
pub open spec fn is_word(w: Seq<char>) -> bool {
    w.len() > 0 && forall|j: int| 0 <= j < w.len() ==> !crate::text::is_ws(#[trigger] w[j])
}

/// Reading whitespace-free text extends the word in progress.
proof fn lemma_scan_append_word(a: Seq<char>, b: Seq<char>)
    requires
        forall|j: int| 0 <= j < b.len() ==> !crate::text::is_ws(#[trigger] b[j]),
    ensures
        crate::text::word_scan(a + b) == (crate::text::word_scan(a).0, crate::text::word_scan(a).1 + b),
    decreases b.len(),
{
    if b.len() == 0 {
        assert(a + b =~= a);
        assert(crate::text::word_scan(a).1 + b =~= crate::text::word_scan(a).1);
    } else {
        lemma_scan_append_word(a, b.drop_last());
        assert((a + b).drop_last() =~= a + b.drop_last());
        assert((a + b).last() == b.last());
        assert(crate::text::word_scan(a).1 + b.drop_last() + seq![b.last()] =~= crate::text::word_scan(a).1 + b);
    }
}

/// Scanning words joined by spaces finds every word but the last done, and
/// the last in progress.
proof fn lemma_scan_join(ws: Seq<Seq<char>>)
    requires
        ws.len() > 0,
        forall|i: int| 0 <= i < ws.len() ==> is_word(#[trigger] ws[i]),
    ensures
        crate::text::word_scan(join_spaced(ws)) == (ws.drop_last(), ws.last()),
    decreases ws.len(),
{
    if ws.len() == 1 {
        lemma_scan_append_word(Seq::empty(), ws[0]);
        assert(Seq::<char>::empty() + ws[0] =~= ws[0]);
        assert(ws.drop_last() =~= Seq::<Seq<char>>::empty());
    } else {
        let init = ws.drop_last();
        assert forall|i: int| 0 <= i < init.len() implies is_word(#[trigger] init[i]) by {
            assert(init[i] == ws[i]);
        }
        lemma_scan_join(init);
        let j = join_spaced(init);
        reveal_strlit(" ");
        let sp = j + " "@;
        assert(sp.drop_last() =~= j);
        assert(sp.last() == ' ');
        assert(is_word(init.last()));
        assert(crate::text::word_scan(sp) == (init.drop_last().push(init.last()), Seq::<char>::empty()));
        assert(init.drop_last().push(init.last()) =~= init);
        assert(is_word(ws.last()));
        lemma_scan_append_word(sp, ws.last());
        assert(Seq::<char>::empty() + ws.last() =~= ws.last());
    }
}

/// Joining words by spaces and splitting the result on whitespace gives the
/// words back.
pub proof fn lemma_words_of_join(ws: Seq<Seq<char>>)
    requires
        forall|i: int| 0 <= i < ws.len() ==> is_word(#[trigger] ws[i]),
    ensures
        words(join_spaced(ws)) == ws,
{
    if ws.len() > 0 {
        lemma_scan_join(ws);
        assert(ws.drop_last().push(ws.last()) =~= ws);
    }
}

/// Every word of a text is a word.
pub proof fn lemma_words_are_words(s: Seq<char>)
    ensures
        forall|i: int| 0 <= i < words(s).len() ==> is_word(#[trigger] words(s)[i]),
{
    crate::text::lemma_word_scan_shape(s);
    let (done, cur) = crate::text::word_scan(s);
    assert forall|i: int| 0 <= i < words(s).len() implies is_word(#[trigger] words(s)[i]) by {
        if i < done.len() {
            assert(words(s)[i] == done[i]);
            assert forall|j: int| 0 <= j < done[i].len() implies !crate::text::is_ws(#[trigger] done[i][j]) by {}
        } else {
            assert(words(s)[i] == cur);
        }
    }
}

/// `tags.join(" ")`.
pub(crate) fn join_with_spaces(tags: &Vec<String>) -> (r: String)
    ensures
        r@ == join_spaced(views(tags@)),
{
    let mut r = String::new();
    let mut i: usize = 0;
    while i < tags.len()
        invariant
            i <= tags@.len(),
            r@ == join_spaced(views(tags@.take(i as int))),
        decreases tags.len() - i,
    {
        let ghost pre = views(tags@.take(i as int));
        let ghost next = views(tags@.take(i + 1));
        assert(next.drop_last() =~= pre);
        assert(next.last() == tags@[i as int]@);
        if i > 0 {
            r = r.concat(" ");
        } else {
            assert(Seq::<char>::empty() + tags@[0]@ =~= tags@[0]@);
        }
        r = r.concat(tags[i].as_str());
        i = i + 1;
    }
    assert(tags@.take(tags@.len() as int) =~= tags@);
    r
}

/// Split a whitespace-separated tag string into a list, dropping empties.
pub fn split_tags(s: &str) -> (r: Vec<String>)
    ensures
        views(r@) == words(s@),
{
    split_whitespace(s)
}

// ---------------------------------------------------------------------------
// Requests
// ---------------------------------------------------------------------------

/// An HTTP GET request: a URL and the query pairs to append to it.
#[derive(Debug, Clone)]
pub struct Request {
    pub url: String,
    pub query: Vec<(String, String)>,
}

pub struct RequestModel {
    pub url: Seq<char>,
    pub query: Seq<(Seq<char>, Seq<char>)>,
}

pub open spec fn pair_views(q: Seq<(String, String)>) -> Seq<(Seq<char>, Seq<char>)> {
    q.map_values(|p: (String, String)| (p.0@, p.1@))
}

impl View for Request {
    type V = RequestModel;

    open spec fn view(&self) -> RequestModel {
        RequestModel { url: self.url@, query: pair_views(self.query@) }
    }
}

/// Build a request from a URL and up to four query pairs, in order.
pub(crate) fn request_of(url: String, pairs: Vec<(&str, String)>) -> (r: Request)
    ensures
        r.url@ == url@,
        r.query@.len() == pairs@.len(),
        forall|i: int|
            0 <= i < pairs@.len() ==> (#[trigger] r.query@[i]).0@ == pairs@[i].0@ && r.query@[i].1@
                == pairs@[i].1@,
{
    let mut query: Vec<(String, String)> = Vec::new();
    let mut i: usize = 0;
    while i < pairs.len()
        invariant
            i <= pairs@.len(),
            query@.len() == i,
            forall|j: int|
                0 <= j < i ==> (#[trigger] query@[j]).0@ == pairs@[j].0@ && query@[j].1@
                    == pairs@[j].1@,
        decreases pairs.len() - i,
    {
        let k = String::from_str(pairs[i].0);
        let v = pairs[i].1.clone();
        query.push((k, v));
        i = i + 1;
    }
    Request { url, query }
}

// ---------------------------------------------------------------------------
// Sites
// ---------------------------------------------------------------------------

/// A supported booru site.
#[derive(Debug, Clone, Copy, PartialEq, Eq, Hash, Structural)]
pub enum Site {
    Danbooru,
    Gelbooru,
    E621,
    Rule34,
}

pub open spec fn spec_site_label(s: Site) -> Seq<char> {
    match s {
        Site::Danbooru => "Danbooru"@,
        Site::Gelbooru => "Gelbooru"@,
        Site::E621 => "e621"@,
        Site::Rule34 => "Rule 34"@,
    }
}

pub open spec fn spec_icon_url(s: Site) -> Seq<char> {
    match s {
        Site::Danbooru => "https://danbooru.donmai.us/favicon.svg"@,
        Site::Gelbooru => "https://gelbooru.com/layout/gelbooru-logo.svg"@,
        Site::E621 => "https://e621.net/packs/static/main-logo-109ca95d0f436bd372a1.png"@,
        Site::Rule34 => "https://rule34.xxx/apple-touch-icon-precomposed.png"@,
    }
}

/// Sites offered in the UI, in order; Rule34 is left out.
pub open spec fn enabled_sites() -> Seq<Site> {
    seq![Site::Danbooru, Site::Gelbooru, Site::E621]
}

impl Site {
    /// Sites offered in the UI. Rule34 is intentionally omitted.
    pub fn enabled() -> (r: &'static [Site])
        ensures
            r@ == enabled_sites(),
    {
        let r: &'static [Site] = &[Site::Danbooru, Site::Gelbooru, Site::E621];
        assert(r@ =~= enabled_sites());
        r
    }

    /// Available content ratings — identical across providers.
    pub fn ratings(self) -> (r: &'static [Rating])
        ensures
            r@ == all_ratings(),
    {
        let r: &'static [Rating] = &Rating::ALL;
        assert(r@ =~= all_ratings());
        r
    }

    /// Human-readable site name.
    pub fn label(self) -> (s: &'static str)
        ensures
            s@ == spec_site_label(self),
    {
        match self {
            Site::Danbooru => "Danbooru",
            Site::Gelbooru => "Gelbooru",
            Site::E621 => "e621",
            Site::Rule34 => "Rule 34",
        }
    }

    /// Favicon/logo URL.
    pub fn icon_url(self) -> (s: &'static str)
        ensures
            s@ == spec_icon_url(self),
    {
        match self {
            Site::Danbooru => "https://danbooru.donmai.us/favicon.svg",
            Site::Gelbooru => "https://gelbooru.com/layout/gelbooru-logo.svg",
            Site::E621 => "https://e621.net/packs/static/main-logo-109ca95d0f436bd372a1.png",
            Site::Rule34 => "https://rule34.xxx/apple-touch-icon-precomposed.png",
        }
    }
}

pub open spec fn opt_request(r: Option<Request>) -> Option<RequestModel> {
    match r {
        Some(q) => Some(q@),
        None => None,
    }
}

/// The autocomplete request a site makes for `query` (`None`: no request,
/// the result is empty).
pub open spec fn spec_site_tag_request(site: Site, query: Seq<char>) -> Option<RequestModel> {
    match site {
        Site::Danbooru => Some(danbooru::spec_tag_request(query)),
        Site::Gelbooru => Some(gelbooru::spec_tag_request(query)),
        Site::E621 => e621::spec_tag_request(query),
        Site::Rule34 => Some(rule34::spec_tag_request(query)),
    }
}

/// The post-search request a site makes.
pub open spec fn spec_site_post_request(
    site: Site,
    creds: Seq<char>,
    query: PostQuery,
) -> RequestModel {
    match site {
        Site::Danbooru => danbooru::spec_post_request(query),
        Site::Gelbooru => gelbooru::spec_post_request(creds, query),
        Site::E621 => e621::spec_post_request(query),
        Site::Rule34 => rule34::spec_post_request(query),
    }
}

/// Every site's post search sends the query's tags first, under `tags`: as
/// typed when no rating is chosen, and otherwise followed by the rating filter
/// `rating:<Value>` (after a space, when there are tags), so that the sent
/// tags end in that filter.
pub proof fn lemma_post_request_tags(site: Site, creds: Seq<char>, query: PostQuery)
    ensures
        ({
            let r = spec_site_post_request(site, creds, query);
            let v = r.query[0].1;
            &&& r.query.len() > 0
            &&& r.query[0].0 == "tags"@
            &&& match query.rating {
                None => v == query.tags@,
                Some(x) => {
                    let filter = "rating:"@ + types::spec_query_value(x);
                    &&& query.tags@.len() == 0 ==> v == filter
                    &&& query.tags@.len() > 0 ==> v == query.tags@ + " "@ + filter
                    &&& filter.len() <= v.len()
                    &&& v.subrange(v.len() - filter.len(), v.len() as int) == filter
                },
            }
        }),
{
    reveal_strlit(" rating:");
    reveal_strlit(" ");
    reveal_strlit("rating:");
    let v = spec_site_post_request(site, creds, query).query[0].1;
    if let Some(x) = query.rating {
        let filter = "rating:"@ + types::spec_query_value(x);
        if query.tags@.len() > 0 {
            assert(query.tags@ + " rating:"@ + types::spec_query_value(x) =~= query.tags@ + " "@
                + filter);
        }
        assert(v.subrange(v.len() - filter.len(), v.len() as int) =~= filter);
    }
}

/// The follow-up request for a post's tag groups; only Gelbooru makes one,
/// the other sites supply the groups inline.
pub open spec fn spec_site_tag_groups_request(
    site: Site,
    creds: Seq<char>,
    post: types::PostModel,
) -> Option<RequestModel> {
    match site {
        Site::Gelbooru => Some(gelbooru::spec_tag_groups_request(creds, post)),
        _ => None,
    }
}

impl Site {
    /// Build the autocomplete request, or `None` to short-circuit to an empty
    /// result (e621 ignores queries shorter than 3 chars).
    pub fn tag_request(self, client: &BooruClient, query: &str) -> (r: Option<Request>)
        ensures
            opt_request(r) == spec_site_tag_request(self, query@),
    {
        match self {
            Site::Danbooru => danbooru::Danbooru.tag_request(client, query),
            Site::Gelbooru => gelbooru::Gelbooru.tag_request(client, query),
            Site::E621 => e621::E621.tag_request(client, query),
            Site::Rule34 => rule34::Rule34.tag_request(client, query),
        }
    }

    /// Build the post-search request.
    pub fn post_request(self, client: &BooruClient, query: &PostQuery) -> (r: Request)
        ensures
            r@ == spec_site_post_request(self, client.spec_credentials(), *query),
    {
        match self {
            Site::Danbooru => danbooru::Danbooru.post_request(client, query),
            Site::Gelbooru => gelbooru::Gelbooru.post_request(client, query),
            Site::E621 => e621::E621.post_request(client, query),
            Site::Rule34 => rule34::Rule34.post_request(client, query),
        }
    }

    /// Build a follow-up request for a post's category-grouped tags; `None`
    /// when the provider supplies them inline (see [`BooruPost::tag_groups`]).
    pub fn tag_groups_request(self, client: &BooruClient, post: &BooruPost) -> (r: Option<Request>)
        ensures
            opt_request(r) == spec_site_tag_groups_request(self, client.spec_credentials(), post@),
    {
        match self {
            Site::Gelbooru => gelbooru::Gelbooru.tag_groups_request(client, post),
            _ => None,
        }
    }
}

// ---------------------------------------------------------------------------
// Client configuration
// ---------------------------------------------------------------------------

/// Per-site request configuration shared by every provider.
#[derive(Debug, Clone)]
pub struct BooruClient {
    /// Gelbooru API credentials, appended verbatim to API URLs, e.g.
    /// `&api_key=...&user_id=...`.
    gelbooru_credentials: String,
}

impl BooruClient {
    pub closed spec fn spec_credentials(&self) -> Seq<char> {
        self.gelbooru_credentials@
    }

    /// A client with no Gelbooru credentials.
    pub fn new() -> (c: Self)
        ensures
            c.spec_credentials() == Seq::<char>::empty(),
    {
        BooruClient { gelbooru_credentials: String::new() }
    }

    /// The configured Gelbooru credential string.
    pub fn gelbooru_credentials(&self) -> (s: &str)
        ensures
            s@ == self.spec_credentials(),
    {
        self.gelbooru_credentials.as_str()
    }

    /// Set the Gelbooru credential string.
    pub fn set_gelbooru_credentials(&mut self, creds: String)
        ensures
            final(self).spec_credentials() == creds@,
    {
        self.gelbooru_credentials = creds;
    }

    /// Builder-style variant of [`Self::set_gelbooru_credentials`].
    pub fn with_gelbooru_credentials(self, creds: String) -> (c: Self)
        ensures
            c.spec_credentials() == creds@,
    {
        let mut c = self;
        c.gelbooru_credentials = creds;
        c
    }
}

// ---------------------------------------------------------------------------
// Response classification
// ---------------------------------------------------------------------------

/// Names `{"error": e, "message": m}` read from a JSON body: `Some((e, m))` when
/// the body is a JSON object whose `error` and `message` members are strings.
pub uninterp spec fn json_error_fields(body: Seq<char>) -> Option<(Seq<char>, Seq<char>)>;

/// Names the standard reason phrase of an HTTP status code.
pub uninterp spec fn canonical_reason(code: u16) -> Option<Seq<char>>;

/// Reads the `error` and `message` string members of a JSON object body,
/// through `serde_json::from_str::<serde_json::Value>`, `Value::get` and
/// `Value::as_str`. The result depends on `body` alone.
#[verifier::external_body]
fn api_error_fields(body: &str) -> (r: Option<(String, String)>)
    ensures
        match r {
            Some((e, m)) => json_error_fields(body@) == Some((e@, m@)),
            None => json_error_fields(body@) is None,
        },
{
    let v = serde_json::from_str::<serde_json::Value>(body).ok()?;
    let error = v.get("error").and_then(|x| x.as_str())?;
    let message = v.get("message").and_then(|x| x.as_str())?;
    Some((error.to_string(), message.to_string()))
}

/// `reqwest::StatusCode::from_u16(code)` and `canonical_reason`. The result
/// depends on `code` alone.
#[verifier::external_body]
fn status_reason(code: u16) -> (r: Option<&'static str>)
    ensures
        match r {
            Some(s) => canonical_reason(code) == Some(s@),
            None => canonical_reason(code) is None,
        },
{
    reqwest::StatusCode::from_u16(code).ok().and_then(|s| s.canonical_reason())
}

pub open spec fn is_success(code: u16) -> bool {
    200 <= code <= 299
}

/// `"<code> <reason>"`, with an empty reason when the code has none.
pub open spec fn spec_status_text(code: u16) -> Seq<char> {
    int_string(code as int) + " "@ + match canonical_reason(code) {
        Some(r) => r,
        None => Seq::empty(),
    }
}

/// The status text of a failed request (`"<code> <reason>"`).
pub fn status_text(code: u16) -> (s: String)
    ensures
        s@ == spec_status_text(code),
{
    let s = u64_to_string(code as u64).concat(" ");
    match status_reason(code) {
        Some(r) => s.concat(r),
        None => {
            assert(s@ + Seq::<char>::empty() =~= s@);
            s
        },
    }
}

/// Outcome of a post search's HTTP exchange, before the body is decoded.
#[derive(Debug, Clone)]
pub enum ResponseOutcome {
    /// The status is a success: decode the body.
    Decode,
    /// The request failed with this error.
    Failed(Error),
}

/// What a failed post search reports, given the body's JSON error fields.
pub open spec fn posts_failure_is(
    e: Error,
    site: Site,
    code: u16,
    api: Option<(Seq<char>, Seq<char>)>,
) -> bool {
    match api {
        Some((er, m)) => e matches Error::Api { error, message } && error@ == er && message@ == m,
        None => if code == 401 && site == Site::Gelbooru {
            e is AuthRequired
        } else {
            e matches Error::Status(s) && s@ == spec_status_text(code)
        },
    }
}

/// Decide the outcome of a post search from the status code and body: decode
/// on success; otherwise the body's structured API error, else `AuthRequired`
/// for a Gelbooru 401, else the status text.
pub fn posts_response(site: Site, code: u16, body: &str) -> (r: ResponseOutcome)
    ensures
        is_success(code) <==> r is Decode,
        r matches ResponseOutcome::Failed(e) ==> posts_failure_is(
            e,
            site,
            code,
            json_error_fields(body@),
        ),
{
    if 200 <= code && code <= 299 {
        return ResponseOutcome::Decode;
    }
    posts_failure(site, code, api_error_fields(body))
}

/// The failure of a post search, given the JSON error fields read from its body.
pub fn posts_failure(site: Site, code: u16, api: Option<(String, String)>) -> (r: ResponseOutcome)
    requires
        !is_success(code),
    ensures
        r matches ResponseOutcome::Failed(e) && posts_failure_is(
            e,
            site,
            code,
            match api {
                Some((a, b)) => Some((a@, b@)),
                None => None,
            },
        ),
{
    match api {
        Some((error, message)) => ResponseOutcome::Failed(Error::Api { error, message }),
        None => {
            if code == 401 && site == Site::Gelbooru {
                ResponseOutcome::Failed(Error::AuthRequired)
            } else {
                ResponseOutcome::Failed(Error::Status(status_text(code)))
            }
        },
    }
}

/// Decide the outcome of a tag autocomplete request: decode on success,
/// otherwise the status text.
pub fn tags_response(code: u16) -> (r: ResponseOutcome)
    ensures
        is_success(code) <==> r is Decode,
        r matches ResponseOutcome::Failed(e) ==> (e matches Error::Status(s) && s@
            == spec_status_text(code)),
{
    if 200 <= code && code <= 299 {
        ResponseOutcome::Decode
    } else {
        ResponseOutcome::Failed(Error::Status(status_text(code)))
    }
}

} // verus!
