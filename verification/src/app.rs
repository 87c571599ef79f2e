//! The application's search sessions as a state machine.
//!
//! App-wide state lives on [`Ribb`] (tabs, settings, image cache, per-post
//! action buttons) and per-tab search state on [`Tab`]. Each [`Event`] moves
//! the state and yields the [`Effect`]s the front end must carry out (HTTP
//! fetches, scrolling, focus, downloads); their results come back as events.
//! Scroll offsets are carried as the bit patterns of the front end's `f32`
//! values: the state machine stores, copies and zeroes them, nothing more.
use vstd::prelude::*;
use vstd::string::StringExecFns;

use crate::booru::types::{
    copy_post, ext_is_image, ext_is_swf, ext_is_video, group_views, opt_view, post_views,
    spec_url_extension, tag_views, PostModel, TagGroupModel, TagModel,
};
use crate::booru::{
    is_image, is_swf, is_video, is_word, join_spaced, join_with_spaces, lemma_words_are_words,
    lemma_words_of_join, BooruClient, BooruPost, BooruTag, PostQuery, PostsPage, Rating, Site,
    TagGroup,
};
use crate::cache::{
    decoded_rgba, load_image, rgba_of, spec_begin_load, spec_finish_load, CacheModel, ImageCache, ImageKind,
};
use crate::settings::Settings;
use crate::text::{
    after_last_ws, after_last_ws_pos, chars_of, is_ws, is_whitespace, spec_last_word,
    lemma_after_last_ws_suffix, same_text, split_whitespace, string_from_chars, string_from_range,
    views, words,
};

verus! {

broadcast use vstd::string::group_string_axioms;

/// Posts requested per page.
pub const PAGE_LIMIT: u32 = 100;

/// A failed post search is tried this many times in all.
pub const MAX_FETCH_ATTEMPTS: u32 = 3;

// ---------------------------------------------------------------------------
// Per-post action buttons
// ---------------------------------------------------------------------------

/// Which per-post action a button drives.
#[derive(Debug, Clone, Copy, PartialEq, Eq, Hash, Structural)]
pub enum ActionKind {
    Download,
    Copy,
}

/// Transient UI status of a per-post action button. Idle is the absence of an
/// entry; this enum is only the non-idle states.
#[derive(Debug, Clone, Copy, PartialEq, Eq, Structural)]
pub enum ActionStatus {
    InProgress,
    Done,
    Failed,
}

/// A decoded RGBA8 image ready to be placed on the clipboard.
#[derive(Clone)]
pub struct ClipboardImage {
    width: usize,
    height: usize,
    rgba: Vec<u8>,
}

impl ClipboardImage {
    pub fn new(width: usize, height: usize, rgba: Vec<u8>) -> (c: Self)
        ensures
            c.spec_width() == width,
            c.spec_height() == height,
            c.spec_rgba() == rgba@,
    {
        ClipboardImage { width, height, rgba }
    }

    pub closed spec fn spec_width(&self) -> usize {
        self.width
    }

    pub closed spec fn spec_height(&self) -> usize {
        self.height
    }

    pub closed spec fn spec_rgba(&self) -> Seq<u8> {
        self.rgba@
    }

    pub fn width(&self) -> (w: usize)
        ensures
            w == self.spec_width(),
    {
        self.width
    }

    pub fn height(&self) -> (h: usize)
        ensures
            h == self.spec_height(),
    {
        self.height
    }

    /// The pixel bytes, consuming the image.
    pub fn into_rgba(self) -> (v: Vec<u8>)
        ensures
            v@ == self.spec_rgba(),
    {
        self.rgba
    }
}

/// A rating choice in the selector, including the "All Content" (`None`) option.
#[derive(Debug, Clone, Copy, PartialEq, Eq, Structural)]
pub struct RatingChoice(pub Option<Rating>);

impl RatingChoice {
    /// Text shown for this choice.
    pub fn label(&self) -> (s: &'static str)
        ensures
            s@ == match self.0 {
                Some(r) => crate::booru::types::spec_query_value(r),
                None => "All Content"@,
            },
    {
        match self.0 {
            Some(r) => r.query_value(),
            None => "All Content",
        }
    }
}

// ---------------------------------------------------------------------------
// Tabs
// ---------------------------------------------------------------------------

/// One search session.
#[derive(Debug)]
pub struct Tab {
    pub id: u64,
    pub title: String,
    pub site: Site,
    pub rating: Option<Rating>,
    /// The text in the search box.
    pub temp_query: String,
    /// The submitted search; `None` until the first search is submitted.
    pub query: Option<String>,
    pub page: u32,
    pub posts: Vec<BooruPost>,
    pub has_next_page: bool,
    /// Post currently replacing the grid in focus mode.
    pub focused: Option<String>,
    pub loading: bool,
    pub error: Option<String>,
    /// Live tag suggestions for the last word being typed.
    pub autocomplete: Vec<BooruTag>,
    /// Keyboard-highlighted suggestion; `None` = no highlight.
    pub autocomplete_index: Option<usize>,
    /// Bumped on every fresh fetch so stale responses can be discarded.
    pub generation: u64,
    /// Posts with a loaded Flash player.
    pub swf: Vec<String>,
    /// Posts with a loaded video player.
    pub video: Vec<String>,
    /// Last observed vertical scroll offset (bits of an `f32`).
    pub scroll_y: u32,
    /// Grid scroll offset saved when entering a post's focus view.
    pub grid_scroll_y: u32,
}

#[verifier::ext_equal]
pub struct TabModel {
    pub id: u64,
    pub title: Seq<char>,
    pub site: Site,
    pub rating: Option<Rating>,
    pub temp_query: Seq<char>,
    pub query: Option<Seq<char>>,
    pub page: u32,
    pub posts: Seq<PostModel>,
    pub has_next_page: bool,
    pub focused: Option<Seq<char>>,
    pub loading: bool,
    pub error: Option<Seq<char>>,
    pub autocomplete: Seq<TagModel>,
    pub autocomplete_index: Option<usize>,
    pub generation: u64,
    pub swf: Seq<Seq<char>>,
    pub video: Seq<Seq<char>>,
    pub scroll_y: u32,
    pub grid_scroll_y: u32,
}

impl View for Tab {
    type V = TabModel;

    open spec fn view(&self) -> TabModel {
        TabModel {
            id: self.id,
            title: self.title@,
            site: self.site,
            rating: self.rating,
            temp_query: self.temp_query@,
            query: opt_view(self.query),
            page: self.page,
            posts: post_views(self.posts@),
            has_next_page: self.has_next_page,
            focused: opt_view(self.focused),
            loading: self.loading,
            error: opt_view(self.error),
            autocomplete: tag_views(self.autocomplete@),
            autocomplete_index: self.autocomplete_index,
            generation: self.generation,
            swf: views(self.swf@),
            video: views(self.video@),
            scroll_y: self.scroll_y,
            grid_scroll_y: self.grid_scroll_y,
        }
    }
}

/// A tab's title: its query, or "New Tab" when there is none.
pub open spec fn title_of(q: Seq<char>) -> Seq<char> {
    if q.len() == 0 {
        "New Tab"@
    } else {
        q
    }
}

/// A fresh tab: Danbooru, filtered to General, with the given search (if any)
/// submitted and in the search box.
pub open spec fn new_tab_model(id: u64, query: Option<Seq<char>>) -> TabModel {
    TabModel {
        id,
        title: match query {
            Some(q) => title_of(q),
            None => "New Tab"@,
        },
        site: Site::Danbooru,
        rating: Some(Rating::General),
        temp_query: match query {
            Some(q) => q,
            None => Seq::empty(),
        },
        query,
        page: 0,
        posts: Seq::empty(),
        has_next_page: false,
        focused: None,
        loading: false,
        error: None,
        autocomplete: Seq::empty(),
        autocomplete_index: None,
        generation: 0,
        swf: Seq::empty(),
        video: Seq::empty(),
        scroll_y: 0,
        grid_scroll_y: 0,
    }
}

fn title_for(q: &String) -> (t: String)
    ensures
        t@ == title_of(q@),
{
    if q.as_str().is_empty() {
        String::from_str("New Tab")
    } else {
        q.clone()
    }
}

impl Tab {
    /// A fresh tab (see [`new_tab_model`]).
    pub fn new(id: u64, query: Option<String>) -> (t: Tab)
        ensures
            t@ == new_tab_model(id, opt_view(query)),
    {
        let title = match &query {
            Some(q) => title_for(q),
            None => String::from_str("New Tab"),
        };
        let temp_query = match &query {
            Some(q) => q.clone(),
            None => String::new(),
        };
        let t = Tab {
            id,
            title,
            site: Site::Danbooru,
            rating: Some(Rating::General),
            temp_query,
            query,
            page: 0,
            posts: Vec::new(),
            has_next_page: false,
            focused: None,
            loading: false,
            error: None,
            autocomplete: Vec::new(),
            autocomplete_index: None,
            generation: 0,
            swf: Vec::new(),
            video: Vec::new(),
            scroll_y: 0,
            grid_scroll_y: 0,
        };
        assert(t@ =~= new_tab_model(id, opt_view(query)));
        t
    }
}

// ---------------------------------------------------------------------------
// Effects
// ---------------------------------------------------------------------------

/// Work the front end carries out on the state machine's behalf.
#[derive(Debug)]
pub enum Effect {
    /// Search posts (after a one-second delay when `attempt > 0`); answer
    /// with [`Event::PostsLoaded`].
    FetchPosts { tab: u64, generation: u64, site: Site, query: PostQuery, attempt: u32 },
    /// Autocomplete `word`; answer with [`Event::AutocompleteLoaded`].
    FetchTags { tab: u64, site: Site, word: String },
    /// Resolve a post's tag groups; answer with [`Event::TagGroupsLoaded`].
    FetchTagGroups { tab: u64, site: Site, post: BooruPost },
    /// Fetch and decode an image (for a full image, of a post of the given
    /// size); answer with [`Event::ImageLoaded`].
    LoadImage { url: String, kind: ImageKind, width: u32, height: u32 },
    /// Fetch a Flash movie and start a player for it.
    FetchSwf { tab: u64, post_id: String, url: String },
    /// Fetch a video and start a player for it.
    FetchVideo { tab: u64, post_id: String, url: String },
    /// Drop a tab's media players: those of one post, or all of them.
    DropMedia { tab: u64, post_id: Option<String> },
    /// Scroll a tab's content to an offset.
    ScrollTo { tab: u64, y: u32 },
    /// Once the tab is shown, answer with [`Event::RestoreScroll`].
    RestoreLater { tab: u64, y: u32 },
    FocusSearch,
    MoveCursorToEnd,
    FocusSettings,
    /// Save a post's file; answer with [`Event::DownloadFinished`].
    Download { post_id: String, url: String },
    /// Put a post's image on the clipboard; answer with [`Event::CopyFinished`].
    Copy { post_id: String, url: String },
    /// After a short delay, answer with [`Event::ClearAction`].
    ClearActionLater { post_id: String, kind: ActionKind },
    OpenExternal(String),
    /// Persist the settings.
    SaveSettings(Settings),
}

#[verifier::ext_equal]
pub struct QueryModel {
    pub tags: Seq<char>,
    pub limit: u32,
    pub page: u32,
    pub rating: Option<Rating>,
}

pub enum EffectModel {
    FetchPosts { tab: u64, generation: u64, site: Site, query: QueryModel, attempt: u32 },
    FetchTags { tab: u64, site: Site, word: Seq<char> },
    FetchTagGroups { tab: u64, site: Site, post: PostModel },
    LoadImage { url: Seq<char>, kind: ImageKind, width: u32, height: u32 },
    FetchSwf { tab: u64, post_id: Seq<char>, url: Seq<char> },
    FetchVideo { tab: u64, post_id: Seq<char>, url: Seq<char> },
    DropMedia { tab: u64, post_id: Option<Seq<char>> },
    ScrollTo { tab: u64, y: u32 },
    RestoreLater { tab: u64, y: u32 },
    FocusSearch,
    MoveCursorToEnd,
    FocusSettings,
    Download { post_id: Seq<char>, url: Seq<char> },
    Copy { post_id: Seq<char>, url: Seq<char> },
    ClearActionLater { post_id: Seq<char>, kind: ActionKind },
    OpenExternal(Seq<char>),
    SaveSettings(Seq<char>),
}

pub open spec fn query_model(q: PostQuery) -> QueryModel {
    QueryModel { tags: q.tags@, limit: q.limit, page: q.page, rating: q.rating }
}

impl View for Effect {
    type V = EffectModel;

    open spec fn view(&self) -> EffectModel {
        match self {
            Effect::FetchPosts { tab, generation, site, query, attempt } => EffectModel::FetchPosts {
                tab: *tab,
                generation: *generation,
                site: *site,
                query: query_model(*query),
                attempt: *attempt,
            },
            Effect::FetchTags { tab, site, word } => EffectModel::FetchTags {
                tab: *tab,
                site: *site,
                word: word@,
            },
            Effect::FetchTagGroups { tab, site, post } => EffectModel::FetchTagGroups {
                tab: *tab,
                site: *site,
                post: post@,
            },
            Effect::LoadImage { url, kind, width, height } => EffectModel::LoadImage {
                url: url@,
                kind: *kind,
                width: *width,
                height: *height,
            },
            Effect::FetchSwf { tab, post_id, url } => EffectModel::FetchSwf {
                tab: *tab,
                post_id: post_id@,
                url: url@,
            },
            Effect::FetchVideo { tab, post_id, url } => EffectModel::FetchVideo {
                tab: *tab,
                post_id: post_id@,
                url: url@,
            },
            Effect::DropMedia { tab, post_id } => EffectModel::DropMedia {
                tab: *tab,
                post_id: opt_view(*post_id),
            },
            Effect::ScrollTo { tab, y } => EffectModel::ScrollTo { tab: *tab, y: *y },
            Effect::RestoreLater { tab, y } => EffectModel::RestoreLater { tab: *tab, y: *y },
            Effect::FocusSearch => EffectModel::FocusSearch,
            Effect::MoveCursorToEnd => EffectModel::MoveCursorToEnd,
            Effect::FocusSettings => EffectModel::FocusSettings,
            Effect::Download { post_id, url } => EffectModel::Download {
                post_id: post_id@,
                url: url@,
            },
            Effect::Copy { post_id, url } => EffectModel::Copy { post_id: post_id@, url: url@ },
            Effect::ClearActionLater { post_id, kind } => EffectModel::ClearActionLater {
                post_id: post_id@,
                kind: *kind,
            },
            Effect::OpenExternal(u) => EffectModel::OpenExternal(u@),
            Effect::SaveSettings(s) => EffectModel::SaveSettings(s.gelbooru_credentials@),
        }
    }
}

pub open spec fn effect_views(e: Seq<Effect>) -> Seq<EffectModel> {
    e.map_values(|x: Effect| x@)
}

// ---------------------------------------------------------------------------
// App-wide state
// ---------------------------------------------------------------------------

/// App-wide state; `H` is the front end's handle for a decoded image.
pub struct Ribb<H> {
    client: BooruClient,
    settings: Settings,
    settings_open: bool,
    settings_draft: String,
    tabs: Vec<Tab>,
    active: usize,
    next_tab_id: u64,
    images: ImageCache<H>,
    /// Tab whose saved scroll offset is about to be restored after activation.
    pending_scroll_restore: Option<u64>,
    /// Whether Ctrl is held (Ctrl+click opens a tag in a background tab).
    ctrl: bool,
    /// Non-idle per-post action buttons, by post id and action.
    actions: Vec<(String, ActionKind, ActionStatus)>,
}

#[verifier::ext_equal]
pub struct RibbModel<H> {
    pub credentials: Seq<char>,
    pub saved_credentials: Seq<char>,
    pub settings_open: bool,
    pub settings_draft: Seq<char>,
    pub tabs: Seq<TabModel>,
    pub active: int,
    pub next_tab_id: u64,
    pub images: CacheModel<H>,
    pub pending_scroll_restore: Option<u64>,
    pub ctrl: bool,
    pub actions: Map<(Seq<char>, ActionKind), ActionStatus>,
}

pub open spec fn action_map(v: Seq<(String, ActionKind, ActionStatus)>) -> Map<
    (Seq<char>, ActionKind),
    ActionStatus,
>
    decreases v.len(),
{
    if v.len() == 0 {
        Map::empty()
    } else {
        action_map(v.drop_last()).insert((v.last().0@, v.last().1), v.last().2)
    }
}

pub open spec fn distinct_actions(v: Seq<(String, ActionKind, ActionStatus)>) -> bool {
    forall|i: int, j: int|
        0 <= i < j < v.len() ==> ((#[trigger] v[i]).0@, v[i].1) != ((#[trigger] v[j]).0@, v[j].1)
}

pub open spec fn tab_views(t: Seq<Tab>) -> Seq<TabModel> {
    t.map_values(|x: Tab| x@)
}

impl<H> View for Ribb<H> {
    type V = RibbModel<H>;

    closed spec fn view(&self) -> RibbModel<H> {
        RibbModel {
            credentials: self.client.spec_credentials(),
            saved_credentials: self.settings.gelbooru_credentials@,
            settings_open: self.settings_open,
            settings_draft: self.settings_draft@,
            tabs: tab_views(self.tabs@),
            active: self.active as int,
            next_tab_id: self.next_tab_id,
            images: self.images@,
            pending_scroll_restore: self.pending_scroll_restore,
            ctrl: self.ctrl,
            actions: action_map(self.actions@),
        }
    }
}

/// The state machine's invariant on the model: there is always a tab and the
/// active index names one; tab ids are distinct and below the next id; a
/// highlighted suggestion is one of the suggestions.
pub open spec fn model_wf<H>(m: RibbModel<H>) -> bool {
    &&& m.tabs.len() > 0
    &&& 0 <= m.active < m.tabs.len()
    &&& forall|i: int, j: int|
        0 <= i < j < m.tabs.len() ==> (#[trigger] m.tabs[i]).id != (#[trigger] m.tabs[j]).id
    &&& forall|i: int| 0 <= i < m.tabs.len() ==> (#[trigger] m.tabs[i]).id < m.next_tab_id
    &&& forall|i: int|
        0 <= i < m.tabs.len() ==> ((#[trigger] m.tabs[i]).autocomplete_index matches Some(k) ==> k
            < m.tabs[i].autocomplete.len())
}

/// Index of the tab with id `id`.
pub open spec fn find_tab(tabs: Seq<TabModel>, id: u64) -> Option<int>
    decreases tabs.len(),
{
    if tabs.len() == 0 {
        None
    } else {
        match find_tab(tabs.drop_last(), id) {
            Some(i) => Some(i),
            None => if tabs.last().id == id {
                Some(tabs.len() - 1)
            } else {
                None
            },
        }
    }
}

pub proof fn lemma_find_tab(tabs: Seq<TabModel>, id: u64)
    ensures
        match find_tab(tabs, id) {
            Some(i) => 0 <= i < tabs.len() && tabs[i].id == id && forall|j: int|
                0 <= j < i ==> (#[trigger] tabs[j]).id != id,
            None => forall|j: int| 0 <= j < tabs.len() ==> (#[trigger] tabs[j]).id != id,
        },
    decreases tabs.len(),
{
    if tabs.len() > 0 {
        lemma_find_tab(tabs.drop_last(), id);
        assert forall|j: int| 0 <= j < tabs.len() - 1 implies tabs[j] == tabs.drop_last()[j] by {}
    }
}

impl<H> RibbModel<H> {
    pub open spec fn set_tab(self, i: int, t: TabModel) -> RibbModel<H> {
        RibbModel { tabs: self.tabs.update(i, t), ..self }
    }
}

/// `fetch_tab`: a tab with a submitted search starts a fresh fetch (new
/// generation, loading); a tab without one does nothing.
pub open spec fn spec_fetch_tab<H>(m: RibbModel<H>, i: int) -> (RibbModel<H>, Seq<EffectModel>) {
    let t = m.tabs[i];
    match t.query {
        None => (m, Seq::empty()),
        Some(q) => {
            let g = if t.generation < u64::MAX {
                (t.generation + 1) as u64
            } else {
                t.generation
            };
            (
                m.set_tab(i, TabModel { generation: g, loading: true, ..t }),
                seq![
                    EffectModel::FetchPosts {
                        tab: t.id,
                        generation: g,
                        site: t.site,
                        query: QueryModel { tags: q, limit: PAGE_LIMIT, page: t.page, rating: t.rating },
                        attempt: 0,
                    },
                ],
            )
        },
    }
}

/// `defer_tab_restore`: the tab's scroll offset is to be restored once it
/// is shown.
pub open spec fn spec_defer_restore<H>(m: RibbModel<H>, i: int) -> (RibbModel<H>, Seq<EffectModel>) {
    (
        RibbModel { pending_scroll_restore: Some(m.tabs[i].id), ..m },
        seq![EffectModel::RestoreLater { tab: m.tabs[i].id, y: m.tabs[i].scroll_y }],
    )
}

/// `push_tab`: add a tab (with a search, when given), fetching when it has
/// one, and make it active when asked to.
pub open spec fn spec_push_tab<H>(m: RibbModel<H>, query: Option<Seq<char>>, activate: bool) -> (
    RibbModel<H>,
    Seq<EffectModel>,
) {
    if m.next_tab_id == u64::MAX {
        (m, Seq::empty())
    } else {
        let n = m.tabs.len() as int;
        let m1 = RibbModel {
            tabs: m.tabs.push(new_tab_model(m.next_tab_id, query)),
            next_tab_id: (m.next_tab_id + 1) as u64,
            active: if activate {
                n
            } else {
                m.active
            },
            ..m
        };
        let (m2, fetch) = spec_fetch_tab(m1, n);
        if activate {
            let (m3, restore) = spec_defer_restore(m2, n);
            (m3, fetch + restore)
        } else {
            (m2, fetch)
        }
    }
}

impl<H> Ribb<H> {
    pub closed spec fn wf(&self) -> bool {
        &&& model_wf(self@)
        &&& self.images.wf()
        &&& distinct_actions(self.actions@)
        &&& self.tabs@.len() == self@.tabs.len()
    }

    /// What a well-formed session guarantees of its model, in every state
    /// that `new` and `update` reach: at least one tab, the active one among
    /// them, distinct tab ids all below the next id, each tab's highlight
    /// within its suggestions, and every tab's suggestions no more than an
    /// executable list can hold.
    pub proof fn lemma_wf_model(&self)
        requires
            self.wf(),
        ensures
            model_wf(self@),
            forall|i: int|
                0 <= i < self@.tabs.len() ==> (#[trigger] self@.tabs[i]).autocomplete.len()
                    <= usize::MAX,
    {
        assert forall|i: int| 0 <= i < self@.tabs.len() implies (
        #[trigger] self@.tabs[i]).autocomplete.len() <= usize::MAX by {
            let tab = self.tabs@[i];
            assert(self@.tabs[i] == tab@);
            assert(tab.autocomplete.len() == tab.autocomplete@.len());
        }
    }

    /// A fresh session: one empty tab, settings as given, client configured
    /// with their credentials.
    pub fn new(settings: Settings) -> (r: Self)
        ensures
            r.wf(),
            r@.tabs == seq![new_tab_model(0, None)],
            r@.active == 0,
            r@.next_tab_id == 1,
            r@.credentials == settings.gelbooru_credentials@,
            r@.saved_credentials == settings.gelbooru_credentials@,
            r@.settings_draft == settings.gelbooru_credentials@,
            !r@.settings_open,
            r@.pending_scroll_restore is None,
            !r@.ctrl,
            r@.actions == Map::<(Seq<char>, ActionKind), ActionStatus>::empty(),
            r@.images.thumbnails == Map::<Seq<char>, crate::cache::ImageState<H>>::empty(),
            r@.images.full == Map::<Seq<char>, crate::cache::ImageState<H>>::empty(),
    {
        let client = BooruClient::new().with_gelbooru_credentials(
            settings.gelbooru_credentials.clone(),
        );
        let settings_draft = settings.gelbooru_credentials.clone();
        let tabs = vec![Tab::new(0, None)];
        let r = Ribb {
            client,
            settings,
            settings_open: false,
            settings_draft,
            tabs,
            active: 0,
            next_tab_id: 1,
            images: ImageCache::new(),
            pending_scroll_restore: None,
            ctrl: false,
            actions: Vec::new(),
        };
        assert(r@.tabs =~= seq![new_tab_model(0, None)]);
        assert(r@.actions =~= Map::<(Seq<char>, ActionKind), ActionStatus>::empty());
        r
    }

    /// The request configuration.
    pub fn client(&self) -> (c: &BooruClient)
        ensures
            c.spec_credentials() == self@.credentials,
    {
        &self.client
    }

    /// The tabs, in display order.
    pub fn tabs(&self) -> (t: &Vec<Tab>)
        ensures
            tab_views(t@) == self@.tabs,
    {
        &self.tabs
    }

    /// Index of the active tab.
    pub fn active(&self) -> (a: usize)
        ensures
            a == self@.active,
    {
        self.active
    }

    /// The active tab.
    pub fn active_tab(&self) -> (t: &Tab)
        requires
            self.wf(),
        ensures
            t@ == self@.tabs[self@.active],
    {
        &self.tabs[self.active]
    }

    /// The image cache.
    pub fn images(&self) -> (c: &ImageCache<H>)
        requires
            self.wf(),
        ensures
            c.wf(),
            c@ == self@.images,
    {
        &self.images
    }

    /// The saved settings.
    pub fn settings(&self) -> (s: &Settings)
        ensures
            s.gelbooru_credentials@ == self@.saved_credentials,
    {
        &self.settings
    }

    pub fn settings_open(&self) -> (b: bool)
        ensures
            b == self@.settings_open,
    {
        self.settings_open
    }

    /// The credentials being edited in the settings dialog.
    pub fn settings_draft(&self) -> (s: &str)
        ensures
            s@ == self@.settings_draft,
    {
        self.settings_draft.as_str()
    }

    /// Index of the tab with id `id`.
    pub fn tab_index(&self, id: u64) -> (r: Option<usize>)
        requires
            self.wf(),
        ensures
            match r {
                Some(i) => find_tab(self@.tabs, id) == Some(i as int) && i < self@.tabs.len(),
                None => find_tab(self@.tabs, id) is None,
            },
    {
        proof {
            lemma_find_tab(self@.tabs, id);
        }
        let mut i: usize = 0;
        while i < self.tabs.len()
            invariant
                self.wf(),
                i <= self@.tabs.len(),
                forall|j: int| 0 <= j < i ==> (#[trigger] self@.tabs[j]).id != id,
                match find_tab(self@.tabs, id) {
                    Some(k) => 0 <= k < self@.tabs.len() && self@.tabs[k].id == id && forall|j: int|
                        0 <= j < k ==> (#[trigger] self@.tabs[j]).id != id,
                    None => forall|j: int|
                        0 <= j < self@.tabs.len() ==> (#[trigger] self@.tabs[j]).id != id,
                },
            decreases self.tabs.len() - i,
        {
            assert(self@.tabs[i as int] == self.tabs@[i as int]@);
            if self.tabs[i].id == id {
                return Some(i);
            }
            i = i + 1;
        }
        None
    }

    /// The status of a post's action button (`None`: idle).
    pub fn action(&self, post_id: &str, kind: ActionKind) -> (r: Option<ActionStatus>)
        requires
            self.wf(),
        ensures
            match r {
                Some(s) => self@.actions.contains_key((post_id@, kind)) && self@.actions[(
                    post_id@,
                    kind,
                )] == s,
                None => !self@.actions.contains_key((post_id@, kind)),
            },
    {
        match action_position(&self.actions, post_id, kind) {
            Some(i) => {
                proof {
                    lemma_action_map_index(self.actions@, i as int);
                }
                Some(self.actions[i].2)
            },
            None => {
                proof {
                    lemma_action_map_absent(self.actions@, (post_id@, kind));
                }
                None
            },
        }
    }
}

// ---------------------------------------------------------------------------
// Tab management
// ---------------------------------------------------------------------------

pub open spec fn spec_select_tab<H>(m: RibbModel<H>, idx: int) -> (RibbModel<H>, Seq<EffectModel>) {
    if idx < m.tabs.len() {
        spec_defer_restore(RibbModel { active: idx, ..m }, idx)
    } else {
        (m, Seq::empty())
    }
}

/// Where the active index goes when tab `idx` is removed from `len` tabs:
/// it keeps pointing at the same tab, or at its left neighbour when the
/// active tab itself goes (the first tab's right neighbour when it was first).
pub open spec fn active_after_close(active: int, idx: int, len: int) -> int {
    if active >= len - 1 {
        len - 2
    } else if idx < active || (idx == active && idx > 0) {
        active - 1
    } else {
        active
    }
}

/// `CloseTab`: the tab with the id (the active tab for `u64::MAX`, or for an
/// unknown id) is removed, unless it is the last one.
pub open spec fn spec_close_tab<H>(m: RibbModel<H>, id: u64) -> (RibbModel<H>, Seq<EffectModel>) {
    let idx = if id == u64::MAX {
        m.active
    } else {
        match find_tab(m.tabs, id) {
            Some(i) => i,
            None => m.active,
        }
    };
    if m.tabs.len() > 1 {
        let a = active_after_close(m.active, idx, m.tabs.len() as int);
        spec_defer_restore(RibbModel { tabs: m.tabs.remove(idx), active: a, ..m }, a)
    } else {
        (m, Seq::empty())
    }
}

pub open spec fn spec_switch_left<H>(m: RibbModel<H>) -> (RibbModel<H>, Seq<EffectModel>) {
    if m.tabs.len() > 1 {
        let a = if m.active == 0 {
            m.tabs.len() - 1
        } else {
            m.active - 1
        };
        spec_defer_restore(RibbModel { active: a, ..m }, a)
    } else {
        (m, Seq::empty())
    }
}

pub open spec fn spec_switch_right<H>(m: RibbModel<H>) -> (RibbModel<H>, Seq<EffectModel>) {
    if m.tabs.len() > 1 {
        let a = (m.active + 1) % (m.tabs.len() as int);
        spec_defer_restore(RibbModel { active: a, ..m }, a)
    } else {
        (m, Seq::empty())
    }
}

/// A scroll report is recorded on its tab, except while that tab's restore
/// is pending.
pub open spec fn spec_scroll_changed<H>(m: RibbModel<H>, tab: u64, y: u32) -> (
    RibbModel<H>,
    Seq<EffectModel>,
) {
    if m.pending_scroll_restore == Some(tab) {
        (m, Seq::empty())
    } else {
        match find_tab(m.tabs, tab) {
            Some(i) => (m.set_tab(i, TabModel { scroll_y: y, ..m.tabs[i] }), Seq::empty()),
            None => (m, Seq::empty()),
        }
    }
}

/// Restoring a tab's offset clears its pending restore, records the offset
/// and scrolls there.
pub open spec fn spec_restore_scroll<H>(m: RibbModel<H>, tab: u64, y: u32) -> (
    RibbModel<H>,
    Seq<EffectModel>,
) {
    let m1 = if m.pending_scroll_restore == Some(tab) {
        RibbModel { pending_scroll_restore: None, ..m }
    } else {
        m
    };
    match find_tab(m1.tabs, tab) {
        Some(i) => (
            m1.set_tab(i, TabModel { scroll_y: y, ..m1.tabs[i] }),
            seq![EffectModel::ScrollTo { tab: m1.tabs[i].id, y }],
        ),
        None => (m1, Seq::empty()),
    }
}

impl<H> Ribb<H> {
    /// Take tab `i` out (a blank tab stands in its place until it is put back).
    fn take_tab(&mut self, i: usize) -> (t: Tab)
        requires
            i < old(self).tabs@.len(),
        ensures
            t == old(self).tabs@[i as int],
            final(self).tabs@.len() == old(self).tabs@.len(),
            final(self).tabs@ == old(self).tabs@.update(i as int, final(self).tabs@[i as int]),
            final(self).client == old(self).client,
            final(self).settings == old(self).settings,
            final(self).settings_open == old(self).settings_open,
            final(self).settings_draft == old(self).settings_draft,
            final(self).active == old(self).active,
            final(self).next_tab_id == old(self).next_tab_id,
            final(self).images == old(self).images,
            final(self).pending_scroll_restore == old(self).pending_scroll_restore,
            final(self).ctrl == old(self).ctrl,
            final(self).actions == old(self).actions,
            final(self)@ == old(self)@.set_tab(i as int, final(self)@.tabs[i as int]),
    {
        let ghost m = self@;
        let mut t = Tab::new(0, None);
        self.tabs.set_and_swap(i, &mut t);
        assert(tab_views(self.tabs@) =~= m.tabs.update(i as int, self@.tabs[i as int]));
        assert(self@ =~= m.set_tab(i as int, self@.tabs[i as int]));
        t
    }

    /// Put tab `t` at position `i`.
    fn put_tab(&mut self, i: usize, t: Tab)
        requires
            i < old(self).tabs@.len(),
        ensures
            final(self).tabs@ == old(self).tabs@.update(i as int, t),
            final(self).client == old(self).client,
            final(self).settings == old(self).settings,
            final(self).settings_open == old(self).settings_open,
            final(self).settings_draft == old(self).settings_draft,
            final(self).active == old(self).active,
            final(self).next_tab_id == old(self).next_tab_id,
            final(self).images == old(self).images,
            final(self).pending_scroll_restore == old(self).pending_scroll_restore,
            final(self).ctrl == old(self).ctrl,
            final(self).actions == old(self).actions,
    {
        self.tabs.set(i, t);
    }

    /// Begin a fresh fetch for a tab (no-op if it has no submitted query).
    fn fetch_tab(&mut self, i: usize) -> (r: Vec<Effect>)
        requires
            old(self).wf(),
            i < old(self)@.tabs.len(),
        ensures
            final(self).wf(),
            (final(self)@, effect_views(r@)) == spec_fetch_tab(old(self)@, i as int),
    {
        if self.tabs[i].query.is_none() {
            assert(effect_views(Seq::<Effect>::empty()) =~= Seq::<EffectModel>::empty());
            return Vec::new();
        }
        let ghost m = self@;
        let mut t = self.take_tab(i);
        if t.generation < u64::MAX {
            t.generation = t.generation + 1;
        }
        t.loading = true;
        let tags = match &t.query {
            Some(q) => q.clone(),
            None => String::new(),
        };
        let e = Effect::FetchPosts {
            tab: t.id,
            generation: t.generation,
            site: t.site,
            query: PostQuery { tags, limit: PAGE_LIMIT, page: t.page, rating: t.rating },
            attempt: 0,
        };
        self.put_tab(i, t);
        let r = vec![e];
        proof {
            assert(tab_views(self.tabs@) =~= m.tabs.update(i as int, t@));
            assert(effect_views(r@) =~= spec_fetch_tab(m, i as int).1);
            assert(self@ =~= spec_fetch_tab(m, i as int).0);
        }
        r
    }

    /// Arrange for tab `i`'s saved scroll offset to be restored once shown.
    fn defer_tab_restore(&mut self, i: usize) -> (r: Vec<Effect>)
        requires
            old(self).wf(),
            i < old(self)@.tabs.len(),
        ensures
            final(self).wf(),
            (final(self)@, effect_views(r@)) == spec_defer_restore(old(self)@, i as int),
    {
        let ghost m = self@;
        let tab = self.tabs[i].id;
        let y = self.tabs[i].scroll_y;
        self.pending_scroll_restore = Some(tab);
        let r = vec![Effect::RestoreLater { tab, y }];
        assert(effect_views(r@) =~= spec_defer_restore(m, i as int).1);
        assert(self@ =~= spec_defer_restore(m, i as int).0);
        r
    }

    /// Add a tab (optionally pre-seeded with a query) and maybe activate it.
    fn push_tab(&mut self, query: Option<String>, activate: bool) -> (r: Vec<Effect>)
        requires
            old(self).wf(),
        ensures
            final(self).wf(),
            (final(self)@, effect_views(r@)) == spec_push_tab(old(self)@, opt_view(query), activate),
    {
        let ghost m = self@;
        if self.next_tab_id == u64::MAX {
            assert(effect_views(Seq::<Effect>::empty()) =~= Seq::<EffectModel>::empty());
            return Vec::new();
        }
        let id = self.next_tab_id;
        let has_query = query.is_some();
        let ghost q = opt_view(query);
        let t = Tab::new(id, query);
        self.tabs.push(t);
        self.next_tab_id = id + 1;
        let n = self.tabs.len() - 1;
        if activate {
            self.active = n;
        }
        let ghost m1 = self@;
        proof {
            assert(tab_views(self.tabs@) =~= m.tabs.push(new_tab_model(id, q)));
            let n1 = RibbModel {
                tabs: m.tabs.push(new_tab_model(m.next_tab_id, q)),
                next_tab_id: (m.next_tab_id + 1) as u64,
                active: if activate {
                    n as int
                } else {
                    m.active
                },
                ..m
            };
            assert(m1 =~= n1);
            assert forall|a: int, b: int|
                0 <= a < b < m1.tabs.len() implies (#[trigger] m1.tabs[a]).id != (
                #[trigger] m1.tabs[b]).id by {
                if b < m.tabs.len() {
                    assert(m1.tabs[a] == m.tabs[a] && m1.tabs[b] == m.tabs[b]);
                } else {
                    assert(m1.tabs[a] == m.tabs[a]);
                }
            }
            assert forall|a: int| 0 <= a < m1.tabs.len() implies (#[trigger] m1.tabs[a]).id
                < m1.next_tab_id by {
                if a < m.tabs.len() {
                    assert(m1.tabs[a] == m.tabs[a]);
                }
            }
            assert forall|a: int| 0 <= a < m1.tabs.len() implies ((
            #[trigger] m1.tabs[a]).autocomplete_index matches Some(k) ==> k
                < m1.tabs[a].autocomplete.len()) by {
                if a < m.tabs.len() {
                    assert(m1.tabs[a] == m.tabs[a]);
                }
            }
        }
        let mut r = if has_query {
            self.fetch_tab(n)
        } else {
            Vec::new()
        };
        let ghost m2 = self@;
        let ghost fetch = effect_views(r@);
        assert(fetch =~= spec_fetch_tab(m1, n as int).1);
        if activate {
            let mut d = self.defer_tab_restore(n);
            let ghost dv = effect_views(d@);
            r.append(&mut d);
            assert(effect_views(r@) =~= fetch + dv);
        }
        r
    }
}

impl<H> Ribb<H> {
    /// `SelectTab`: activate tab `idx` (when it exists).
    pub fn select_tab(&mut self, idx: usize) -> (r: Vec<Effect>)
        requires
            old(self).wf(),
        ensures
            final(self).wf(),
            (final(self)@, effect_views(r@)) == spec_select_tab(old(self)@, idx as int),
    {
        if idx < self.tabs.len() {
            self.active = idx;
            return self.defer_tab_restore(idx);
        }
        assert(effect_views(Seq::<Effect>::empty()) =~= Seq::<EffectModel>::empty());
        Vec::new()
    }

    /// `CloseTab`: close the tab with id `id` (`u64::MAX`: the active tab),
    /// unless it is the only one.
    pub fn close_tab(&mut self, id: u64) -> (r: Vec<Effect>)
        requires
            old(self).wf(),
        ensures
            final(self).wf(),
            (final(self)@, effect_views(r@)) == spec_close_tab(old(self)@, id),
    {
        let ghost m = self@;
        let idx = if id == u64::MAX {
            self.active
        } else {
            match self.tab_index(id) {
                Some(i) => i,
                None => self.active,
            }
        };
        if self.tabs.len() > 1 {
            let ghost old_tabs = self.tabs@;
            let _closed = self.tabs.remove(idx);
            assert(tab_views(self.tabs@) =~= m.tabs.remove(idx as int));
            if self.active >= self.tabs.len() {
                self.active = self.tabs.len() - 1;
            } else if idx < self.active || (idx == self.active && idx > 0) {
                self.active = self.active - 1;
            }
            proof {
                let t = m.tabs.remove(idx as int);
                assert forall|a: int, b: int| 0 <= a < b < t.len() implies (#[trigger] t[a]).id != (
                #[trigger] t[b]).id by {
                    let a2 = if a < idx {
                        a
                    } else {
                        a + 1
                    };
                    let b2 = if b < idx {
                        b
                    } else {
                        b + 1
                    };
                    assert(t[a] == m.tabs[a2] && t[b] == m.tabs[b2]);
                }
                assert forall|a: int| 0 <= a < t.len() implies (#[trigger] t[a]).id < m.next_tab_id
                    && ((t[a]).autocomplete_index matches Some(k) ==> k < t[a].autocomplete.len()) by {
                    let a2 = if a < idx {
                        a
                    } else {
                        a + 1
                    };
                    assert(t[a] == m.tabs[a2]);
                }
                assert(self@ =~= RibbModel {
                    tabs: m.tabs.remove(idx as int),
                    active: active_after_close(m.active, idx as int, m.tabs.len() as int),
                    ..m
                });
            }
            return self.defer_tab_restore(self.active);
        }
        assert(effect_views(Seq::<Effect>::empty()) =~= Seq::<EffectModel>::empty());
        Vec::new()
    }

    /// `SwitchTabLeft`: activate the previous tab, wrapping around.
    pub fn switch_tab_left(&mut self) -> (r: Vec<Effect>)
        requires
            old(self).wf(),
        ensures
            final(self).wf(),
            (final(self)@, effect_views(r@)) == spec_switch_left(old(self)@),
    {
        if self.tabs.len() > 1 {
            self.active = if self.active == 0 {
                self.tabs.len() - 1
            } else {
                self.active - 1
            };
            return self.defer_tab_restore(self.active);
        }
        assert(effect_views(Seq::<Effect>::empty()) =~= Seq::<EffectModel>::empty());
        Vec::new()
    }

    /// `SwitchTabRight`: activate the next tab, wrapping around.
    pub fn switch_tab_right(&mut self) -> (r: Vec<Effect>)
        requires
            old(self).wf(),
        ensures
            final(self).wf(),
            (final(self)@, effect_views(r@)) == spec_switch_right(old(self)@),
    {
        if self.tabs.len() > 1 {
            self.active = (self.active + 1) % self.tabs.len();
            return self.defer_tab_restore(self.active);
        }
        assert(effect_views(Seq::<Effect>::empty()) =~= Seq::<EffectModel>::empty());
        Vec::new()
    }

    /// `ScrollChanged`: record a tab's scroll offset.
    pub fn scroll_changed(&mut self, tab: u64, y: u32) -> (r: Vec<Effect>)
        requires
            old(self).wf(),
        ensures
            final(self).wf(),
            (final(self)@, effect_views(r@)) == spec_scroll_changed(old(self)@, tab, y),
    {
        assert(effect_views(Seq::<Effect>::empty()) =~= Seq::<EffectModel>::empty());
        if self.pending_scroll_restore == Some(tab) {
            return Vec::new();
        }
        let ghost m = self@;
        if let Some(i) = self.tab_index(tab) {
            let mut t = self.take_tab(i);
            t.scroll_y = y;
            self.put_tab(i, t);
            assert(tab_views(self.tabs@) =~= m.tabs.update(i as int, t@));
            assert(self@ =~= m.set_tab(i as int, TabModel { scroll_y: y, ..m.tabs[i as int] }));
        }
        Vec::new()
    }

    /// `RestoreScroll`: restore a tab's scroll offset.
    pub fn restore_scroll(&mut self, tab: u64, y: u32) -> (r: Vec<Effect>)
        requires
            old(self).wf(),
        ensures
            final(self).wf(),
            (final(self)@, effect_views(r@)) == spec_restore_scroll(old(self)@, tab, y),
    {
        if self.pending_scroll_restore == Some(tab) {
            self.pending_scroll_restore = None;
        }
        let ghost m = self@;
        match self.tab_index(tab) {
            Some(i) => {
                let mut t = self.take_tab(i);
                t.scroll_y = y;
                let id = t.id;
                self.put_tab(i, t);
                assert(tab_views(self.tabs@) =~= m.tabs.update(i as int, t@));
                assert(self@ =~= m.set_tab(i as int, TabModel { scroll_y: y, ..m.tabs[i as int] }));
                let r = vec![Effect::ScrollTo { tab: id, y }];
                assert(effect_views(r@) =~= seq![EffectModel::ScrollTo { tab: id, y }]);
                r
            },
            None => {
                assert(effect_views(Seq::<Effect>::empty()) =~= Seq::<EffectModel>::empty());
                Vec::new()
            },
        }
    }
}

// ---------------------------------------------------------------------------
// Searching
// ---------------------------------------------------------------------------

/// The word currently being typed — the text after the last whitespace. A
/// query ending in whitespace (or empty) has no active word.
pub fn last_word(query: &str) -> (r: String)
    ensures
        r@ == crate::text::spec_last_word(query@),
{
    let cs = chars_of(query);
    if cs.len() == 0 || is_whitespace(cs[cs.len() - 1]) {
        return String::new();
    }
    let k = after_last_ws_pos(&cs);
    string_from_range(&cs, k, cs.len())
}

/// `q` with its active word replaced by `value`.
pub open spec fn spec_replace_last_word(q: Seq<char>, value: Seq<char>) -> Seq<char> {
    q.take(q.len() - crate::text::spec_last_word(q).len()) + value
}

fn replace_last_word(q: &String, value: &String) -> (r: String)
    ensures
        r@ == spec_replace_last_word(q@, value@),
{
    let cs = chars_of(q.as_str());
    let k = if cs.len() == 0 || is_whitespace(cs[cs.len() - 1]) {
        cs.len()
    } else {
        after_last_ws_pos(&cs)
    };
    proof {
        lemma_after_last_ws_suffix(q@);
    }
    let prefix = string_from_range(&cs, 0, k);
    assert(prefix@ =~= q@.take(q@.len() - crate::text::spec_last_word(q@).len()));
    prefix.concat(value.as_str())
}

/// Replace tab `i` and start its fetch, scrolling it to the top first.
pub open spec fn spec_refetch<H>(m: RibbModel<H>, i: int, t: TabModel) -> (
    RibbModel<H>,
    Seq<EffectModel>,
) {
    let (m2, fetch) = spec_fetch_tab(m.set_tab(i, t), i);
    (m2, seq![EffectModel::ScrollTo { tab: t.id, y: 0 }] + fetch)
}

/// `QueryChanged`: the search box text changes; the highlight is dropped and
/// the new active word (if any) is autocompleted, else the suggestions clear.
pub open spec fn spec_query_changed<H>(m: RibbModel<H>, value: Seq<char>) -> (
    RibbModel<H>,
    Seq<EffectModel>,
) {
    let t = m.tabs[m.active];
    let w = crate::text::spec_last_word(value);
    if w.len() == 0 {
        (
            m.set_tab(
                m.active,
                TabModel {
                    temp_query: value,
                    autocomplete_index: None,
                    autocomplete: Seq::empty(),
                    ..t
                },
            ),
            Seq::empty(),
        )
    } else {
        (
            m.set_tab(m.active, TabModel { temp_query: value, autocomplete_index: None, ..t }),
            seq![EffectModel::FetchTags { tab: t.id, site: t.site, word: w }],
        )
    }
}

/// `AutocompleteLoaded`: suggestions are shown only if they still answer the
/// word being typed and that text was not already submitted verbatim.
pub open spec fn spec_autocomplete_loaded<H>(
    m: RibbModel<H>,
    tab: u64,
    query_word: Seq<char>,
    tags: Seq<TagModel>,
) -> (RibbModel<H>, Seq<EffectModel>) {
    match find_tab(m.tabs, tab) {
        Some(i) => {
            let t = m.tabs[i];
            if crate::text::spec_last_word(t.temp_query) == query_word && t.query != Some(
                t.temp_query,
            ) {
                (
                    m.set_tab(i, TabModel { autocomplete: tags, autocomplete_index: None, ..t }),
                    Seq::empty(),
                )
            } else {
                (m, Seq::empty())
            }
        },
        None => (m, Seq::empty()),
    }
}

/// `AutocompleteSelected`: the active word becomes the suggestion and the
/// result is searched; the search box keeps focus with the caret at its end.
pub open spec fn spec_autocomplete_selected<H>(m: RibbModel<H>, value: Seq<char>) -> (
    RibbModel<H>,
    Seq<EffectModel>,
) {
    let t = m.tabs[m.active];
    let c = spec_replace_last_word(t.temp_query, value);
    let (m2, e) = spec_refetch(
        m,
        m.active,
        TabModel {
            temp_query: c,
            query: Some(c),
            title: title_of(c),
            page: 0,
            scroll_y: 0,
            autocomplete: Seq::empty(),
            autocomplete_index: None,
            ..t
        },
    );
    (m2, e + seq![EffectModel::FocusSearch, EffectModel::MoveCursorToEnd])
}

/// `SubmitSearch`: search the text in the box from its first page.
pub open spec fn spec_submit_search<H>(m: RibbModel<H>) -> (RibbModel<H>, Seq<EffectModel>) {
    let t = m.tabs[m.active];
    spec_refetch(
        m,
        m.active,
        TabModel {
            query: Some(t.temp_query),
            title: title_of(t.temp_query),
            page: 0,
            scroll_y: 0,
            autocomplete: Seq::empty(),
            autocomplete_index: None,
            ..t
        },
    )
}

pub open spec fn spec_next_page<H>(m: RibbModel<H>) -> (RibbModel<H>, Seq<EffectModel>) {
    let t = m.tabs[m.active];
    if t.has_next_page && t.page < u32::MAX {
        spec_refetch(m, m.active, TabModel { page: (t.page + 1) as u32, scroll_y: 0, ..t })
    } else {
        (m, Seq::empty())
    }
}

pub open spec fn spec_prev_page<H>(m: RibbModel<H>) -> (RibbModel<H>, Seq<EffectModel>) {
    let t = m.tabs[m.active];
    if t.page > 0 {
        spec_refetch(m, m.active, TabModel { page: (t.page - 1) as u32, scroll_y: 0, ..t })
    } else {
        (m, Seq::empty())
    }
}

pub open spec fn spec_site_selected<H>(m: RibbModel<H>, site: Site) -> (
    RibbModel<H>,
    Seq<EffectModel>,
) {
    let t = m.tabs[m.active];
    spec_refetch(m, m.active, TabModel { site, page: 0, scroll_y: 0, ..t })
}

pub open spec fn spec_rating_selected<H>(m: RibbModel<H>, rating: Option<Rating>) -> (
    RibbModel<H>,
    Seq<EffectModel>,
) {
    let t = m.tabs[m.active];
    spec_refetch(m, m.active, TabModel { rating, scroll_y: 0, ..t })
}

proof fn lemma_set_tab_wf<H>(m: RibbModel<H>, i: int, t: TabModel)
    requires
        model_wf(m),
        0 <= i < m.tabs.len(),
        t.id == m.tabs[i].id,
        t.autocomplete_index matches Some(k) ==> k < t.autocomplete.len(),
    ensures
        model_wf(m.set_tab(i, t)),
{
    let n = m.set_tab(i, t);
    assert forall|a: int, b: int| 0 <= a < b < n.tabs.len() implies (#[trigger] n.tabs[a]).id != (
    #[trigger] n.tabs[b]).id by {
        assert(n.tabs[a].id == m.tabs[a].id && n.tabs[b].id == m.tabs[b].id);
    }
    assert forall|a: int| 0 <= a < n.tabs.len() implies (#[trigger] n.tabs[a]).id < n.next_tab_id
        && (n.tabs[a].autocomplete_index matches Some(k) ==> k < n.tabs[a].autocomplete.len()) by {
        if a != i {
            assert(n.tabs[a] == m.tabs[a]);
        }
    }
}

impl<H> Ribb<H> {
    /// The invariant, once tab `i` is replaced by `t`.
    closed spec fn wf_with(&self, i: int, t: TabModel) -> bool {
        &&& model_wf(self@.set_tab(i, t))
        &&& self.images.wf()
        &&& distinct_actions(self.actions@)
        &&& self.tabs@.len() == self@.tabs.len()
        &&& 0 <= i < self@.tabs.len()
    }

    proof fn lemma_wf_with(&self, m: RibbModel<H>, i: int, t: TabModel)
        requires
            model_wf(m),
            0 <= i < m.tabs.len(),
            self@ == m.set_tab(i, self@.tabs[i]),
            self.images.wf(),
            distinct_actions(self.actions@),
            self.tabs@.len() == self@.tabs.len(),
            t.id == m.tabs[i].id,
            t.autocomplete_index matches Some(k) ==> k < t.autocomplete.len(),
        ensures
            self.wf_with(i, t),
            self@.set_tab(i, t) == m.set_tab(i, t),
    {
        lemma_set_tab_wf(m, i, t);
        assert(self@.set_tab(i, t) =~= m.set_tab(i, t));
    }

    /// Replace tab `i` by `t`, scroll it to the top and start its fetch.
    fn refetch(&mut self, i: usize, t: Tab) -> (r: Vec<Effect>)
        requires
            old(self).wf_with(i as int, t@),
        ensures
            final(self).wf(),
            (final(self)@, effect_views(r@)) == spec_refetch(old(self)@, i as int, t@),
    {
        let ghost m = self@;
        let id = t.id;
        self.put_tab(i, t);
        proof {
            assert(tab_views(self.tabs@) =~= m.tabs.update(i as int, t@));
            assert(self@ =~= m.set_tab(i as int, t@));
        }
        let mut r = vec![Effect::ScrollTo { tab: id, y: 0 }];
        let mut f = self.fetch_tab(i);
        let ghost fv = effect_views(f@);
        r.append(&mut f);
        assert(effect_views(r@) =~= seq![EffectModel::ScrollTo { tab: id, y: 0 }] + fv);
        r
    }

    /// `QueryChanged`: the search box text changed.
    pub fn query_changed(&mut self, value: String) -> (r: Vec<Effect>)
        requires
            old(self).wf(),
        ensures
            final(self).wf(),
            (final(self)@, effect_views(r@)) == spec_query_changed(old(self)@, value@),
    {
        let ghost m = self@;
        let i = self.active;
        let mut t = self.take_tab(i);
        let word = last_word(value.as_str());
        t.temp_query = value;
        t.autocomplete_index = None;
        let r = if word.as_str().is_empty() {
            t.autocomplete = Vec::new();
            assert(effect_views(Seq::<Effect>::empty()) =~= Seq::<EffectModel>::empty());
            Vec::new()
        } else {
            let r = vec![Effect::FetchTags { tab: t.id, site: t.site, word }];
            assert(effect_views(r@) =~= seq![
                EffectModel::FetchTags { tab: t.id, site: t.site, word: word@ },
            ]);
            r
        };
        self.put_tab(i, t);
        proof {
            assert(tab_views(self.tabs@) =~= m.tabs.update(i as int, t@));
            assert(tag_views(Seq::<BooruTag>::empty()) =~= Seq::<TagModel>::empty());
            assert(self@ =~= spec_query_changed(m, value@).0);
            lemma_set_tab_wf(m, i as int, t@);
        }
        r
    }

    /// `AutocompleteLoaded`: suggestions for `query_word` arrived for a tab.
    pub fn autocomplete_loaded(&mut self, tab: u64, query_word: String, tags: Vec<BooruTag>) -> (r:
        Vec<Effect>)
        requires
            old(self).wf(),
        ensures
            final(self).wf(),
            (final(self)@, effect_views(r@)) == spec_autocomplete_loaded(
                old(self)@,
                tab,
                query_word@,
                tag_views(tags@),
            ),
    {
        let ghost m = self@;
        assert(effect_views(Seq::<Effect>::empty()) =~= Seq::<EffectModel>::empty());
        if let Some(i) = self.tab_index(tab) {
            let lw = last_word(self.tabs[i].temp_query.as_str());
            let submitted = match &self.tabs[i].query {
                Some(q) => same_text(q.as_str(), self.tabs[i].temp_query.as_str()),
                None => false,
            };
            assert(self@.tabs[i as int] == self.tabs@[i as int]@);
            if same_text(lw.as_str(), query_word.as_str()) && !submitted {
                let mut t = self.take_tab(i);
                t.autocomplete = tags;
                t.autocomplete_index = None;
                self.put_tab(i, t);
                proof {
                    assert(tab_views(self.tabs@) =~= m.tabs.update(i as int, t@));
                    assert(self@ =~= spec_autocomplete_loaded(m, tab, query_word@, tag_views(tags@)).0);
                    lemma_set_tab_wf(m, i as int, t@);
                }
            }
        }
        Vec::new()
    }

    /// `AutocompleteSelected`: replace the active word with a suggestion and search.
    pub fn autocomplete_selected(&mut self, value: String) -> (r: Vec<Effect>)
        requires
            old(self).wf(),
        ensures
            final(self).wf(),
            (final(self)@, effect_views(r@)) == spec_autocomplete_selected(old(self)@, value@),
    {
        let ghost m = self@;
        let i = self.active;
        let mut t = self.take_tab(i);
        let combined = replace_last_word(&t.temp_query, &value);
        t.temp_query = combined.clone();
        t.title = title_for(&combined);
        t.query = Some(combined);
        t.page = 0;
        t.scroll_y = 0;
        t.autocomplete = Vec::new();
        t.autocomplete_index = None;
        assert(tag_views(Seq::<BooruTag>::empty()) =~= Seq::<TagModel>::empty());
        proof {
            self.lemma_wf_with(m, i as int, t@);
        }
        let mut r = self.refetch(i, t);
        let ghost rv = effect_views(r@);
        r.push(Effect::FocusSearch);
        r.push(Effect::MoveCursorToEnd);
        assert(effect_views(r@) =~= rv + seq![EffectModel::FocusSearch, EffectModel::MoveCursorToEnd]);
        r
    }

    /// `SubmitSearch`: search the text in the box.
    pub fn submit_search(&mut self) -> (r: Vec<Effect>)
        requires
            old(self).wf(),
        ensures
            final(self).wf(),
            (final(self)@, effect_views(r@)) == spec_submit_search(old(self)@),
    {
        let ghost m = self@;
        let i = self.active;
        let mut t = self.take_tab(i);
        t.query = Some(t.temp_query.clone());
        t.title = title_for(&t.temp_query);
        t.page = 0;
        t.scroll_y = 0;
        t.autocomplete = Vec::new();
        t.autocomplete_index = None;
        assert(tag_views(Seq::<BooruTag>::empty()) =~= Seq::<TagModel>::empty());
        proof {
            self.lemma_wf_with(m, i as int, t@);
        }
        self.refetch(i, t)
    }

    /// `NextPage`: fetch the next page, when there is one.
    pub fn next_page(&mut self) -> (r: Vec<Effect>)
        requires
            old(self).wf(),
        ensures
            final(self).wf(),
            (final(self)@, effect_views(r@)) == spec_next_page(old(self)@),
    {
        let ghost m = self@;
        let i = self.active;
        if self.tabs[i].has_next_page && self.tabs[i].page < u32::MAX {
            let mut t = self.take_tab(i);
            t.page = t.page + 1;
            t.scroll_y = 0;
            proof {
                self.lemma_wf_with(m, i as int, t@);
            }
            return self.refetch(i, t);
        }
        assert(effect_views(Seq::<Effect>::empty()) =~= Seq::<EffectModel>::empty());
        Vec::new()
    }

    /// `PrevPage`: fetch the previous page, unless on the first.
    pub fn prev_page(&mut self) -> (r: Vec<Effect>)
        requires
            old(self).wf(),
        ensures
            final(self).wf(),
            (final(self)@, effect_views(r@)) == spec_prev_page(old(self)@),
    {
        let ghost m = self@;
        let i = self.active;
        if self.tabs[i].page > 0 {
            let mut t = self.take_tab(i);
            t.page = t.page - 1;
            t.scroll_y = 0;
            proof {
                self.lemma_wf_with(m, i as int, t@);
            }
            return self.refetch(i, t);
        }
        assert(effect_views(Seq::<Effect>::empty()) =~= Seq::<EffectModel>::empty());
        Vec::new()
    }

    /// `SiteSelected`: search another site from the first page.
    pub fn site_selected(&mut self, site: Site) -> (r: Vec<Effect>)
        requires
            old(self).wf(),
        ensures
            final(self).wf(),
            (final(self)@, effect_views(r@)) == spec_site_selected(old(self)@, site),
    {
        let ghost m = self@;
        let i = self.active;
        let mut t = self.take_tab(i);
        t.site = site;
        t.page = 0;
        t.scroll_y = 0;
        proof {
            self.lemma_wf_with(m, i as int, t@);
        }
        self.refetch(i, t)
    }

    /// `RatingSelected`: search again under another rating filter.
    pub fn rating_selected(&mut self, choice: RatingChoice) -> (r: Vec<Effect>)
        requires
            old(self).wf(),
        ensures
            final(self).wf(),
            (final(self)@, effect_views(r@)) == spec_rating_selected(old(self)@, choice.0),
    {
        let ghost m = self@;
        let i = self.active;
        let mut t = self.take_tab(i);
        t.rating = choice.0;
        t.scroll_y = 0;
        proof {
            self.lemma_wf_with(m, i as int, t@);
        }
        self.refetch(i, t)
    }
}

// ---------------------------------------------------------------------------
// Results
// ---------------------------------------------------------------------------

/// Preview URLs that providers return as placeholders — never worth showing.
pub open spec fn blacklisted(u: Seq<char>) -> bool {
    u == "https://cdn.donmai.us/images/flash-preview.png"@ || u
        == "https://static1.e621.net/images/download-preview.png"@
}

/// A URL fit for a thumbnail: non-empty, not a placeholder, and an image.
pub open spec fn usable_preview(u: Seq<char>) -> bool {
    u.len() > 0 && !blacklisted(u) && ext_is_image(spec_url_extension(u))
}

/// The thumbnail of a post: the first usable of its preview, its sample and
/// its file.
pub open spec fn spec_preview_url(p: PostModel) -> Option<Seq<char>> {
    if usable_preview(p.preview_url) {
        Some(p.preview_url)
    } else if p.sample_url matches Some(s) && usable_preview(s) {
        p.sample_url
    } else if usable_preview(p.file_url) {
        Some(p.file_url)
    } else {
        None
    }
}

fn is_usable_preview(u: &str) -> (r: bool)
    ensures
        r == usable_preview(u@),
{
    !u.is_empty() && !same_text(u, "https://cdn.donmai.us/images/flash-preview.png") && !same_text(
        u,
        "https://static1.e621.net/images/download-preview.png",
    ) && is_image(u)
}

/// The URL to show as a post's thumbnail, if it has a usable one.
pub fn preview_url(post: &BooruPost) -> (r: Option<String>)
    ensures
        opt_view(r) == spec_preview_url(post@),
{
    if is_usable_preview(post.preview_url.as_str()) {
        return Some(post.preview_url.clone());
    }
    if let Some(s) = &post.sample_url {
        if is_usable_preview(s.as_str()) {
            return Some(s.clone());
        }
    }
    if is_usable_preview(post.file_url.as_str()) {
        return Some(post.file_url.clone());
    }
    None
}

/// Begin loading each URL not yet known for `kind`, in order, asking for a
/// fetch of each one newly marked.
pub open spec fn spec_load_images<H>(
    c: CacheModel<H>,
    urls: Seq<Seq<char>>,
    kind: ImageKind,
    width: u32,
    height: u32,
) -> (CacheModel<H>, Seq<EffectModel>)
    decreases urls.len(),
{
    if urls.len() == 0 {
        (c, Seq::empty())
    } else {
        let (c1, e1) = spec_load_images(c, urls.drop_last(), kind, width, height);
        let (c2, fresh) = spec_begin_load(c1, urls.last(), kind);
        (
            c2,
            if fresh {
                e1.push(EffectModel::LoadImage { url: urls.last(), kind, width, height })
            } else {
                e1
            },
        )
    }
}

/// `s` without any occurrence of `k`.
pub open spec fn without(s: Seq<Seq<char>>, k: Seq<char>) -> Seq<Seq<char>>
    decreases s.len(),
{
    if s.len() == 0 {
        s
    } else if s.last() == k {
        without(s.drop_last(), k)
    } else {
        without(s.drop_last(), k).push(s.last())
    }
}

/// Index of the first post with id `id`.
pub open spec fn find_post(posts: Seq<PostModel>, id: Seq<char>) -> Option<int>
    decreases posts.len(),
{
    if posts.len() == 0 {
        None
    } else {
        match find_post(posts.drop_last(), id) {
            Some(i) => Some(i),
            None => if posts.last().id == id {
                Some(posts.len() - 1)
            } else {
                None
            },
        }
    }
}

pub proof fn lemma_find_post(posts: Seq<PostModel>, id: Seq<char>)
    ensures
        match find_post(posts, id) {
            Some(i) => 0 <= i < posts.len() && posts[i].id == id && forall|j: int|
                0 <= j < i ==> (#[trigger] posts[j]).id != id,
            None => forall|j: int| 0 <= j < posts.len() ==> (#[trigger] posts[j]).id != id,
        },
    decreases posts.len(),
{
    if posts.len() > 0 {
        lemma_find_post(posts.drop_last(), id);
        assert forall|j: int| 0 <= j < posts.len() - 1 implies posts[j] == posts.drop_last()[j] by {}
    }
}

/// `PostsLoaded`: a search answered. Answers to a superseded fetch (or a
/// closed tab) are dropped. A page replaces the results, leaves focus mode,
/// drops media players and starts loading thumbnails; an empty page reads
/// "No results found.". A failure is retried (same generation, next attempt)
/// until the attempts run out, then clears the results and shows the message.
pub open spec fn spec_posts_loaded<H>(
    m: RibbModel<H>,
    tab: u64,
    generation: u64,
    attempt: u32,
    result: Result<PostsPage, String>,
) -> (RibbModel<H>, Seq<EffectModel>) {
    match find_tab(m.tabs, tab) {
        None => (m, Seq::empty()),
        Some(i) => {
            let t = m.tabs[i];
            if t.generation != generation {
                (m, Seq::empty())
            } else {
                match result {
                    Ok(page) => {
                        let posts = page@.posts;
                        let t1 = TabModel {
                            posts,
                            has_next_page: page.has_next_page,
                            focused: None,
                            swf: Seq::empty(),
                            video: Seq::empty(),
                            loading: false,
                            error: if posts.len() == 0 {
                                Some("No results found."@)
                            } else {
                                None
                            },
                            ..t
                        };
                        let m1 = m.set_tab(i, t1);
                        let (c, loads) = spec_load_images(
                            m1.images,
                            posts.filter_map(|p: PostModel| spec_preview_url(p)),
                            ImageKind::Thumbnail,
                            0,
                            0,
                        );
                        (
                            RibbModel { images: c, ..m1 },
                            seq![EffectModel::DropMedia { tab: t.id, post_id: None }] + loads,
                        )
                    },
                    Err(msg) => if attempt < MAX_FETCH_ATTEMPTS - 1 {
                        (
                            m.set_tab(
                                i,
                                TabModel { error: Some(msg@ + "\nRetrying..."@), ..t },
                            ),
                            seq![
                                EffectModel::FetchPosts {
                                    tab: t.id,
                                    generation,
                                    site: t.site,
                                    query: QueryModel {
                                        tags: match t.query {
                                            Some(q) => q,
                                            None => Seq::empty(),
                                        },
                                        limit: PAGE_LIMIT,
                                        page: t.page,
                                        rating: t.rating,
                                    },
                                    attempt: (attempt + 1) as u32,
                                },
                            ],
                        )
                    } else {
                        (
                            m.set_tab(
                                i,
                                TabModel {
                                    posts: Seq::empty(),
                                    focused: None,
                                    swf: Seq::empty(),
                                    video: Seq::empty(),
                                    has_next_page: false,
                                    loading: false,
                                    error: Some(msg@),
                                    ..t
                                },
                            ),
                            seq![EffectModel::DropMedia { tab: t.id, post_id: None }],
                        )
                    },
                }
            }
        },
    }
}

/// `TagGroupsLoaded`: non-empty groups for a post are stored on it (the first
/// post with that id, in the tab with that id).
pub open spec fn spec_tag_groups_loaded<H>(
    m: RibbModel<H>,
    tab: u64,
    post_id: Seq<char>,
    groups: Seq<TagGroupModel>,
) -> (RibbModel<H>, Seq<EffectModel>) {
    if groups.len() == 0 {
        (m, Seq::empty())
    } else {
        match find_tab(m.tabs, tab) {
            None => (m, Seq::empty()),
            Some(i) => {
                let t = m.tabs[i];
                match find_post(t.posts, post_id) {
                    None => (m, Seq::empty()),
                    Some(k) => (
                        m.set_tab(
                            i,
                            TabModel {
                                posts: t.posts.update(k, PostModel { tag_groups: groups, ..t.posts[k] }),
                                ..t
                            },
                        ),
                        Seq::empty(),
                    ),
                }
            },
        }
    }
}

/// The words of `ws` with `tag` toggled: its first occurrence removed, or it
/// appended when absent.
pub open spec fn toggle_word(ws: Seq<Seq<char>>, tag: Seq<char>) -> Seq<Seq<char>> {
    match first_index(ws, tag) {
        Some(p) => ws.remove(p),
        None => ws.push(tag),
    }
}

/// Index of the first occurrence of `k` in `s`.
pub open spec fn first_index(s: Seq<Seq<char>>, k: Seq<char>) -> Option<int>
    decreases s.len(),
{
    if s.len() == 0 {
        None
    } else {
        match first_index(s.drop_last(), k) {
            Some(i) => Some(i),
            None => if s.last() == k {
                Some(s.len() - 1)
            } else {
                None
            },
        }
    }
}

pub proof fn lemma_first_index(s: Seq<Seq<char>>, k: Seq<char>)
    ensures
        match first_index(s, k) {
            Some(i) => 0 <= i < s.len() && s[i] == k && forall|j: int|
                0 <= j < i ==> #[trigger] s[j] != k,
            None => forall|j: int| 0 <= j < s.len() ==> #[trigger] s[j] != k,
        },
    decreases s.len(),
{
    if s.len() > 0 {
        lemma_first_index(s.drop_last(), k);
        assert forall|j: int| 0 <= j < s.len() - 1 implies s[j] == s.drop_last()[j] by {}
    }
}

/// `TagClicked`: with Ctrl held the tag opens in a background tab; otherwise
/// it is toggled in the search box's words, which are re-joined by spaces.
pub open spec fn spec_tag_clicked<H>(m: RibbModel<H>, tag: Seq<char>) -> (
    RibbModel<H>,
    Seq<EffectModel>,
) {
    if m.ctrl {
        spec_push_tab(m, Some(tag), false)
    } else {
        let t = m.tabs[m.active];
        (
            m.set_tab(
                m.active,
                TabModel { temp_query: join_spaced(toggle_word(words(t.temp_query), tag)), ..t },
            ),
            Seq::empty(),
        )
    }
}

impl<H> Ribb<H> {
    /// Begin loading any of `urls` not already cached for `kind`.
    fn load_images(&mut self, urls: Vec<String>, kind: ImageKind, width: u32, height: u32) -> (r:
        Vec<Effect>)
        requires
            old(self).wf(),
        ensures
            final(self).wf(),
            (final(self)@, effect_views(r@)) == ({
                let (c, e) = spec_load_images(old(self)@.images, views(urls@), kind, width, height);
                (RibbModel { images: c, ..old(self)@ }, e)
            }),
    {
        let ghost m = self@;
        let mut r: Vec<Effect> = Vec::new();
        let mut i: usize = 0;
        while i < urls.len()
            invariant
                i <= urls@.len(),
                self.images.wf(),
                self.wf(),
                (self@, effect_views(r@)) == ({
                    let (c, e) = spec_load_images(m.images, views(urls@.take(i as int)), kind, width, height);
                    (RibbModel { images: c, ..m }, e)
                }),
            decreases urls.len() - i,
        {
            let ghost prefix = views(urls@.take(i + 1));
            assert(prefix.drop_last() =~= views(urls@.take(i as int)));
            assert(prefix.last() == urls@[i as int]@);
            let ghost before = r@;
            if self.images.begin_load(urls[i].as_str(), kind) {
                r.push(Effect::LoadImage { url: urls[i].clone(), kind, width, height });
                assert(effect_views(r@) =~= effect_views(before).push(
                    EffectModel::LoadImage { url: urls@[i as int]@, kind, width, height },
                ));
            }
            assert(self@ =~= RibbModel { images: self@.images, ..m });
            i = i + 1;
        }
        assert(urls@.take(urls@.len() as int) =~= urls@);
        r
    }

    /// `PostsLoaded`: a post search answered (see [`spec_posts_loaded`]).
    pub fn posts_loaded(
        &mut self,
        tab: u64,
        generation: u64,
        attempt: u32,
        result: Result<PostsPage, String>,
    ) -> (r: Vec<Effect>)
        requires
            old(self).wf(),
        ensures
            final(self).wf(),
            (final(self)@, effect_views(r@)) == spec_posts_loaded(
                old(self)@,
                tab,
                generation,
                attempt,
                result,
            ),
    {
        let ghost m = self@;
        let ghost res = result;
        let i = match self.tab_index(tab) {
            Some(i) => i,
            None => {
                assert(effect_views(Seq::<Effect>::empty()) =~= Seq::<EffectModel>::empty());
                return Vec::new();
            },
        };
        assert(self@.tabs[i as int] == self.tabs@[i as int]@);
        if self.tabs[i].generation != generation {
            assert(effect_views(Seq::<Effect>::empty()) =~= Seq::<EffectModel>::empty());
            return Vec::new();
        }
        let mut t = self.take_tab(i);
        let id = t.id;
        match result {
            Ok(page) => {
                let ghost pv = page@.posts;
                let empty = page.posts.len() == 0;
                t.posts = page.posts;
                t.has_next_page = page.has_next_page;
                t.focused = None;
                t.swf = Vec::new();
                t.video = Vec::new();
                t.loading = false;
                t.error = if empty {
                    Some(String::from_str("No results found."))
                } else {
                    None
                };
                let mut urls: Vec<String> = Vec::new();
                let mut k: usize = 0;
                while k < t.posts.len()
                    invariant
                        k <= t.posts@.len(),
                        post_views(t.posts@) == pv,
                        views(urls@) == pv.take(k as int).filter_map(
                            |p: PostModel| spec_preview_url(p),
                        ),
                    decreases t.posts.len() - k,
                {
                    let ghost pre = pv.take(k + 1);
                    assert(pre.drop_last() =~= pv.take(k as int));
                    assert(pre.last() == t.posts@[k as int]@);
                    let ghost before = urls@;
                    if let Some(u) = preview_url(&t.posts[k]) {
                        urls.push(u);
                        assert(views(urls@) =~= views(before).push(u@));
                    }
                    k = k + 1;
                }
                assert(pv.take(pv.len() as int) =~= pv);
                self.put_tab(i, t);
                proof {
                    assert(views(Seq::<String>::empty()) =~= Seq::<Seq<char>>::empty());
                    assert(tab_views(self.tabs@) =~= m.tabs.update(i as int, t@));
                    lemma_set_tab_wf(m, i as int, t@);
                    assert(self@ =~= m.set_tab(i as int, t@));
                }
                let mut r = vec![Effect::DropMedia { tab: id, post_id: None }];
                let mut loads = self.load_images(urls, ImageKind::Thumbnail, 0, 0);
                let ghost lv = effect_views(loads@);
                r.append(&mut loads);
                assert(effect_views(r@) =~= seq![EffectModel::DropMedia { tab: id, post_id: None }]
                    + lv);
                r
            },
            Err(msg) => {
                if attempt < MAX_FETCH_ATTEMPTS - 1 {
                    t.error = Some(msg.concat("\nRetrying..."));
                    let tags = match &t.query {
                        Some(q) => q.clone(),
                        None => String::new(),
                    };
                    let e = Effect::FetchPosts {
                        tab: id,
                        generation,
                        site: t.site,
                        query: PostQuery { tags, limit: PAGE_LIMIT, page: t.page, rating: t.rating },
                        attempt: attempt + 1,
                    };
                    self.put_tab(i, t);
                    let r = vec![e];
                    proof {
                        assert(tab_views(self.tabs@) =~= m.tabs.update(i as int, t@));
                        lemma_set_tab_wf(m, i as int, t@);
                        assert(self@ =~= spec_posts_loaded(m, tab, generation, attempt, res).0);
                        assert(effect_views(r@) =~= spec_posts_loaded(
                            m,
                            tab,
                            generation,
                            attempt,
                            res,
                        ).1);
                    }
                    r
                } else {
                    t.posts = Vec::new();
                    t.focused = None;
                    t.swf = Vec::new();
                    t.video = Vec::new();
                    t.has_next_page = false;
                    t.loading = false;
                    t.error = Some(msg);
                    self.put_tab(i, t);
                    let r = vec![Effect::DropMedia { tab: id, post_id: None }];
                    proof {
                        assert(post_views(Seq::<BooruPost>::empty()) =~= Seq::<PostModel>::empty());
                        assert(views(Seq::<String>::empty()) =~= Seq::<Seq<char>>::empty());
                        assert(tab_views(self.tabs@) =~= m.tabs.update(i as int, t@));
                        lemma_set_tab_wf(m, i as int, t@);
                        assert(self@ =~= spec_posts_loaded(m, tab, generation, attempt, res).0);
                        assert(effect_views(r@) =~= spec_posts_loaded(
                            m,
                            tab,
                            generation,
                            attempt,
                            res,
                        ).1);
                    }
                    r
                }
            },
        }
    }
}

/// Index of the first post with id `id` (see [`find_post`]).
fn post_position(posts: &Vec<BooruPost>, id: &str) -> (r: Option<usize>)
    ensures
        match r {
            Some(k) => find_post(post_views(posts@), id@) == Some(k as int) && k < posts@.len(),
            None => find_post(post_views(posts@), id@) is None,
        },
{
    let ghost pv = post_views(posts@);
    proof {
        lemma_find_post(pv, id@);
    }
    let mut k: usize = 0;
    while k < posts.len()
        invariant
            pv == post_views(posts@),
            k <= posts@.len(),
            forall|j: int| 0 <= j < k ==> (#[trigger] pv[j]).id != id@,
            match find_post(pv, id@) {
                Some(i) => 0 <= i < pv.len() && pv[i].id == id@ && forall|j: int|
                    0 <= j < i ==> (#[trigger] pv[j]).id != id@,
                None => forall|j: int| 0 <= j < pv.len() ==> (#[trigger] pv[j]).id != id@,
            },
        decreases posts.len() - k,
    {
        assert(pv[k as int] == posts@[k as int]@);
        if same_text(posts[k].id.as_str(), id) {
            return Some(k);
        }
        k = k + 1;
    }
    None
}

/// Index of the first word equal to `w` (see [`first_index`]).
fn word_position(ws: &Vec<String>, w: &str) -> (r: Option<usize>)
    ensures
        match r {
            Some(k) => first_index(views(ws@), w@) == Some(k as int) && k < ws@.len(),
            None => first_index(views(ws@), w@) is None,
        },
{
    let ghost wv = views(ws@);
    proof {
        lemma_first_index(wv, w@);
    }
    let mut k: usize = 0;
    while k < ws.len()
        invariant
            wv == views(ws@),
            k <= ws@.len(),
            forall|j: int| 0 <= j < k ==> #[trigger] wv[j] != w@,
            match first_index(wv, w@) {
                Some(i) => 0 <= i < wv.len() && wv[i] == w@ && forall|j: int|
                    0 <= j < i ==> #[trigger] wv[j] != w@,
                None => forall|j: int| 0 <= j < wv.len() ==> #[trigger] wv[j] != w@,
            },
        decreases ws.len() - k,
    {
        assert(wv[k as int] == ws@[k as int]@);
        if same_text(ws[k].as_str(), w) {
            return Some(k);
        }
        k = k + 1;
    }
    None
}

/// A post with every field empty.
fn blank_post() -> (p: BooruPost)
    ensures
        p@ == (PostModel {
            id: Seq::empty(),
            post_view: Seq::empty(),
            tags: Seq::empty(),
            tag_groups: Seq::empty(),
            file_url: Seq::empty(),
            preview_url: Seq::empty(),
            sample_url: None,
            width: 0,
            height: 0,
            rating: Seq::empty(),
            created_at: Seq::empty(),
        }),
{
    let p = BooruPost {
        id: String::new(),
        post_view: String::new(),
        tags: Vec::new(),
        tag_groups: Vec::new(),
        file_url: String::new(),
        preview_url: String::new(),
        sample_url: None,
        width: 0,
        height: 0,
        rating: String::new(),
        created_at: String::new(),
    };
    proof {
        assert(views(p.tags@) =~= Seq::<Seq<char>>::empty());
        assert(group_views(p.tag_groups@) =~= Seq::<TagGroupModel>::empty());
    }
    p
}

impl<H> Ribb<H> {
    /// `TagGroupsLoaded`: a post's tags arrived grouped by category.
    pub fn tag_groups_loaded(&mut self, tab: u64, post_id: String, groups: Vec<TagGroup>) -> (r:
        Vec<Effect>)
        requires
            old(self).wf(),
        ensures
            final(self).wf(),
            (final(self)@, effect_views(r@)) == spec_tag_groups_loaded(
                old(self)@,
                tab,
                post_id@,
                group_views(groups@),
            ),
    {
        let ghost m = self@;
        let ghost gv = group_views(groups@);
        assert(effect_views(Seq::<Effect>::empty()) =~= Seq::<EffectModel>::empty());
        if groups.len() == 0 {
            return Vec::new();
        }
        if let Some(i) = self.tab_index(tab) {
            assert(self@.tabs[i as int] == self.tabs@[i as int]@);
            if let Some(k) = post_position(&self.tabs[i].posts, post_id.as_str()) {
                let mut t = self.take_tab(i);
                let ghost pv = post_views(t.posts@);
                let mut p = blank_post();
                t.posts.set_and_swap(k, &mut p);
                p.tag_groups = groups;
                t.posts.set(k, p);
                proof {
                    assert(pv[k as int] == m.tabs[i as int].posts[k as int]);
                    assert(post_views(t.posts@) =~= pv.update(
                        k as int,
                        PostModel { tag_groups: gv, ..pv[k as int] },
                    ));
                }
                self.put_tab(i, t);
                proof {
                    assert(tab_views(self.tabs@) =~= m.tabs.update(i as int, t@));
                    lemma_set_tab_wf(m, i as int, t@);
                    assert(self@ =~= spec_tag_groups_loaded(m, tab, post_id@, gv).0);
                }
            }
        }
        Vec::new()
    }

    /// `TagClicked`: toggle a tag in the search box (Ctrl: open it in a
    /// background tab).
    pub fn tag_clicked(&mut self, tag: String) -> (r: Vec<Effect>)
        requires
            old(self).wf(),
        ensures
            final(self).wf(),
            (final(self)@, effect_views(r@)) == spec_tag_clicked(old(self)@, tag@),
    {
        if self.ctrl {
            return self.push_tab(Some(tag), false);
        }
        let ghost m = self@;
        let i = self.active;
        let mut t = self.take_tab(i);
        let mut ws = split_whitespace(t.temp_query.as_str());
        let ghost wv = views(ws@);
        match word_position(&ws, tag.as_str()) {
            Some(p) => {
                let _gone = ws.remove(p);
                assert(views(ws@) =~= wv.remove(p as int));
            },
            None => {
                ws.push(tag);
                assert(views(ws@) =~= wv.push(tag@));
            },
        }
        t.temp_query = join_with_spaces(&ws);
        self.put_tab(i, t);
        proof {
            assert(tab_views(self.tabs@) =~= m.tabs.update(i as int, t@));
            lemma_set_tab_wf(m, i as int, t@);
            assert(self@ =~= spec_tag_clicked(m, tag@).0);
        }
        assert(effect_views(Seq::<Effect>::empty()) =~= Seq::<EffectModel>::empty());
        Vec::new()
    }
}

/// The media a focused post needs: its full image (at the post's size), or a
/// Flash or video player when the tab has none for it yet.
pub open spec fn spec_focus_media<H>(
    m: RibbModel<H>,
    tab: u64,
    post_id: Seq<char>,
    url: Seq<char>,
    width: u32,
    height: u32,
    has_swf: bool,
    has_video: bool,
) -> (RibbModel<H>, Seq<EffectModel>) {
    let ext = spec_url_extension(url);
    if ext_is_image(ext) {
        let (c, loads) = spec_load_images(m.images, seq![url], ImageKind::Full, width, height);
        (RibbModel { images: c, ..m }, loads)
    } else if ext_is_swf(ext) && !has_swf {
        (m, seq![EffectModel::FetchSwf { tab, post_id, url }])
    } else if ext_is_video(ext) && !has_video {
        (m, seq![EffectModel::FetchVideo { tab, post_id, url }])
    } else {
        (m, Seq::empty())
    }
}

/// `TogglePost`: the active tab's focus view. Toggling the focused post
/// leaves focus mode: its media players go and the grid's scroll offset comes
/// back. Toggling another post of the tab focuses it at the top of the view
/// (the grid's offset is saved when coming from the grid), asks for its tag
/// groups and loads its media. An unknown post changes nothing.
#[verifier::opaque]
pub open spec fn spec_toggle_post<H>(m: RibbModel<H>, post_id: Seq<char>) -> (
    RibbModel<H>,
    Seq<EffectModel>,
) {
    let i = m.active;
    let t = m.tabs[i];
    if t.focused == Some(post_id) {
        let t1 = TabModel {
            focused: None,
            swf: without(t.swf, post_id),
            video: without(t.video, post_id),
            scroll_y: t.grid_scroll_y,
            ..t
        };
        let (m2, restore) = spec_defer_restore(m.set_tab(i, t1), i);
        (m2, seq![EffectModel::DropMedia { tab: t.id, post_id: Some(post_id) }] + restore)
    } else {
        match find_post(t.posts, post_id) {
            None => (m, Seq::empty()),
            Some(k) => {
                let post = t.posts[k];
                let t1 = TabModel {
                    grid_scroll_y: if t.focused is None {
                        t.scroll_y
                    } else {
                        t.grid_scroll_y
                    },
                    focused: Some(post_id),
                    scroll_y: 0,
                    ..t
                };
                let (m2, media) = spec_focus_media(
                    m.set_tab(i, t1),
                    t.id,
                    post_id,
                    post.file_url,
                    post.width,
                    post.height,
                    t.swf.contains(post_id),
                    t.video.contains(post_id),
                );
                let (m3, restore) = spec_defer_restore(m2, i);
                (
                    m3,
                    seq![EffectModel::FetchTagGroups { tab: t.id, site: t.site, post }] + media
                        + restore,
                )
            },
        }
    }
}

/// Focusing post `k` of the active tab, spelled out.
proof fn lemma_toggle_enter<H>(m: RibbModel<H>, post_id: Seq<char>, k: int)
    requires
        m.tabs[m.active].focused != Some(post_id),
        find_post(m.tabs[m.active].posts, post_id) == Some(k),
    ensures
        ({
            let i = m.active;
            let t = m.tabs[i];
            let post = t.posts[k];
            let t1 = TabModel {
                grid_scroll_y: if t.focused is None {
                    t.scroll_y
                } else {
                    t.grid_scroll_y
                },
                focused: Some(post_id),
                scroll_y: 0,
                ..t
            };
            let (m2, media) = spec_focus_media(
                m.set_tab(i, t1),
                t.id,
                post_id,
                post.file_url,
                post.width,
                post.height,
                t.swf.contains(post_id),
                t.video.contains(post_id),
            );
            let (m3, restore) = spec_defer_restore(m2, i);
            spec_toggle_post(m, post_id) == (
                m3,
                seq![EffectModel::FetchTagGroups { tab: t.id, site: t.site, post }] + media + restore,
            )
        }),
{
    reveal(spec_toggle_post);
}

/// `v` without the strings equal to `k`.
fn remove_all(v: &Vec<String>, k: &str) -> (r: Vec<String>)
    ensures
        views(r@) == without(views(v@), k@),
{
    let mut r: Vec<String> = Vec::new();
    let mut i: usize = 0;
    while i < v.len()
        invariant
            i <= v@.len(),
            views(r@) == without(views(v@.take(i as int)), k@),
        decreases v.len() - i,
    {
        let ghost pre = views(v@.take(i + 1));
        assert(pre.drop_last() =~= views(v@.take(i as int)));
        assert(pre.last() == v@[i as int]@);
        if !same_text(v[i].as_str(), k) {
            let ghost before = r@;
            r.push(v[i].clone());
            assert(views(r@) =~= views(before).push(v@[i as int]@));
        }
        i = i + 1;
    }
    assert(v@.take(v@.len() as int) =~= v@);
    r
}

/// Whether one of `v` equals `k`.
fn contains_text(v: &Vec<String>, k: &str) -> (r: bool)
    ensures
        r == views(v@).contains(k@),
{
    proof {
        lemma_first_index(views(v@), k@);
    }
    match word_position(v, k) {
        Some(p) => {
            assert(views(v@)[p as int] == k@);
            true
        },
        None => false,
    }
}

impl<H> Ribb<H> {
    /// Start loading what a focused post needs (see [`spec_focus_media`]).
    fn focus_media(
        &mut self,
        tab: u64,
        post_id: String,
        url: String,
        width: u32,
        height: u32,
        has_swf: bool,
        has_video: bool,
    ) -> (r: Vec<Effect>)
        requires
            old(self).wf(),
        ensures
            final(self).wf(),
            (final(self)@, effect_views(r@)) == spec_focus_media(
                old(self)@,
                tab,
                post_id@,
                url@,
                width,
                height,
                has_swf,
                has_video,
            ),
    {
        let ghost uv = url@;
        let ghost pv = post_id@;
        reveal(spec_focus_media);
        if is_image(url.as_str()) {
            let urls = vec![url];
            assert(views(urls@) =~= seq![uv]);
            self.load_images(urls, ImageKind::Full, width, height)
        } else if is_swf(url.as_str()) && !has_swf {
            let r = vec![Effect::FetchSwf { tab, post_id, url }];
            assert(effect_views(r@) =~= seq![EffectModel::FetchSwf { tab, post_id: pv, url: uv }]);
            r
        } else if is_video(url.as_str()) && !has_video {
            let r = vec![Effect::FetchVideo { tab, post_id, url }];
            assert(effect_views(r@) =~= seq![EffectModel::FetchVideo { tab, post_id: pv, url: uv }]);
            r
        } else {
            assert(effect_views(Seq::<Effect>::empty()) =~= Seq::<EffectModel>::empty());
            Vec::new()
        }
    }

    /// Leave the focus view of the active tab's focused post.
    fn leave_focus(&mut self, post_id: String) -> (r: Vec<Effect>)
        requires
            old(self).wf(),
            old(self)@.tabs[old(self)@.active].focused == Some(post_id@),
        ensures
            final(self).wf(),
            (final(self)@, effect_views(r@)) == spec_toggle_post(old(self)@, post_id@),
    {
        let ghost m = self@;
        reveal(spec_toggle_post);
        let i = self.active;
        let mut t = self.take_tab(i);
        t.focused = None;
        t.swf = remove_all(&t.swf, post_id.as_str());
        t.video = remove_all(&t.video, post_id.as_str());
        t.scroll_y = t.grid_scroll_y;
        let id = t.id;
        self.put_tab(i, t);
        proof {
            assert(tab_views(self.tabs@) =~= m.tabs.update(i as int, t@));
            lemma_set_tab_wf(m, i as int, t@);
            assert(self@ =~= m.set_tab(i as int, t@));
        }
        let mut r = vec![Effect::DropMedia { tab: id, post_id: Some(post_id) }];
        let ghost r0 = effect_views(r@);
        let mut d = self.defer_tab_restore(i);
        let ghost dv = effect_views(d@);
        r.append(&mut d);
        assert(effect_views(r@) =~= r0 + dv);
        r
    }

    /// Mark `post_id` as the active tab's focused post, at the top of the
    /// view, saving the grid's offset when coming from the grid.
    fn mark_focused(&mut self, post_id: &String)
        requires
            old(self).wf(),
        ensures
            final(self).wf(),
            final(self)@ == old(self)@.set_tab(
                old(self)@.active,
                TabModel {
                    grid_scroll_y: if old(self)@.tabs[old(self)@.active].focused is None {
                        old(self)@.tabs[old(self)@.active].scroll_y
                    } else {
                        old(self)@.tabs[old(self)@.active].grid_scroll_y
                    },
                    focused: Some(post_id@),
                    scroll_y: 0,
                    ..old(self)@.tabs[old(self)@.active]
                },
            ),
    {
        let ghost m = self@;
        let i = self.active;
        let mut t = self.take_tab(i);
        if t.focused.is_none() {
            t.grid_scroll_y = t.scroll_y;
        }
        t.focused = Some(post_id.clone());
        t.scroll_y = 0;
        self.put_tab(i, t);
        proof {
            assert(tab_views(self.tabs@) =~= m.tabs.update(i as int, t@));
            lemma_set_tab_wf(m, i as int, t@);
            assert(self@ =~= m.set_tab(i as int, t@));
        }
    }

    /// Focus post `k` of the active tab.
    fn enter_focus(&mut self, k: usize, post_id: String) -> (r: Vec<Effect>)
        requires
            old(self).wf(),
            old(self)@.tabs[old(self)@.active].focused != Some(post_id@),
            find_post(old(self)@.tabs[old(self)@.active].posts, post_id@) == Some(k as int),
        ensures
            final(self).wf(),
            (final(self)@, effect_views(r@)) == spec_toggle_post(old(self)@, post_id@),
    {
        let ghost m = self@;
        let i = self.active;
        proof {
            lemma_find_post(m.tabs[i as int].posts, post_id@);
            lemma_toggle_enter(m, post_id@, k as int);
        }
        assert(self@.tabs[i as int] == self.tabs@[i as int]@);
        let post = copy_post(&self.tabs[i].posts[k]);
        let has_swf = contains_text(&self.tabs[i].swf, post_id.as_str());
        let has_video = contains_text(&self.tabs[i].video, post_id.as_str());
        let id = self.tabs[i].id;
        let site = self.tabs[i].site;
        self.mark_focused(&post_id);
        let url = post.file_url.clone();
        let width = post.width;
        let height = post.height;
        let mut r = vec![Effect::FetchTagGroups { tab: id, site, post }];
        let ghost r0 = effect_views(r@);
        let mut media = self.focus_media(id, post_id, url, width, height, has_swf, has_video);
        let ghost mv = effect_views(media@);
        r.append(&mut media);
        let mut d = self.defer_tab_restore(i);
        let ghost dv = effect_views(d@);
        r.append(&mut d);
        assert(effect_views(r@) =~= r0 + mv + dv);
        r
    }

    /// `TogglePost`: enter or leave a post's focus view (see [`spec_toggle_post`]).
    pub fn toggle_post(&mut self, post_id: String) -> (r: Vec<Effect>)
        requires
            old(self).wf(),
        ensures
            final(self).wf(),
            (final(self)@, effect_views(r@)) == spec_toggle_post(old(self)@, post_id@),
    {
        let i = self.active;
        assert(self@.tabs[i as int] == self.tabs@[i as int]@);
        let is_focused = match &self.tabs[i].focused {
            Some(f) => same_text(f.as_str(), post_id.as_str()),
            None => false,
        };
        if is_focused {
            return self.leave_focus(post_id);
        }
        match post_position(&self.tabs[i].posts, post_id.as_str()) {
            Some(k) => self.enter_focus(k, post_id),
            None => {
                reveal(spec_toggle_post);
                assert(effect_views(Seq::<Effect>::empty()) =~= Seq::<EffectModel>::empty());
                Vec::new()
            },
        }
    }
}

/// `s` with `k` added, unless it is already there.
pub open spec fn add_key(s: Seq<Seq<char>>, k: Seq<char>) -> Seq<Seq<char>> {
    if s.contains(k) {
        s
    } else {
        s.push(k)
    }
}

/// `SwfLoaded`: a Flash player for a post of a tab is ready.
pub open spec fn spec_swf_loaded<H>(m: RibbModel<H>, tab: u64, post_id: Seq<char>) -> (
    RibbModel<H>,
    Seq<EffectModel>,
) {
    match find_tab(m.tabs, tab) {
        Some(i) => (
            m.set_tab(i, TabModel { swf: add_key(m.tabs[i].swf, post_id), ..m.tabs[i] }),
            Seq::empty(),
        ),
        None => (m, Seq::empty()),
    }
}

/// `VideoLoaded`: a video player for a post of a tab is ready.
pub open spec fn spec_video_loaded<H>(m: RibbModel<H>, tab: u64, post_id: Seq<char>) -> (
    RibbModel<H>,
    Seq<EffectModel>,
) {
    match find_tab(m.tabs, tab) {
        Some(i) => (
            m.set_tab(i, TabModel { video: add_key(m.tabs[i].video, post_id), ..m.tabs[i] }),
            Seq::empty(),
        ),
        None => (m, Seq::empty()),
    }
}

/// `v` with `k` added, unless one of its strings already equals it.
fn add_text(v: &mut Vec<String>, k: String)
    ensures
        views(final(v)@) == add_key(views(old(v)@), k@),
{
    if !contains_text(v, k.as_str()) {
        let ghost before = v@;
        v.push(k);
        assert(views(v@) =~= views(before).push(k@));
    }
}

/// The status of a post action that settled: done or failed.
pub open spec fn settled(ok: bool) -> ActionStatus {
    if ok {
        ActionStatus::Done
    } else {
        ActionStatus::Failed
    }
}

/// A post's action button starts: it shows as in progress and the work is
/// handed to the front end.
pub open spec fn spec_start_action<H>(
    m: RibbModel<H>,
    post_id: Seq<char>,
    kind: ActionKind,
    url: Seq<char>,
) -> (RibbModel<H>, Seq<EffectModel>) {
    (
        RibbModel { actions: m.actions.insert((post_id, kind), ActionStatus::InProgress), ..m },
        seq![
            match kind {
                ActionKind::Download => EffectModel::Download { post_id, url },
                ActionKind::Copy => EffectModel::Copy { post_id, url },
            },
        ],
    )
}

/// A post's action finished: its button shows the outcome, to be cleared
/// after a short while.
pub open spec fn spec_finish_action<H>(
    m: RibbModel<H>,
    post_id: Seq<char>,
    kind: ActionKind,
    ok: bool,
) -> (RibbModel<H>, Seq<EffectModel>) {
    (
        RibbModel { actions: m.actions.insert((post_id, kind), settled(ok)), ..m },
        seq![EffectModel::ClearActionLater { post_id, kind }],
    )
}

/// `ClearAction`: a settled button goes back to idle; one in progress stays.
pub open spec fn spec_clear_action<H>(m: RibbModel<H>, post_id: Seq<char>, kind: ActionKind) -> (
    RibbModel<H>,
    Seq<EffectModel>,
) {
    if m.actions.contains_key((post_id, kind)) && m.actions[(post_id, kind)]
        == ActionStatus::InProgress {
        (m, Seq::empty())
    } else {
        (RibbModel { actions: m.actions.remove((post_id, kind)), ..m }, Seq::empty())
    }
}

/// `OpenSettings`: the dialog opens on the saved credentials and takes focus.
pub open spec fn spec_open_settings<H>(m: RibbModel<H>) -> (RibbModel<H>, Seq<EffectModel>) {
    (
        RibbModel { settings_draft: m.saved_credentials, settings_open: true, ..m },
        seq![EffectModel::FocusSettings],
    )
}

/// `SaveSettings`: the draft becomes the saved credentials and the client's,
/// is persisted, and the dialog closes.
pub open spec fn spec_save_settings<H>(m: RibbModel<H>) -> (RibbModel<H>, Seq<EffectModel>) {
    (
        RibbModel {
            saved_credentials: m.settings_draft,
            credentials: m.settings_draft,
            settings_open: false,
            ..m
        },
        seq![EffectModel::SaveSettings(m.settings_draft)],
    )
}

impl<H> Ribb<H> {
    /// `SwfLoaded`: record that a tab's post has a Flash player.
    pub fn swf_loaded(&mut self, tab: u64, post_id: String) -> (r: Vec<Effect>)
        requires
            old(self).wf(),
        ensures
            final(self).wf(),
            (final(self)@, effect_views(r@)) == spec_swf_loaded(old(self)@, tab, post_id@),
    {
        let ghost m = self@;
        if let Some(i) = self.tab_index(tab) {
            let mut t = self.take_tab(i);
            add_text(&mut t.swf, post_id);
            self.put_tab(i, t);
            proof {
                assert(tab_views(self.tabs@) =~= m.tabs.update(i as int, t@));
                lemma_set_tab_wf(m, i as int, t@);
                assert(self@ =~= spec_swf_loaded(m, tab, post_id@).0);
            }
        }
        assert(effect_views(Seq::<Effect>::empty()) =~= Seq::<EffectModel>::empty());
        Vec::new()
    }

    /// `VideoLoaded`: record that a tab's post has a video player.
    pub fn video_loaded(&mut self, tab: u64, post_id: String) -> (r: Vec<Effect>)
        requires
            old(self).wf(),
        ensures
            final(self).wf(),
            (final(self)@, effect_views(r@)) == spec_video_loaded(old(self)@, tab, post_id@),
    {
        let ghost m = self@;
        if let Some(i) = self.tab_index(tab) {
            let mut t = self.take_tab(i);
            add_text(&mut t.video, post_id);
            self.put_tab(i, t);
            proof {
                assert(tab_views(self.tabs@) =~= m.tabs.update(i as int, t@));
                lemma_set_tab_wf(m, i as int, t@);
                assert(self@ =~= spec_video_loaded(m, tab, post_id@).0);
            }
        }
        assert(effect_views(Seq::<Effect>::empty()) =~= Seq::<EffectModel>::empty());
        Vec::new()
    }

    /// `ImageLoaded`: a fetch and decode finished (`None`: it failed).
    pub fn image_loaded(&mut self, url: String, kind: ImageKind, image: Option<H>) -> (r: Vec<
        Effect,
    >)
        requires
            old(self).wf(),
        ensures
            final(self).wf(),
            final(self)@ == (RibbModel {
                images: spec_finish_load(old(self)@.images, url@, kind, image),
                ..old(self)@
            }),
            r@.len() == 0,
    {
        let ghost m = self@;
        self.images.finish_load(url, kind, image);
        assert(self@ =~= RibbModel { images: self@.images, ..m });
        Vec::new()
    }

    /// Set an action button's status.
    fn put_action(&mut self, post_id: String, kind: ActionKind, status: ActionStatus)
        requires
            old(self).wf(),
        ensures
            final(self).wf(),
            final(self)@ == (RibbModel {
                actions: old(self)@.actions.insert((post_id@, kind), status),
                ..old(self)@
            }),
    {
        let ghost m = self@;
        set_action(&mut self.actions, post_id, kind, status);
        assert(self@ =~= RibbModel { actions: self@.actions, ..m });
    }

    /// `DownloadPost` / `CopyImage`: start a post's action.
    pub fn start_action(&mut self, post_id: String, kind: ActionKind, url: String) -> (r: Vec<
        Effect,
    >)
        requires
            old(self).wf(),
        ensures
            final(self).wf(),
            (final(self)@, effect_views(r@)) == spec_start_action(
                old(self)@,
                post_id@,
                kind,
                url@,
            ),
    {
        let e = match kind {
            ActionKind::Download => Effect::Download { post_id: post_id.clone(), url },
            ActionKind::Copy => Effect::Copy { post_id: post_id.clone(), url },
        };
        self.put_action(post_id, kind, ActionStatus::InProgress);
        let r = vec![e];
        assert(effect_views(r@) =~= seq![e@]);
        r
    }

    /// `DownloadFinished` / `CopyFinished`: a post's action settled.
    pub fn finish_action(&mut self, post_id: String, kind: ActionKind, ok: bool) -> (r: Vec<
        Effect,
    >)
        requires
            old(self).wf(),
        ensures
            final(self).wf(),
            (final(self)@, effect_views(r@)) == spec_finish_action(old(self)@, post_id@, kind, ok),
    {
        let status = if ok {
            ActionStatus::Done
        } else {
            ActionStatus::Failed
        };
        let e = Effect::ClearActionLater { post_id: post_id.clone(), kind };
        self.put_action(post_id, kind, status);
        let r = vec![e];
        assert(effect_views(r@) =~= seq![e@]);
        r
    }

    /// `ClearAction`: return a settled action button to idle.
    pub fn clear_action(&mut self, post_id: String, kind: ActionKind) -> (r: Vec<Effect>)
        requires
            old(self).wf(),
        ensures
            final(self).wf(),
            (final(self)@, effect_views(r@)) == spec_clear_action(old(self)@, post_id@, kind),
    {
        let ghost m = self@;
        assert(effect_views(Seq::<Effect>::empty()) =~= Seq::<EffectModel>::empty());
        match action_position(&self.actions, post_id.as_str(), kind) {
            Some(i) => {
                proof {
                    lemma_action_map_index(self.actions@, i as int);
                }
                if self.actions[i].2 != ActionStatus::InProgress {
                    proof {
                        lemma_action_map_remove(self.actions@, i as int);
                    }
                    let _gone = self.actions.remove(i);
                    assert(self@ =~= spec_clear_action(m, post_id@, kind).0);
                }
            },
            None => {
                proof {
                    lemma_action_map_absent(self.actions@, (post_id@, kind));
                }
                assert(self@.actions =~= m.actions.remove((post_id@, kind)));
                assert(self@ =~= spec_clear_action(m, post_id@, kind).0);
            },
        }
        Vec::new()
    }

    /// `OpenSettings`: open the settings dialog on the saved values.
    pub fn open_settings(&mut self) -> (r: Vec<Effect>)
        requires
            old(self).wf(),
        ensures
            final(self).wf(),
            (final(self)@, effect_views(r@)) == spec_open_settings(old(self)@),
    {
        let ghost m = self@;
        self.settings_draft = self.settings.gelbooru_credentials.clone();
        self.settings_open = true;
        assert(self@ =~= spec_open_settings(m).0);
        let r = vec![Effect::FocusSettings];
        assert(effect_views(r@) =~= seq![EffectModel::FocusSettings]);
        r
    }

    /// `CloseSettings`: close the dialog, discarding the draft.
    pub fn close_settings(&mut self) -> (r: Vec<Effect>)
        requires
            old(self).wf(),
        ensures
            final(self).wf(),
            final(self)@ == (RibbModel { settings_open: false, ..old(self)@ }),
            r@.len() == 0,
    {
        let ghost m = self@;
        self.settings_open = false;
        assert(self@ =~= RibbModel { settings_open: false, ..m });
        Vec::new()
    }

    /// `SettingsDraftChanged`: the credentials being edited changed.
    pub fn settings_draft_changed(&mut self, value: String) -> (r: Vec<Effect>)
        requires
            old(self).wf(),
        ensures
            final(self).wf(),
            final(self)@ == (RibbModel { settings_draft: value@, ..old(self)@ }),
            r@.len() == 0,
    {
        let ghost m = self@;
        self.settings_draft = value;
        assert(self@ =~= RibbModel { settings_draft: value@, ..m });
        Vec::new()
    }

    /// `SaveSettings`: save the draft, configure the client with it and close.
    pub fn save_settings(&mut self) -> (r: Vec<Effect>)
        requires
            old(self).wf(),
        ensures
            final(self).wf(),
            (final(self)@, effect_views(r@)) == spec_save_settings(old(self)@),
    {
        let ghost m = self@;
        self.settings.gelbooru_credentials = self.settings_draft.clone();
        self.client.set_gelbooru_credentials(self.settings_draft.clone());
        self.settings_open = false;
        assert(self@ =~= spec_save_settings(m).0);
        let r = vec![
            Effect::SaveSettings(Settings { gelbooru_credentials: self.settings_draft.clone() }),
        ];
        assert(effect_views(r@) =~= seq![EffectModel::SaveSettings(m.settings_draft)]);
        r
    }
}

// ---------------------------------------------------------------------------
// Keyboard
// ---------------------------------------------------------------------------

/// A key, as far as the shortcuts are concerned.
#[derive(Debug, Clone)]
pub enum Key {
    ArrowDown,
    ArrowUp,
    ArrowLeft,
    ArrowRight,
    Escape,
    /// A key that types text, with that text.
    Character(String),
    Other,
}

/// A keyboard event, with whether Ctrl is held.
#[derive(Debug, Clone)]
pub enum KeyEvent {
    Pressed { key: Key, ctrl: bool },
    Released { ctrl: bool },
    ModifiersChanged { ctrl: bool },
}

pub open spec fn key_ctrl(ev: KeyEvent) -> bool {
    match ev {
        KeyEvent::Pressed { ctrl, .. } => ctrl,
        KeyEvent::Released { ctrl } => ctrl,
        KeyEvent::ModifiersChanged { ctrl } => ctrl,
    }
}

/// Whether `key` types exactly `c`.
pub open spec fn types(key: Key, c: Seq<char>) -> bool {
    key matches Key::Character(s) && s@ == c
}

/// After an interaction the search box takes the focus back, unless the
/// settings dialog holds it.
pub open spec fn spec_refocus<H>(r: (RibbModel<H>, Seq<EffectModel>)) -> (
    RibbModel<H>,
    Seq<EffectModel>,
) {
    if r.0.settings_open {
        r
    } else {
        (r.0, r.1.push(EffectModel::FocusSearch))
    }
}

/// A key event. The Ctrl state is recorded. While suggestions show, plain
/// Down and Up move the highlight (wrapping around) and Escape dismisses them.
/// Ctrl+T opens a tab, Ctrl+W closes the active one, Ctrl+H or Ctrl+Left and
/// Ctrl+L or Ctrl+Right switch tabs; each then gives the search box the focus.
pub open spec fn spec_handle_key<H>(m: RibbModel<H>, ev: KeyEvent) -> (RibbModel<H>, Seq<EffectModel>) {
    let m0 = RibbModel { ctrl: key_ctrl(ev), ..m };
    match ev {
        KeyEvent::Pressed { key, ctrl } => {
            let t = m0.tabs[m0.active];
            let len = t.autocomplete.len();
            if !ctrl && len > 0 && (key is ArrowDown || key is ArrowUp || key is Escape) {
                let t1 = if key is ArrowDown {
                    TabModel {
                        autocomplete_index: Some(
                            match t.autocomplete_index {
                                None => 0,
                                Some(i) => ((i + 1) % (len as int)) as usize,
                            },
                        ),
                        ..t
                    }
                } else if key is ArrowUp {
                    TabModel {
                        autocomplete_index: Some(
                            match t.autocomplete_index {
                                None => (len - 1) as usize,
                                Some(i) => if i == 0 {
                                    (len - 1) as usize
                                } else {
                                    (i - 1) as usize
                                },
                            },
                        ),
                        ..t
                    }
                } else {
                    TabModel { autocomplete: Seq::empty(), autocomplete_index: None, ..t }
                };
                (m0.set_tab(m0.active, t1), Seq::empty())
            } else if !ctrl {
                (m0, Seq::empty())
            } else if types(key, "t"@) {
                spec_refocus(spec_push_tab(m0, None, true))
            } else if types(key, "w"@) {
                spec_refocus(spec_close_tab(m0, u64::MAX))
            } else if types(key, "h"@) || key is ArrowLeft {
                spec_refocus(spec_switch_left(m0))
            } else if types(key, "l"@) || key is ArrowRight {
                spec_refocus(spec_switch_right(m0))
            } else {
                (m0, Seq::empty())
            }
        },
        _ => (m0, Seq::empty()),
    }
}

fn types_text(key: &Key, c: &str) -> (r: bool)
    ensures
        r == types(*key, c@),
{
    match key {
        Key::Character(s) => same_text(s.as_str(), c),
        _ => false,
    }
}

impl<H> Ribb<H> {
    /// Add the search box's refocus, unless the settings dialog is open.
    fn refocus(&self, r: Vec<Effect>) -> (out: Vec<Effect>)
        ensures
            (self@, effect_views(out@)) == spec_refocus((self@, effect_views(r@))),
    {
        let mut out = r;
        if !self.settings_open {
            let ghost before = effect_views(out@);
            out.push(Effect::FocusSearch);
            assert(effect_views(out@) =~= before.push(EffectModel::FocusSearch));
        }
        out
    }

    /// Move the active tab's suggestion highlight, or dismiss the suggestions.
    fn navigate_suggestions(&mut self, key: &Key)
        requires
            old(self).wf(),
            !old(self)@.ctrl,
            old(self)@.tabs[old(self)@.active].autocomplete.len() > 0,
            key is ArrowDown || key is ArrowUp || key is Escape,
        ensures
            final(self).wf(),
            final(self)@ == spec_handle_key(
                old(self)@,
                KeyEvent::Pressed { key: *key, ctrl: false },
            ).0,
    {
        let ghost m = self@;
        let i = self.active;
        let mut t = self.take_tab(i);
        let len = t.autocomplete.len();
        assert(len == m.tabs[i as int].autocomplete.len());
        match key {
            Key::ArrowDown => {
                t.autocomplete_index = Some(
                    match t.autocomplete_index {
                        None => 0,
                        Some(k) => (k + 1) % len,
                    },
                );
            },
            Key::ArrowUp => {
                t.autocomplete_index = Some(
                    match t.autocomplete_index {
                        None => len - 1,
                        Some(k) => if k == 0 {
                            len - 1
                        } else {
                            k - 1
                        },
                    },
                );
            },
            _ => {
                t.autocomplete = Vec::new();
                t.autocomplete_index = None;
                assert(tag_views(Seq::<BooruTag>::empty()) =~= Seq::<TagModel>::empty());
            },
        }
        self.put_tab(i, t);
        proof {
            assert(tab_views(self.tabs@) =~= m.tabs.update(i as int, t@));
            lemma_set_tab_wf(m, i as int, t@);
            assert(self@ =~= m.set_tab(i as int, t@));
        }
    }

    /// `Key`: a keyboard event (see [`spec_handle_key`]).
    pub fn handle_key(&mut self, event: KeyEvent) -> (r: Vec<Effect>)
        requires
            old(self).wf(),
        ensures
            final(self).wf(),
            (final(self)@, effect_views(r@)) == spec_handle_key(old(self)@, event),
    {
        let ghost m = self@;
        let ghost ev = event;
        let ctrl = match &event {
            KeyEvent::Pressed { ctrl, .. } => *ctrl,
            KeyEvent::Released { ctrl } => *ctrl,
            KeyEvent::ModifiersChanged { ctrl } => *ctrl,
        };
        self.ctrl = ctrl;
        assert(self@ =~= RibbModel { ctrl: key_ctrl(ev), ..m });
        assert(effect_views(Seq::<Effect>::empty()) =~= Seq::<EffectModel>::empty());
        let key = match event {
            KeyEvent::Pressed { key, .. } => key,
            _ => {
                return Vec::new();
            },
        };
        let i = self.active;
        let len = self.tabs[i].autocomplete.len();
        assert(self@.tabs[i as int] == self.tabs@[i as int]@);
        let nav = match &key {
            Key::ArrowDown | Key::ArrowUp | Key::Escape => true,
            _ => false,
        };
        if !ctrl && len > 0 && nav {
            self.navigate_suggestions(&key);
            return Vec::new();
        }
        if !ctrl {
            return Vec::new();
        }
        if types_text(&key, "t") {
            let r = self.push_tab(None, true);
            return self.refocus(r);
        }
        if types_text(&key, "w") {
            let r = self.close_tab(u64::MAX);
            return self.refocus(r);
        }
        let left = match &key {
            Key::ArrowLeft => true,
            _ => false,
        };
        let right = match &key {
            Key::ArrowRight => true,
            _ => false,
        };
        if types_text(&key, "h") || left {
            let r = self.switch_tab_left();
            return self.refocus(r);
        }
        if types_text(&key, "l") || right {
            let r = self.switch_tab_right();
            return self.refocus(r);
        }
        Vec::new()
    }
}

// ---------------------------------------------------------------------------
// Events
// ---------------------------------------------------------------------------

/// What happens to a session: the user's interactions and the answers to
/// the [`Effect`]s. `H` is the front end's handle for a decoded image.
#[derive(Debug)]
pub enum Message<H> {
    // Tabs
    NewTab,
    /// Close the tab with this id (`u64::MAX`: the active tab).
    CloseTab(u64),
    SelectTab(usize),
    SwitchTabLeft,
    SwitchTabRight,
    // Search / filters (act on the active tab)
    QueryChanged(String),
    SubmitSearch,
    /// Enter pressed in the search box: apply the highlighted suggestion if
    /// one is selected, otherwise submit the search.
    SearchEnter,
    NextPage,
    PrevPage,
    SiteSelected(Site),
    RatingSelected(RatingChoice),
    // Results
    PostsLoaded { tab: u64, generation: u64, attempt: u32, result: Result<PostsPage, String> },
    TagGroupsLoaded { tab: u64, post_id: String, groups: Vec<TagGroup> },
    AutocompleteLoaded { tab: u64, query_word: String, tags: Vec<BooruTag> },
    AutocompleteSelected(String),
    TogglePost(String),
    TagClicked(String),
    DownloadPost { post_id: String, url: String },
    /// A download ended: where the file went, or why it failed.
    DownloadFinished { post_id: String, result: Result<String, String> },
    CopyImage { post_id: String, url: String },
    /// A copy to the clipboard ended, and whether it stuck.
    CopyFinished { post_id: String, ok: bool },
    /// Revert a settled action button back to its idle state.
    ClearAction { post_id: String, kind: ActionKind },
    OpenExternal(String),
    // Images and media players
    ImageLoaded(String, ImageKind, Option<H>),
    /// A Flash player for the post is ready.
    SwfLoaded { tab: u64, post_id: String },
    /// A video player for the post is ready.
    VideoLoaded { tab: u64, post_id: String },
    // Settings
    OpenSettings,
    CloseSettings,
    /// Absorbs a click (e.g. on the settings card) so it doesn't propagate.
    Noop,
    SettingsDraftChanged(String),
    SaveSettings,
    // Input
    Key(KeyEvent),
    /// Current vertical scroll offset for a tab.
    ScrollChanged { tab: u64, y: u32 },
    /// Restore a tab's saved scroll offset after it becomes visible.
    RestoreScroll { tab: u64, y: u32 },
}

fn clone_result<T: Clone>(r: &Result<T, String>) -> (c: Result<T, String>)
    ensures
        match (*r, c) {
            (Ok(v), Ok(w)) => cloned(v, w),
            (Err(e), Err(f)) => f == e,
            _ => false,
        },
{
    match r {
        Ok(v) => Ok(v.clone()),
        Err(e) => Err(e.clone()),
    }
}

impl<H: Clone> Clone for Message<H> {
    fn clone(&self) -> Self {
        match self {
            Message::NewTab => Message::NewTab,
            Message::CloseTab(id) => Message::CloseTab(*id),
            Message::SelectTab(i) => Message::SelectTab(*i),
            Message::SwitchTabLeft => Message::SwitchTabLeft,
            Message::SwitchTabRight => Message::SwitchTabRight,
            Message::QueryChanged(v) => Message::QueryChanged(v.clone()),
            Message::SubmitSearch => Message::SubmitSearch,
            Message::SearchEnter => Message::SearchEnter,
            Message::NextPage => Message::NextPage,
            Message::PrevPage => Message::PrevPage,
            Message::SiteSelected(site) => Message::SiteSelected(*site),
            Message::RatingSelected(choice) => Message::RatingSelected(*choice),
            Message::PostsLoaded { tab, generation, attempt, result } => Message::PostsLoaded {
                tab: *tab,
                generation: *generation,
                attempt: *attempt,
                result: clone_result(result),
            },
            Message::TagGroupsLoaded { tab, post_id, groups } => Message::TagGroupsLoaded {
                tab: *tab,
                post_id: post_id.clone(),
                groups: groups.clone(),
            },
            Message::AutocompleteLoaded { tab, query_word, tags } => Message::AutocompleteLoaded {
                tab: *tab,
                query_word: query_word.clone(),
                tags: tags.clone(),
            },
            Message::AutocompleteSelected(v) => Message::AutocompleteSelected(v.clone()),
            Message::TogglePost(p) => Message::TogglePost(p.clone()),
            Message::TagClicked(t) => Message::TagClicked(t.clone()),
            Message::DownloadPost { post_id, url } => Message::DownloadPost {
                post_id: post_id.clone(),
                url: url.clone(),
            },
            Message::DownloadFinished { post_id, result } => Message::DownloadFinished {
                post_id: post_id.clone(),
                result: clone_result(result),
            },
            Message::CopyImage { post_id, url } => Message::CopyImage {
                post_id: post_id.clone(),
                url: url.clone(),
            },
            Message::CopyFinished { post_id, ok } => Message::CopyFinished {
                post_id: post_id.clone(),
                ok: *ok,
            },
            Message::ClearAction { post_id, kind } => Message::ClearAction {
                post_id: post_id.clone(),
                kind: *kind,
            },
            Message::OpenExternal(u) => Message::OpenExternal(u.clone()),
            Message::ImageLoaded(url, kind, image) => Message::ImageLoaded(
                url.clone(),
                *kind,
                image.clone(),
            ),
            Message::SwfLoaded { tab, post_id } => Message::SwfLoaded {
                tab: *tab,
                post_id: post_id.clone(),
            },
            Message::VideoLoaded { tab, post_id } => Message::VideoLoaded {
                tab: *tab,
                post_id: post_id.clone(),
            },
            Message::OpenSettings => Message::OpenSettings,
            Message::CloseSettings => Message::CloseSettings,
            Message::Noop => Message::Noop,
            Message::SettingsDraftChanged(v) => Message::SettingsDraftChanged(v.clone()),
            Message::SaveSettings => Message::SaveSettings,
            Message::Key(k) => Message::Key(k.clone()),
            Message::ScrollChanged { tab, y } => Message::ScrollChanged { tab: *tab, y: *y },
            Message::RestoreScroll { tab, y } => Message::RestoreScroll { tab: *tab, y: *y },
        }
    }
}

/// Interactions after which the focus snaps back to the search box: not the
/// settings dialog's own (it holds the focus while open) nor the background
/// answers, scrolls and typing.
pub open spec fn spec_wants_search_focus<H>(msg: Message<H>) -> bool {
    ||| msg is TogglePost
    ||| msg is TagClicked
    ||| msg is NextPage
    ||| msg is PrevPage
    ||| msg is SiteSelected
    ||| msg is RatingSelected
    ||| msg is NewTab
    ||| msg is CloseTab
    ||| msg is SelectTab
    ||| msg is SwitchTabLeft
    ||| msg is SwitchTabRight
    ||| msg is SubmitSearch
    ||| msg is OpenExternal
    ||| msg is DownloadPost
    ||| msg is CopyImage
    ||| msg is CloseSettings
    ||| msg is SaveSettings
}

/// `SearchEnter`: the highlighted suggestion is applied if there is one,
/// else the search is submitted (and the search box refocused).
pub open spec fn spec_search_enter<H>(m: RibbModel<H>) -> (RibbModel<H>, Seq<EffectModel>) {
    let t = m.tabs[m.active];
    match t.autocomplete_index {
        Some(k) if k < t.autocomplete.len() => spec_autocomplete_selected(m, t.autocomplete[k as int].value),
        _ => spec_refocus(spec_submit_search(m)),
    }
}

/// What each message does to the session, before the search box's refocus.
pub open spec fn spec_dispatch<H>(m: RibbModel<H>, msg: Message<H>) -> (RibbModel<H>, Seq<EffectModel>) {
    match msg {
        Message::NewTab => spec_push_tab(m, None, true),
        Message::CloseTab(id) => spec_close_tab(m, id),
        Message::SelectTab(i) => spec_select_tab(m, i as int),
        Message::SwitchTabLeft => spec_switch_left(m),
        Message::SwitchTabRight => spec_switch_right(m),
        Message::QueryChanged(v) => spec_query_changed(m, v@),
        Message::SubmitSearch => spec_submit_search(m),
        Message::SearchEnter => spec_search_enter(m),
        Message::NextPage => spec_next_page(m),
        Message::PrevPage => spec_prev_page(m),
        Message::SiteSelected(site) => spec_site_selected(m, site),
        Message::RatingSelected(choice) => spec_rating_selected(m, choice.0),
        Message::PostsLoaded { tab, generation, attempt, result } => spec_posts_loaded(
            m,
            tab,
            generation,
            attempt,
            result,
        ),
        Message::TagGroupsLoaded { tab, post_id, groups } => spec_tag_groups_loaded(
            m,
            tab,
            post_id@,
            group_views(groups@),
        ),
        Message::AutocompleteLoaded { tab, query_word, tags } => spec_autocomplete_loaded(
            m,
            tab,
            query_word@,
            tag_views(tags@),
        ),
        Message::AutocompleteSelected(v) => spec_autocomplete_selected(m, v@),
        Message::TogglePost(p) => spec_toggle_post(m, p@),
        Message::TagClicked(tag) => spec_tag_clicked(m, tag@),
        Message::DownloadPost { post_id, url } => spec_start_action(
            m,
            post_id@,
            ActionKind::Download,
            url@,
        ),
        Message::DownloadFinished { post_id, result } => spec_finish_action(
            m,
            post_id@,
            ActionKind::Download,
            result is Ok,
        ),
        Message::CopyImage { post_id, url } => spec_start_action(m, post_id@, ActionKind::Copy, url@),
        Message::CopyFinished { post_id, ok } => spec_finish_action(
            m,
            post_id@,
            ActionKind::Copy,
            ok,
        ),
        Message::ClearAction { post_id, kind } => spec_clear_action(m, post_id@, kind),
        Message::OpenExternal(url) => (m, seq![EffectModel::OpenExternal(url@)]),
        Message::ImageLoaded(url, kind, image) => (
            RibbModel { images: spec_finish_load(m.images, url@, kind, image), ..m },
            Seq::empty(),
        ),
        Message::SwfLoaded { tab, post_id } => spec_swf_loaded(m, tab, post_id@),
        Message::VideoLoaded { tab, post_id } => spec_video_loaded(m, tab, post_id@),
        Message::OpenSettings => spec_open_settings(m),
        Message::CloseSettings => (RibbModel { settings_open: false, ..m }, Seq::empty()),
        Message::Noop => (m, Seq::empty()),
        Message::SettingsDraftChanged(v) => (RibbModel { settings_draft: v@, ..m }, Seq::empty()),
        Message::SaveSettings => spec_save_settings(m),
        Message::Key(ev) => spec_handle_key(m, ev),
        Message::ScrollChanged { tab, y } => spec_scroll_changed(m, tab, y),
        Message::RestoreScroll { tab, y } => spec_restore_scroll(m, tab, y),
    }
}

/// What a message does to the session, with the search box's refocus.
pub open spec fn spec_update<H>(m: RibbModel<H>, msg: Message<H>) -> (RibbModel<H>, Seq<EffectModel>) {
    if spec_wants_search_focus(msg) {
        spec_refocus(spec_dispatch(m, msg))
    } else {
        spec_dispatch(m, msg)
    }
}

/// Whether the message is an interaction after which the search box takes
/// the focus back.
pub fn wants_search_focus<H>(msg: &Message<H>) -> (r: bool)
    ensures
        r == spec_wants_search_focus(*msg),
{
    match msg {
        Message::TogglePost(_) | Message::TagClicked(_) | Message::NextPage | Message::PrevPage
        | Message::SiteSelected(_) | Message::RatingSelected(_) | Message::NewTab
        | Message::CloseTab(_) | Message::SelectTab(_) | Message::SwitchTabLeft
        | Message::SwitchTabRight | Message::SubmitSearch | Message::OpenExternal(_)
        | Message::DownloadPost { .. } | Message::CopyImage { .. } | Message::CloseSettings
        | Message::SaveSettings => true,
        _ => false,
    }
}

impl<H> Ribb<H> {
    /// `SearchEnter`: apply the highlighted suggestion, or submit the search.
    fn search_enter(&mut self) -> (r: Vec<Effect>)
        requires
            old(self).wf(),
        ensures
            final(self).wf(),
            (final(self)@, effect_views(r@)) == spec_search_enter(old(self)@),
    {
        let i = self.active;
        assert(self@.tabs[i as int] == self.tabs@[i as int]@);
        let selected = match self.tabs[i].autocomplete_index {
            Some(k) => if k < self.tabs[i].autocomplete.len() {
                Some(self.tabs[i].autocomplete[k].value.clone())
            } else {
                None
            },
            None => None,
        };
        match selected {
            Some(v) => self.autocomplete_selected(v),
            None => {
                let r = self.submit_search();
                self.refocus(r)
            },
        }
    }

    /// Carry out a message, without the search box's refocus.
    #[verifier::rlimit(40)]
    fn dispatch(&mut self, msg: Message<H>) -> (r: Vec<Effect>)
        requires
            old(self).wf(),
        ensures
            final(self).wf(),
            (final(self)@, effect_views(r@)) == spec_dispatch(old(self)@, msg),
    {
        let ghost m = self@;
        match msg {
            Message::NewTab => self.push_tab(None, true),
            Message::CloseTab(id) => self.close_tab(id),
            Message::SelectTab(i) => self.select_tab(i),
            Message::SwitchTabLeft => self.switch_tab_left(),
            Message::SwitchTabRight => self.switch_tab_right(),
            Message::QueryChanged(v) => self.query_changed(v),
            Message::SubmitSearch => self.submit_search(),
            Message::SearchEnter => self.search_enter(),
            Message::NextPage => self.next_page(),
            Message::PrevPage => self.prev_page(),
            Message::SiteSelected(site) => self.site_selected(site),
            Message::RatingSelected(choice) => self.rating_selected(choice),
            Message::PostsLoaded { tab, generation, attempt, result } => self.posts_loaded(
                tab,
                generation,
                attempt,
                result,
            ),
            Message::TagGroupsLoaded { tab, post_id, groups } => self.tag_groups_loaded(
                tab,
                post_id,
                groups,
            ),
            Message::AutocompleteLoaded { tab, query_word, tags } => self.autocomplete_loaded(
                tab,
                query_word,
                tags,
            ),
            Message::AutocompleteSelected(v) => self.autocomplete_selected(v),
            Message::TogglePost(p) => self.toggle_post(p),
            Message::TagClicked(tag) => self.tag_clicked(tag),
            Message::DownloadPost { post_id, url } => self.start_action(
                post_id,
                ActionKind::Download,
                url,
            ),
            Message::DownloadFinished { post_id, result } => {
                let ok = result.is_ok();
                self.finish_action(post_id, ActionKind::Download, ok)
            },
            Message::CopyImage { post_id, url } => self.start_action(post_id, ActionKind::Copy, url),
            Message::CopyFinished { post_id, ok } => self.finish_action(
                post_id,
                ActionKind::Copy,
                ok,
            ),
            Message::ClearAction { post_id, kind } => self.clear_action(post_id, kind),
            Message::OpenExternal(url) => {
                let r = vec![Effect::OpenExternal(url)];
                assert(effect_views(r@) =~= seq![EffectModel::OpenExternal(url@)]);
                r
            },
            Message::ImageLoaded(url, kind, image) => {
                let r = self.image_loaded(url, kind, image);
                assert(effect_views(r@) =~= Seq::<EffectModel>::empty());
                r
            },
            Message::SwfLoaded { tab, post_id } => self.swf_loaded(tab, post_id),
            Message::VideoLoaded { tab, post_id } => self.video_loaded(tab, post_id),
            Message::OpenSettings => self.open_settings(),
            Message::CloseSettings => {
                let r = self.close_settings();
                assert(effect_views(r@) =~= Seq::<EffectModel>::empty());
                r
            },
            Message::Noop => {
                assert(effect_views(Seq::<Effect>::empty()) =~= Seq::<EffectModel>::empty());
                Vec::new()
            },
            Message::SettingsDraftChanged(v) => {
                let r = self.settings_draft_changed(v);
                assert(effect_views(r@) =~= Seq::<EffectModel>::empty());
                r
            },
            Message::SaveSettings => self.save_settings(),
            Message::Key(ev) => self.handle_key(ev),
            Message::ScrollChanged { tab, y } => self.scroll_changed(tab, y),
            Message::RestoreScroll { tab, y } => self.restore_scroll(tab, y),
        }
    }

    /// Carry out a message: the session moves as [`spec_update`] says and the
    /// effects returned are the front end's to perform.
    pub fn update(&mut self, msg: Message<H>) -> (r: Vec<Effect>)
        requires
            old(self).wf(),
        ensures
            final(self).wf(),
            (final(self)@, effect_views(r@)) == spec_update(old(self)@, msg),
    {
        let refocus_search = wants_search_focus(&msg);
        let r = self.dispatch(msg);
        if refocus_search {
            self.refocus(r)
        } else {
            r
        }
    }
}

// ---------------------------------------------------------------------------
// Start-up and display helpers
// ---------------------------------------------------------------------------

/// A search started with the session: the first tab searches `q` over every
/// rating.
pub open spec fn spec_start_search<H>(m: RibbModel<H>, q: Seq<char>) -> (RibbModel<H>, Seq<EffectModel>) {
    spec_fetch_tab(
        m.set_tab(
            0,
            TabModel { query: Some(q), temp_query: q, title: title_of(q), rating: None, ..m.tabs[0] },
        ),
        0,
    )
}

impl<H> Ribb<H> {
    /// Search `q` in the first tab, unfiltered (used to exercise the fetch
    /// path when the session starts with a search).
    pub fn start_search(&mut self, q: String) -> (r: Vec<Effect>)
        requires
            old(self).wf(),
        ensures
            final(self).wf(),
            (final(self)@, effect_views(r@)) == spec_start_search(old(self)@, q@),
    {
        let ghost m = self@;
        let mut t = self.take_tab(0);
        t.query = Some(q.clone());
        t.temp_query = q.clone();
        t.title = title_for(&q);
        t.rating = None;
        self.put_tab(0, t);
        proof {
            assert(tab_views(self.tabs@) =~= m.tabs.update(0, t@));
            lemma_set_tab_wf(m, 0, t@);
            assert(self@ =~= m.set_tab(0, t@));
        }
        self.fetch_tab(0)
    }

    /// Whether the visible tab plays a video, so the front end should drive
    /// per-frame redraws.
    pub fn wants_frames(&self) -> (b: bool)
        requires
            self.wf(),
        ensures
            b == (self@.tabs[self@.active].video.len() > 0),
    {
        assert(self@.tabs[self@.active] == self.tabs@[self.active as int]@);
        self.tabs[self.active].video.len() > 0
    }
}

/// The post a tab is focused on (its detail replaces the grid), if any.
pub fn focused_post(tab: &Tab) -> (r: Option<&BooruPost>)
    ensures
        match tab@.focused {
            None => r is None,
            Some(id) => match find_post(tab@.posts, id) {
                None => r is None,
                Some(k) => r matches Some(p) && p@ == tab@.posts[k],
            },
        },
{
    match &tab.focused {
        Some(id) => match post_position(&tab.posts, id.as_str()) {
            Some(k) => Some(&tab.posts[k]),
            None => None,
        },
        None => None,
    }
}

/// The image to put on the clipboard for a post's encoded image bytes:
/// decoded to RGBA8 at full size.
pub fn clipboard_image(bytes: &[u8]) -> (r: Option<ClipboardImage>)
    ensures
        match decoded_rgba(bytes@) {
            None => r is None,
            Some((w, h, px)) => r matches Some(c) && c.spec_width() == w && c.spec_height() == h
                && c.spec_rgba() == px && px.len() == 4 * w * h,
        },
{
    match load_image(bytes) {
        Some(img) => {
            let d = rgba_of(img);
            Some(ClipboardImage::new(d.width as usize, d.height as usize, d.rgba))
        },
        None => None,
    }
}

// ---------------------------------------------------------------------------
// Laws of the session
// ---------------------------------------------------------------------------

/// In a session whose tab ids are distinct, a tab's id finds that tab.
pub proof fn lemma_find_own_tab<H>(m: RibbModel<H>, i: int)
    requires
        model_wf(m),
        0 <= i < m.tabs.len(),
    ensures
        find_tab(m.tabs, m.tabs[i].id) == Some(i),
{
    lemma_find_tab(m.tabs, m.tabs[i].id);
    match find_tab(m.tabs, m.tabs[i].id) {
        Some(j) => {
            if j < i {
                assert(m.tabs[j].id != m.tabs[i].id);
            } else if i < j {
                assert(m.tabs[i].id != m.tabs[j].id);
            }
        },
        None => {},
    }
}

/// An answer to a superseded fetch changes nothing: whatever it carries,
/// when its generation is not the tab's current one the session stays as it
/// is and nothing is asked of the front end.
pub proof fn lemma_stale_posts_ignored<H>(
    m: RibbModel<H>,
    i: int,
    generation: u64,
    attempt: u32,
    result: Result<PostsPage, String>,
)
    requires
        model_wf(m),
        0 <= i < m.tabs.len(),
        m.tabs[i].generation != generation,
    ensures
        spec_posts_loaded(m, m.tabs[i].id, generation, attempt, result) == (m, Seq::<EffectModel>::empty()),
{
    lemma_find_own_tab(m, i);
}

/// A new search supersedes the one in flight: after `SubmitSearch`, an
/// answer to the fetch that was running before is dropped.
pub proof fn lemma_submit_supersedes<H>(
    m: RibbModel<H>,
    attempt: u32,
    result: Result<PostsPage, String>,
)
    requires
        model_wf(m),
        m.tabs[m.active].generation < u64::MAX,
    ensures
        ({
            let t = m.tabs[m.active];
            let (m1, _) = spec_submit_search(m);
            &&& model_wf(m1)
            &&& spec_posts_loaded(m1, t.id, t.generation, attempt, result) == (m1, Seq::<EffectModel>::empty())
        }),
{
    let a = m.active;
    let t = m.tabs[a];
    let t1 = TabModel {
        query: Some(t.temp_query),
        title: title_of(t.temp_query),
        page: 0,
        scroll_y: 0,
        autocomplete: Seq::empty(),
        autocomplete_index: None,
        ..t
    };
    lemma_set_tab_wf(m, a, t1);
    let m0 = m.set_tab(a, t1);
    let (m1, _) = spec_fetch_tab(m0, a);
    lemma_set_tab_wf(m0, a, m1.tabs[a]);
    assert(m1 == m0.set_tab(a, m1.tabs[a]));
    lemma_stale_posts_ignored(m1, a, t.generation, attempt, result);
}

/// Suggestions never reopen over a search just submitted: after
/// `SubmitSearch`, a late autocomplete answer for the active tab is dropped.
pub proof fn lemma_submit_drops_late_suggestions<H>(
    m: RibbModel<H>,
    query_word: Seq<char>,
    tags: Seq<TagModel>,
)
    requires
        model_wf(m),
    ensures
        ({
            let (m1, _) = spec_submit_search(m);
            spec_autocomplete_loaded(m1, m.tabs[m.active].id, query_word, tags) == (m1, Seq::<EffectModel>::empty())
        }),
{
    let a = m.active;
    let t = m.tabs[a];
    let t1 = TabModel {
        query: Some(t.temp_query),
        title: title_of(t.temp_query),
        page: 0,
        scroll_y: 0,
        autocomplete: Seq::empty(),
        autocomplete_index: None,
        ..t
    };
    lemma_set_tab_wf(m, a, t1);
    let m0 = m.set_tab(a, t1);
    let (m1, _) = spec_fetch_tab(m0, a);
    lemma_set_tab_wf(m0, a, m1.tabs[a]);
    assert(m1 == m0.set_tab(a, m1.tabs[a]));
    lemma_find_own_tab(m1, a);
}

/// Focus mode is a round trip: focusing a post from the grid starts its view
/// at the top, and toggling it again leaves focus mode with the grid's scroll
/// offset back where it was.
pub proof fn lemma_focus_round_trip<H>(m: RibbModel<H>, post_id: Seq<char>)
    requires
        model_wf(m),
        m.tabs[m.active].focused is None,
        find_post(m.tabs[m.active].posts, post_id) is Some,
    ensures
        ({
            let a = m.active;
            let (m1, _) = spec_toggle_post(m, post_id);
            let (m2, _) = spec_toggle_post(m1, post_id);
            &&& m1.active == a && m2.active == a
            &&& m1.tabs[a].focused == Some(post_id)
            &&& m1.tabs[a].scroll_y == 0
            &&& m2.tabs[a].focused is None
            &&& m2.tabs[a].scroll_y == m.tabs[a].scroll_y
            &&& m2.tabs[a].posts == m.tabs[a].posts
        }),
{
    reveal(spec_toggle_post);
    reveal(spec_focus_media);
}

/// Clicking a tag that is not in the search box adds it as the last word,
/// and clicking it again takes it out: the box's words are back as they were
/// (joined by single spaces).
pub proof fn lemma_tag_click_round_trip<H>(m: RibbModel<H>, tag: Seq<char>)
    requires
        model_wf(m),
        !m.ctrl,
        is_word(tag),
        !words(m.tabs[m.active].temp_query).contains(tag),
    ensures
        ({
            let a = m.active;
            let ws = words(m.tabs[a].temp_query);
            let (m1, e1) = spec_tag_clicked(m, tag);
            let (m2, e2) = spec_tag_clicked(m1, tag);
            &&& words(m1.tabs[a].temp_query) == ws.push(tag)
            &&& m2.tabs[a].temp_query == join_spaced(ws)
            &&& words(m2.tabs[a].temp_query) == ws
            &&& e1.len() == 0 && e2.len() == 0
        }),
{
    let a = m.active;
    let ws = words(m.tabs[a].temp_query);
    lemma_words_are_words(m.tabs[a].temp_query);
    lemma_first_index(ws, tag);
    assert(first_index(ws, tag) is None) by {
        if first_index(ws, tag) is Some {
            let k = first_index(ws, tag)->0;
            assert(ws[k] == tag);
        }
    }
    let w1 = ws.push(tag);
    assert forall|i: int| 0 <= i < w1.len() implies is_word(#[trigger] w1[i]) by {
        if i < ws.len() {
            assert(w1[i] == ws[i]);
        }
    }
    lemma_words_of_join(w1);
    assert(toggle_word(ws, tag) == w1);
    let (m1, _) = spec_tag_clicked(m, tag);
    assert(m1.tabs[a].temp_query == join_spaced(w1));
    lemma_first_index(w1, tag);
    assert(first_index(w1, tag) == Some(ws.len() as int)) by {
        if first_index(w1, tag) is Some {
            let k = first_index(w1, tag)->0;
            if k < ws.len() {
                assert(w1[k] == ws[k]);
            }
        }
    }
    assert(w1.remove(ws.len() as int) =~= ws);
    lemma_words_of_join(ws);
}

/// A button's action in progress survives a clear meant for its previous
/// run: starting an action and then clearing it leaves it in progress.
pub proof fn lemma_clear_keeps_in_progress<H>(
    m: RibbModel<H>,
    post_id: Seq<char>,
    kind: ActionKind,
    url: Seq<char>,
)
    ensures
        ({
            let (m1, _) = spec_start_action(m, post_id, kind, url);
            let (m2, e) = spec_clear_action(m1, post_id, kind);
            &&& m2 == m1
            &&& e.len() == 0
            &&& m2.actions[(post_id, kind)] == ActionStatus::InProgress
        }),
{
}

/// A settled action shows its outcome until cleared, and clearing it makes
/// the button idle again; other buttons are untouched.
pub proof fn lemma_settled_then_cleared<H>(
    m: RibbModel<H>,
    post_id: Seq<char>,
    kind: ActionKind,
    ok: bool,
)
    ensures
        ({
            let (m1, e1) = spec_finish_action(m, post_id, kind, ok);
            let (m2, _) = spec_clear_action(m1, post_id, kind);
            &&& m1.actions[(post_id, kind)] == settled(ok)
            &&& e1 == seq![EffectModel::ClearActionLater { post_id, kind }]
            &&& !m2.actions.contains_key((post_id, kind))
            &&& m2.actions == m.actions.remove((post_id, kind))
        }),
{
    let (m1, _) = spec_finish_action(m, post_id, kind, ok);
    assert(m1.actions.remove((post_id, kind)) =~= m.actions.remove((post_id, kind)));
}

/// Switching to the next tab and back returns to the tab one started on.
pub proof fn lemma_switch_round_trip<H>(m: RibbModel<H>)
    requires
        model_wf(m),
    ensures
        ({
            let (m1, _) = spec_switch_right(m);
            let (m2, _) = spec_switch_left(m1);
            m2.active == m.active && m2.tabs == m.tabs
        }),
{
    let len = m.tabs.len();
    if len > 1 {
        if m.active + 1 < len {
            vstd::arithmetic::div_mod::lemma_small_mod((m.active + 1) as nat, len as nat);
        } else {
            vstd::arithmetic::div_mod::lemma_mod_self_0(len as int);
        }
    }
}

/// Moving the suggestion highlight down and then up returns it to where it
/// was (the highlight wraps around at both ends).
pub proof fn lemma_highlight_round_trip<H>(m: RibbModel<H>)
    requires
        model_wf(m),
        0 < m.tabs[m.active].autocomplete.len() <= usize::MAX,
        m.tabs[m.active].autocomplete_index is Some,
    ensures
        ({
            let down = KeyEvent::Pressed { key: Key::ArrowDown, ctrl: false };
            let up = KeyEvent::Pressed { key: Key::ArrowUp, ctrl: false };
            let (m1, _) = spec_handle_key(m, down);
            let (m2, _) = spec_handle_key(m1, up);
            m2.tabs[m.active].autocomplete_index == m.tabs[m.active].autocomplete_index
        }),
{
    let a = m.active;
    let len = m.tabs[a].autocomplete.len();
    let i = m.tabs[a].autocomplete_index->0;
    assert(i < len);
    if i + 1 < len {
        vstd::arithmetic::div_mod::lemma_small_mod((i + 1) as nat, len as nat);
    } else {
        vstd::arithmetic::div_mod::lemma_mod_self_0(len as int);
    }
    let down = KeyEvent::Pressed { key: Key::ArrowDown, ctrl: false };
    let (m1, _) = spec_handle_key(m, down);
    assert(m1.tabs[a].autocomplete == m.tabs[a].autocomplete);
    assert(m1.active == a);
}

/// Whether `e` asks for page `page` of the search `tags` for tab `tab`.
pub open spec fn fetches_page(e: EffectModel, tab: u64, tags: Seq<char>, page: int) -> bool {
    e matches EffectModel::FetchPosts { tab: id, query, .. } && id == tab && query.page == page
        && query.tags == tags
}

/// Going back a page: a tab past its first page moves to the page before it,
/// scrolled to the top, stays the active tab and keeps its search, and, when
/// it has a search, a fetch of that page for that tab is asked for. The other
/// tabs are untouched.
pub proof fn lemma_prev_page_steps_back<H>(m: RibbModel<H>)
    requires
        model_wf(m),
        m.tabs[m.active].page > 0,
    ensures
        ({
            let a = m.active;
            let t = m.tabs[a];
            let (m1, e) = spec_update(m, Message::PrevPage);
            &&& m1.active == a
            &&& m1.tabs.len() == m.tabs.len()
            &&& m1.tabs[a].page == t.page - 1
            &&& m1.tabs[a].scroll_y == 0
            &&& m1.tabs[a].query == t.query
            &&& m1.tabs[a].id == t.id
            &&& forall|j: int| 0 <= j < m.tabs.len() && j != a ==> #[trigger] m1.tabs[j] == m.tabs[j]
            &&& t.query is Some ==> exists|k: int|
                0 <= k < e.len() && #[trigger] fetches_page(e[k], t.id, t.query->0, t.page - 1)
        }),
{
    let a = m.active;
    let t = m.tabs[a];
    let (m1, e) = spec_update(m, Message::PrevPage);
    if t.query is Some {
        assert(fetches_page(e[1], t.id, t.query->0, t.page - 1));
    }
}

/// Going forward a page: a tab with a next page moves to the page after its
/// own, scrolled to the top, and, when it has a search, a fetch of that page
/// is asked for; going back then returns it to the page it was on.
pub proof fn lemma_next_then_prev_page<H>(m: RibbModel<H>)
    requires
        model_wf(m),
        m.tabs[m.active].has_next_page,
        m.tabs[m.active].page < u32::MAX,
    ensures
        ({
            let a = m.active;
            let t = m.tabs[a];
            let (m1, e) = spec_update(m, Message::NextPage);
            let (m2, _) = spec_update(m1, Message::PrevPage);
            &&& m1.active == a
            &&& m1.tabs.len() == m.tabs.len()
            &&& m1.tabs[a].page == t.page + 1
            &&& m1.tabs[a].scroll_y == 0
            &&& m1.tabs[a].query == t.query
            &&& forall|j: int| 0 <= j < m.tabs.len() && j != a ==> #[trigger] m1.tabs[j] == m.tabs[j]
            &&& t.query is Some ==> exists|k: int|
                0 <= k < e.len() && #[trigger] fetches_page(e[k], t.id, t.query->0, t.page + 1)
            &&& m2.active == a
            &&& m2.tabs[a].page == t.page
        }),
{
    let a = m.active;
    let t = m.tabs[a];
    let (m1, e) = spec_update(m, Message::NextPage);
    if t.query is Some {
        assert(fetches_page(e[1], t.id, t.query->0, t.page + 1));
    }
}

/// Plain keys while suggestions show: Down highlights the next suggestion
/// (the first when none is highlighted) and Up the previous one (the last when
/// none is), both wrapping around and staying within the list; Escape
/// dismisses the suggestions; any other plain key changes nothing but the
/// recorded Ctrl state. No other tab changes, and nothing is asked of the
/// front end.
pub proof fn lemma_suggestion_keys<H>(m: RibbModel<H>, key: Key)
    requires
        model_wf(m),
        0 < m.tabs[m.active].autocomplete.len() <= usize::MAX,
    ensures
        ({
            let a = m.active;
            let t = m.tabs[a];
            let n = t.autocomplete.len() as int;
            let (m1, e) = spec_handle_key(m, KeyEvent::Pressed { key, ctrl: false });
            &&& e == Seq::<EffectModel>::empty()
            &&& m1 == RibbModel { ctrl: false, tabs: m1.tabs, ..m }
            &&& m1.tabs.len() == m.tabs.len()
            &&& forall|j: int| 0 <= j < m.tabs.len() && j != a ==> #[trigger] m1.tabs[j] == m.tabs[j]
            &&& key is ArrowDown ==> {
                &&& m1.tabs[a] == TabModel {
                    autocomplete_index: Some(
                        match t.autocomplete_index {
                            None => 0,
                            Some(i) => ((i + 1) % n) as usize,
                        },
                    ),
                    ..t
                }
                &&& m1.tabs[a].autocomplete_index->0 < n
            }
            &&& key is ArrowUp ==> {
                &&& m1.tabs[a] == TabModel {
                    autocomplete_index: Some(
                        match t.autocomplete_index {
                            None => (n - 1) as usize,
                            Some(i) => ((i + n - 1) % n) as usize,
                        },
                    ),
                    ..t
                }
                &&& m1.tabs[a].autocomplete_index->0 < n
            }
            &&& key is Escape ==> m1.tabs[a] == TabModel {
                autocomplete: Seq::empty(),
                autocomplete_index: None,
                ..t
            }
            &&& !(key is ArrowDown || key is ArrowUp || key is Escape) ==> m1 == RibbModel {
                ctrl: false,
                ..m
            }
        }),
{
    let a = m.active;
    let t = m.tabs[a];
    let n = t.autocomplete.len() as int;
    if let Some(i) = t.autocomplete_index {
        assert(i < n);
        if i + 1 < n {
            vstd::arithmetic::div_mod::lemma_small_mod((i + 1) as nat, n as nat);
        } else {
            vstd::arithmetic::div_mod::lemma_mod_self_0(n);
        }
        if i == 0 {
            vstd::arithmetic::div_mod::lemma_small_mod((n - 1) as nat, n as nat);
        } else {
            vstd::arithmetic::div_mod::lemma_fundamental_div_mod_converse(i + n - 1, n, 1, i - 1);
        }
    }
    let (m1, _) = spec_handle_key(m, KeyEvent::Pressed { key, ctrl: false });
    assert(m1.tabs.len() == m.tabs.len());
}

/// Closing the only tab is refused: the tab and the active index stay.
pub proof fn lemma_last_tab_stays<H>(m: RibbModel<H>, id: u64)
    requires
        m.tabs.len() == 1,
    ensures
        ({
            let (m1, _) = spec_update(m, Message::CloseTab(id));
            m1.tabs == m.tabs && m1.active == m.active
        }),
{
}

/// Saved settings are what the dialog shows when opened again, and what the
/// requests are made with.
pub proof fn lemma_save_then_open<H>(m: RibbModel<H>)
    ensures
        ({
            let (m1, e1) = spec_save_settings(m);
            let (m2, _) = spec_open_settings(m1);
            &&& m2.settings_draft == m.settings_draft
            &&& m1.credentials == m.settings_draft
            &&& e1 == seq![EffectModel::SaveSettings(m.settings_draft)]
            &&& m2.settings_open
        }),
{
}

// ---------------------------------------------------------------------------
// Action button bookkeeping
// ---------------------------------------------------------------------------

proof fn lemma_action_map_index(v: Seq<(String, ActionKind, ActionStatus)>, i: int)
    requires
        distinct_actions(v),
        0 <= i < v.len(),
    ensures
        action_map(v).contains_key((v[i].0@, v[i].1)),
        action_map(v)[(v[i].0@, v[i].1)] == v[i].2,
    decreases v.len(),
{
    if i < v.len() - 1 {
        assert(v.drop_last()[i] == v[i]);
        lemma_action_map_index(v.drop_last(), i);
    }
}

proof fn lemma_action_map_absent(v: Seq<(String, ActionKind, ActionStatus)>, k: (Seq<char>, ActionKind))
    requires
        forall|i: int| 0 <= i < v.len() ==> ((#[trigger] v[i]).0@, v[i].1) != k,
    ensures
        !action_map(v).contains_key(k),
    decreases v.len(),
{
    if v.len() > 0 {
        assert forall|i: int| 0 <= i < v.drop_last().len() implies ((
        #[trigger] v.drop_last()[i]).0@, v.drop_last()[i].1) != k by {
            assert(v.drop_last()[i] == v[i]);
        }
        lemma_action_map_absent(v.drop_last(), k);
        assert((v[v.len() - 1].0@, v[v.len() - 1].1) != k);
    }
}

proof fn lemma_action_map_update(
    v: Seq<(String, ActionKind, ActionStatus)>,
    i: int,
    e: (String, ActionKind, ActionStatus),
)
    requires
        distinct_actions(v),
        0 <= i < v.len(),
        e.0@ == v[i].0@,
        e.1 == v[i].1,
    ensures
        distinct_actions(v.update(i, e)),
        action_map(v.update(i, e)) == action_map(v).insert((e.0@, e.1), e.2),
    decreases v.len(),
{
    let w = v.update(i, e);
    assert forall|a: int, b: int| 0 <= a < b < w.len() implies ((#[trigger] w[a]).0@, w[a].1) != (
    (#[trigger] w[b]).0@, w[b].1) by {
        assert(w[a].0@ == v[a].0@ && w[a].1 == v[a].1);
        assert(w[b].0@ == v[b].0@ && w[b].1 == v[b].1);
    }
    if i == v.len() - 1 {
        assert(w.drop_last() =~= v.drop_last());
        assert(action_map(w) =~= action_map(v).insert((e.0@, e.1), e.2));
    } else {
        assert(w.drop_last() =~= v.drop_last().update(i, e));
        lemma_action_map_update(v.drop_last(), i, e);
        assert((v[i].0@, v[i].1) != (v.last().0@, v.last().1));
        assert(action_map(w) =~= action_map(v).insert((e.0@, e.1), e.2));
    }
}

proof fn lemma_action_map_remove(v: Seq<(String, ActionKind, ActionStatus)>, i: int)
    requires
        distinct_actions(v),
        0 <= i < v.len(),
    ensures
        distinct_actions(v.remove(i)),
        action_map(v.remove(i)) == action_map(v).remove((v[i].0@, v[i].1)),
    decreases v.len(),
{
    let w = v.remove(i);
    let k = (v[i].0@, v[i].1);
    assert forall|a: int, b: int| 0 <= a < b < w.len() implies ((#[trigger] w[a]).0@, w[a].1) != (
    (#[trigger] w[b]).0@, w[b].1) by {
        let a2 = if a < i {
            a
        } else {
            a + 1
        };
        let b2 = if b < i {
            b
        } else {
            b + 1
        };
        assert(w[a] == v[a2] && w[b] == v[b2]);
    }
    if i == v.len() - 1 {
        assert(w =~= v.drop_last());
        assert forall|j: int| 0 <= j < w.len() implies ((#[trigger] w[j]).0@, w[j].1) != k by {
            assert(w[j] == v[j]);
        }
        lemma_action_map_absent(w, k);
        assert(action_map(w) =~= action_map(v).remove(k));
    } else {
        assert(w.drop_last() =~= v.drop_last().remove(i));
        assert(w.last() == v.last());
        lemma_action_map_remove(v.drop_last(), i);
        assert(k != (v.last().0@, v.last().1));
        assert(action_map(w) =~= action_map(v).remove(k));
    }
}

fn action_position(v: &Vec<(String, ActionKind, ActionStatus)>, post_id: &str, kind: ActionKind) -> (r:
    Option<usize>)
    ensures
        match r {
            Some(i) => i < v@.len() && v@[i as int].0@ == post_id@ && v@[i as int].1 == kind,
            None => forall|i: int| 0 <= i < v@.len() ==> ((#[trigger] v@[i]).0@, v@[i].1) != (
            post_id@, kind),
        },
{
    let mut i: usize = 0;
    while i < v.len()
        invariant
            i <= v@.len(),
            forall|j: int| 0 <= j < i ==> ((#[trigger] v@[j]).0@, v@[j].1) != (post_id@, kind),
        decreases v.len() - i,
    {
        if v[i].1 == kind && same_text(v[i].0.as_str(), post_id) {
            return Some(i);
        }
        i = i + 1;
    }
    None
}

fn set_action(v: &mut Vec<(String, ActionKind, ActionStatus)>, post_id: String, kind: ActionKind, s: ActionStatus)
    requires
        distinct_actions(old(v)@),
    ensures
        distinct_actions(final(v)@),
        action_map(final(v)@) == action_map(old(v)@).insert((post_id@, kind), s),
{
    match action_position(v, post_id.as_str(), kind) {
        Some(i) => {
            proof {
                lemma_action_map_update(v@, i as int, (post_id, kind, s));
            }
            v.set(i, (post_id, kind, s));
        },
        None => {
            let ghost before = v@;
            v.push((post_id, kind, s));
            assert(v@.drop_last() =~= before);
            assert forall|a: int, b: int| 0 <= a < b < v@.len() implies ((#[trigger] v@[a]).0@, v@[
                a].1) != ((#[trigger] v@[b]).0@, v@[b].1) by {
                assert(v@[a] == before[a]);
                if b < before.len() {
                    assert(v@[b] == before[b]);
                }
            }
        },
    }
}

} // verus!
