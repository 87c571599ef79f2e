//! The session state machine, driven by messages as the front end drives it.

use ribb::app::{
    last_word, preview_url, ActionKind, ActionStatus, Effect, Key, KeyEvent, Message, Ribb,
    RatingChoice,
};
use ribb::booru::{BooruPost, BooruTag, PostsPage, Rating, Site, TagCategory};
use ribb::cache::{ImageKind, ImageState};
use ribb::download::{download_filename, filename_for, sanitize_extension};
use ribb::settings::Settings;
use ribb::view::format_count;

fn post(id: &str, file_url: &str) -> BooruPost {
    BooruPost {
        id: id.into(),
        post_view: String::new(),
        tags: vec![],
        tag_groups: vec![],
        file_url: file_url.into(),
        preview_url: String::new(),
        sample_url: None,
        width: 100,
        height: 100,
        rating: "general".into(),
        created_at: String::new(),
    }
}

fn session() -> Ribb<u32> {
    Ribb::new(Settings::default())
}

fn load(app: &mut Ribb<u32>, posts: Vec<BooruPost>) -> Vec<Effect> {
    let tab = app.active_tab().id;
    let generation = app.active_tab().generation;
    app.update(Message::PostsLoaded {
        tab,
        generation,
        attempt: 0,
        result: Ok(PostsPage { posts, has_next_page: true }),
    })
}

fn tag(value: &str) -> BooruTag {
    BooruTag { label: value.into(), value: value.into(), category: TagCategory::General, post_count: None }
}

#[test]
fn last_word_extracts_active_word() {
    assert_eq!(last_word("landscape"), "landscape");
    assert_eq!(last_word("blue sky land"), "land");
    assert_eq!(last_word("a  b"), "b");
    assert_eq!(last_word("blue "), ""); // trailing space => no active word
    assert_eq!(last_word(""), "");
}

#[test]
fn format_count_humanizes() {
    assert_eq!(format_count(5), "5");
    assert_eq!(format_count(1_500), "1.5k");
    assert_eq!(format_count(2_500_000), "2.5m");
}

#[test]
fn preview_url_skips_placeholder_and_non_images() {
    let post = BooruPost {
        id: "1".into(),
        post_view: String::new(),
        tags: vec![],
        tag_groups: vec![],
        file_url: "https://x/a.webm".into(),
        preview_url: "https://cdn.donmai.us/images/flash-preview.png".into(),
        sample_url: Some("https://x/s.jpg".into()),
        width: 0,
        height: 0,
        rating: "general".into(),
        created_at: String::new(),
    };
    // Sample (image) wins over the blacklisted preview and the webm file.
    assert_eq!(preview_url(&post).as_deref(), Some("https://x/s.jpg"));
}

#[test]
fn focus_mode_starts_at_top_and_restores_grid_scroll() {
    let mut app = session();
    let y = 420.0f32.to_bits();
    load(&mut app, vec![post("1", "https://x/a.bin")]);
    app.update(Message::ScrollChanged { tab: 0, y });

    let _ = app.toggle_post("1".into());
    assert_eq!(app.tabs()[0].focused.as_deref(), Some("1"));
    assert_eq!(f32::from_bits(app.tabs()[0].grid_scroll_y), 420.0);
    assert_eq!(f32::from_bits(app.tabs()[0].scroll_y), 0.0);

    let _ = app.toggle_post("1".into());
    assert_eq!(app.tabs()[0].focused, None);
    assert_eq!(f32::from_bits(app.tabs()[0].scroll_y), 420.0);
}

#[test]
fn action_status_transitions() {
    let mut app = session();
    let pid = "123".to_string();
    let url = "https://x/a.jpg".to_string();

    // idle -> in progress on click
    assert_eq!(app.action(&pid, ActionKind::Download), None);
    let _ = app.update(Message::DownloadPost { post_id: pid.clone(), url: url.clone() });
    assert_eq!(app.action(&pid, ActionKind::Download), Some(ActionStatus::InProgress));

    // success -> done, then ClearAction reverts to idle
    let _ = app.update(Message::DownloadFinished {
        post_id: pid.clone(),
        result: Ok("/tmp/a.jpg".into()),
    });
    assert_eq!(app.action(&pid, ActionKind::Download), Some(ActionStatus::Done));
    let _ = app.update(Message::ClearAction { post_id: pid.clone(), kind: ActionKind::Download });
    assert_eq!(app.action(&pid, ActionKind::Download), None);

    // failure -> failed
    let _ = app.update(Message::DownloadFinished { post_id: pid.clone(), result: Err("boom".into()) });
    assert_eq!(app.action(&pid, ActionKind::Download), Some(ActionStatus::Failed));

    // a stale ClearAction must not wipe a freshly re-started action
    let _ = app.update(Message::DownloadPost { post_id: pid.clone(), url });
    assert_eq!(app.action(&pid, ActionKind::Download), Some(ActionStatus::InProgress));
    let _ = app.update(Message::ClearAction { post_id: pid.clone(), kind: ActionKind::Download });
    assert_eq!(app.action(&pid, ActionKind::Download), Some(ActionStatus::InProgress));
}

#[test]
fn download_filename_uses_post_id_and_url_extension() {
    assert_eq!(
        download_filename("14182743", "https://img.example/post/file.jpeg?download=1"),
        "14182743.jpeg"
    );
    assert_eq!(download_filename("42", "not a url"), "42.bin");
}

// ---------------------------------------------------------------------------
// Further cases
// ---------------------------------------------------------------------------

#[test]
fn download_filename_edge_cases() {
    assert_eq!(download_filename("7", "https://x/a"), "7.bin");
    assert_eq!(download_filename("7", "https://x/a.tar.gz"), "7.gz");
    assert_eq!(download_filename("7", "https://x/a.!!!"), "7.bin");
    assert_eq!(download_filename("7", "https://x/dir/"), "7.bin");
    assert_eq!(filename_for("9", Some("clip.webm".into())), "9.webm");
    assert_eq!(filename_for("9", None), "9.bin");
    assert_eq!(sanitize_extension("ab-c.d_e"), "abcde");
    assert_eq!(sanitize_extension("ABCDEFGHIJKLMNOP"), "ABCDEFGHIJKL");
}

#[test]
fn new_session_has_one_empty_tab() {
    let app = session();
    assert_eq!(app.tabs().len(), 1);
    assert_eq!(app.active(), 0);
    let t = app.active_tab();
    assert_eq!(t.title, "New Tab");
    assert_eq!(t.site, Site::Danbooru);
    assert_eq!(t.rating, Some(Rating::General));
    assert_eq!(t.query, None);
    assert!(!app.settings_open());
}

#[test]
fn submit_search_fetches_first_page() {
    let mut app = session();
    app.update(Message::QueryChanged("blue sky".into()));
    let effects = app.update(Message::SubmitSearch);
    let t = app.active_tab();
    assert_eq!(t.query.as_deref(), Some("blue sky"));
    assert_eq!(t.title, "blue sky");
    assert_eq!(t.generation, 1);
    assert!(t.loading);
    assert!(matches!(effects[0], Effect::ScrollTo { tab: 0, y: 0 }));
    match &effects[1] {
        Effect::FetchPosts { tab, generation, site, query, attempt } => {
            assert_eq!((*tab, *generation, *site, *attempt), (0, 1, Site::Danbooru, 0));
            assert_eq!(query.tags, "blue sky");
            assert_eq!(query.limit, 100);
            assert_eq!(query.page, 0);
            assert_eq!(query.rating, Some(Rating::General));
        }
        other => panic!("unexpected {other:?}"),
    }
    assert!(matches!(effects[2], Effect::FocusSearch));
    assert_eq!(effects.len(), 3);
}

#[test]
fn query_changed_asks_for_suggestions_of_the_last_word() {
    let mut app = session();
    let effects = app.update(Message::QueryChanged("blue la".into()));
    match &effects[..] {
        [Effect::FetchTags { tab: 0, site: Site::Danbooru, word }] => assert_eq!(word, "la"),
        other => panic!("unexpected {other:?}"),
    }
    let effects = app.update(Message::QueryChanged("blue ".into()));
    assert!(effects.is_empty());
}

#[test]
fn stale_suggestions_are_dropped() {
    let mut app = session();
    app.update(Message::QueryChanged("la".into()));
    app.update(Message::QueryChanged("lan".into()));
    app.update(Message::AutocompleteLoaded { tab: 0, query_word: "la".into(), tags: vec![tag("land")] });
    assert!(app.active_tab().autocomplete.is_empty());
    app.update(Message::AutocompleteLoaded { tab: 0, query_word: "lan".into(), tags: vec![tag("landscape")] });
    assert_eq!(app.active_tab().autocomplete.len(), 1);
}

#[test]
fn autocomplete_selection_replaces_the_last_word() {
    let mut app = session();
    app.update(Message::QueryChanged("blue la".into()));
    let effects = app.update(Message::AutocompleteSelected("landscape".into()));
    let t = app.active_tab();
    assert_eq!(t.temp_query, "blue landscape");
    assert_eq!(t.query.as_deref(), Some("blue landscape"));
    assert!(matches!(effects[effects.len() - 1], Effect::MoveCursorToEnd));
    assert!(matches!(effects[effects.len() - 2], Effect::FocusSearch));
}

#[test]
fn search_enter_applies_the_highlighted_suggestion() {
    let mut app = session();
    app.update(Message::QueryChanged("blue la".into()));
    app.update(Message::AutocompleteLoaded { tab: 0, query_word: "la".into(), tags: vec![tag("land"), tag("lake")] });
    let down = || Message::Key(KeyEvent::Pressed { key: Key::ArrowDown, ctrl: false });
    app.update(down());
    app.update(down());
    assert_eq!(app.active_tab().autocomplete_index, Some(1));
    app.update(Message::SearchEnter);
    assert_eq!(app.active_tab().query.as_deref(), Some("blue lake"));
}

#[test]
fn search_enter_without_highlight_submits() {
    let mut app = session();
    app.update(Message::QueryChanged("cat".into()));
    app.update(Message::SearchEnter);
    assert_eq!(app.active_tab().query.as_deref(), Some("cat"));
}

#[test]
fn escape_dismisses_suggestions() {
    let mut app = session();
    app.update(Message::QueryChanged("la".into()));
    app.update(Message::AutocompleteLoaded { tab: 0, query_word: "la".into(), tags: vec![tag("land")] });
    app.update(Message::Key(KeyEvent::Pressed { key: Key::Escape, ctrl: false }));
    assert!(app.active_tab().autocomplete.is_empty());
    assert_eq!(app.active_tab().autocomplete_index, None);
}

#[test]
fn keyboard_tab_shortcuts() {
    let mut app = session();
    let ctrl = |c: &str| Message::Key(KeyEvent::Pressed { key: Key::Character(c.into()), ctrl: true });
    app.update(ctrl("t"));
    assert_eq!(app.tabs().len(), 2);
    assert_eq!(app.active(), 1);
    app.update(ctrl("h"));
    assert_eq!(app.active(), 0);
    app.update(Message::Key(KeyEvent::Pressed { key: Key::ArrowLeft, ctrl: true }));
    assert_eq!(app.active(), 1);
    app.update(ctrl("l"));
    assert_eq!(app.active(), 0);
    app.update(ctrl("w"));
    assert_eq!(app.tabs().len(), 1);
    // the last tab is never closed
    app.update(ctrl("w"));
    assert_eq!(app.tabs().len(), 1);
    // plain keys do nothing
    app.update(Message::Key(KeyEvent::Pressed { key: Key::Character("t".into()), ctrl: false }));
    assert_eq!(app.tabs().len(), 1);
}

#[test]
fn closing_tabs_keeps_a_sensible_active_tab() {
    let mut app = session();
    app.update(Message::NewTab);
    app.update(Message::NewTab);
    assert_eq!(app.active(), 2);
    app.update(Message::SelectTab(1));
    assert_eq!(app.active(), 1);
    // closing the active middle tab moves to its left neighbour
    app.update(Message::CloseTab(1));
    assert_eq!(app.tabs().len(), 2);
    assert_eq!(app.active(), 0);
    assert_eq!(app.tabs()[1].id, 2);
    // selecting a missing index changes nothing
    app.update(Message::SelectTab(9));
    assert_eq!(app.active(), 0);
}

#[test]
fn posts_loaded_starts_thumbnail_loads_once() {
    let mut app = session();
    let mut p = post("1", "https://x/a.jpg");
    p.preview_url = "https://x/p.jpg".into();
    let mut q = post("2", "https://x/b.webm");
    q.preview_url = "https://x/p.jpg".into();
    let effects = load(&mut app, vec![p, q]);
    let loads: Vec<_> = effects
        .iter()
        .filter_map(|e| match e {
            Effect::LoadImage { url, kind: ImageKind::Thumbnail, .. } => Some(url.clone()),
            _ => None,
        })
        .collect();
    assert_eq!(loads, ["https://x/p.jpg"]);
    assert!(matches!(app.images().get("https://x/p.jpg", ImageKind::Thumbnail), Some(ImageState::Loading)));
    app.update(Message::ImageLoaded("https://x/p.jpg".into(), ImageKind::Thumbnail, Some(7)));
    assert!(matches!(app.images().get("https://x/p.jpg", ImageKind::Thumbnail), Some(ImageState::Loaded(7))));
}

#[test]
fn empty_results_say_so() {
    let mut app = session();
    load(&mut app, vec![]);
    assert_eq!(app.active_tab().error.as_deref(), Some("No results found."));
}

#[test]
fn failed_search_is_retried_then_reported() {
    let mut app = session();
    app.update(Message::QueryChanged("cat".into()));
    app.update(Message::SubmitSearch);
    let generation = app.active_tab().generation;
    let effects = app.update(Message::PostsLoaded { tab: 0, generation, attempt: 0, result: Err("boom".into()) });
    assert!(matches!(effects[..], [Effect::FetchPosts { attempt: 1, .. }]));
    assert_eq!(app.active_tab().error.as_deref(), Some("boom\nRetrying..."));
    let effects = app.update(Message::PostsLoaded { tab: 0, generation, attempt: 1, result: Err("boom".into()) });
    assert!(matches!(effects[..], [Effect::FetchPosts { attempt: 2, .. }]));
    let effects = app.update(Message::PostsLoaded { tab: 0, generation, attempt: 2, result: Err("boom".into()) });
    assert!(matches!(effects[..], [Effect::DropMedia { tab: 0, post_id: None }]));
    let t = app.active_tab();
    assert_eq!(t.error.as_deref(), Some("boom"));
    assert!(!t.loading);
    assert!(t.posts.is_empty());
}

#[test]
fn paging() {
    let mut app = session();
    app.update(Message::QueryChanged("cat".into()));
    app.update(Message::SubmitSearch);
    app.update(Message::PrevPage);
    assert_eq!(app.active_tab().page, 0);
    load(&mut app, vec![post("1", "https://x/a.jpg")]);
    app.update(Message::NextPage);
    assert_eq!(app.active_tab().page, 1);
    app.update(Message::PrevPage);
    assert_eq!(app.active_tab().page, 0);
}

#[test]
fn site_and_rating_selection_refetch() {
    let mut app = session();
    app.update(Message::QueryChanged("cat".into()));
    app.update(Message::SubmitSearch);
    let effects = app.update(Message::SiteSelected(Site::E621));
    assert_eq!(app.active_tab().site, Site::E621);
    assert!(effects.iter().any(|e| matches!(e, Effect::FetchPosts { site: Site::E621, .. })));
    app.update(Message::RatingSelected(RatingChoice(None)));
    assert_eq!(app.active_tab().rating, None);
    assert_eq!(RatingChoice(None).label(), "All Content");
    assert_eq!(RatingChoice(Some(Rating::Explicit)).label(), "Explicit");
}

#[test]
fn tag_groups_arrive_for_the_focused_post() {
    let mut app = session();
    load(&mut app, vec![post("1", "https://x/a.jpg")]);
    let groups = vec![ribb::booru::TagGroup { category: TagCategory::Artist, tags: vec!["someone".into()] }];
    app.update(Message::TagGroupsLoaded { tab: 0, post_id: "1".into(), groups });
    assert_eq!(app.active_tab().posts[0].tag_groups.len(), 1);
    // empty groups change nothing
    app.update(Message::TagGroupsLoaded { tab: 0, post_id: "1".into(), groups: vec![] });
    assert_eq!(app.active_tab().posts[0].tag_groups.len(), 1);
}

#[test]
fn focusing_media_posts() {
    let mut app = session();
    load(&mut app, vec![post("1", "https://x/a.jpg"), post("2", "https://x/b.swf"), post("3", "https://x/c.mp4")]);
    let effects = app.toggle_post("1".into());
    assert!(matches!(effects[0], Effect::FetchTagGroups { tab: 0, .. }));
    assert!(matches!(effects[1], Effect::LoadImage { kind: ImageKind::Full, width: 100, height: 100, .. }));
    let effects = app.toggle_post("2".into());
    assert!(matches!(effects[1], Effect::FetchSwf { .. }));
    app.update(Message::SwfLoaded { tab: 0, post_id: "2".into() });
    assert_eq!(app.active_tab().swf, ["2"]);
    let effects = app.toggle_post("2".into());
    assert!(matches!(&effects[0], Effect::DropMedia { tab: 0, post_id: Some(p) } if p == "2"));
    assert!(app.active_tab().swf.is_empty());
    let effects = app.toggle_post("3".into());
    assert!(matches!(effects[1], Effect::FetchVideo { .. }));
    app.update(Message::VideoLoaded { tab: 0, post_id: "3".into() });
    assert!(app.wants_frames());
    // unknown posts change nothing
    assert!(app.toggle_post("nope".into()).is_empty());
}

#[test]
fn tag_click_toggles_and_ctrl_click_opens_a_tab() {
    let mut app = session();
    app.update(Message::QueryChanged("cat  dog".into()));
    app.update(Message::TagClicked("dog".into()));
    assert_eq!(app.active_tab().temp_query, "cat");
    app.update(Message::TagClicked("bird".into()));
    assert_eq!(app.active_tab().temp_query, "cat bird");
    app.update(Message::Key(KeyEvent::ModifiersChanged { ctrl: true }));
    let effects = app.update(Message::TagClicked("fish".into()));
    assert_eq!(app.tabs().len(), 2);
    assert_eq!(app.active(), 0);
    assert_eq!(app.tabs()[1].query.as_deref(), Some("fish"));
    assert!(effects.iter().any(|e| matches!(e, Effect::FetchPosts { tab: 1, .. })));
}

#[test]
fn settings_dialog() {
    let mut app: Ribb<u32> = Ribb::new(Settings { gelbooru_credentials: "&api_key=A".into() });
    assert_eq!(app.client().gelbooru_credentials(), "&api_key=A");
    let effects = app.update(Message::OpenSettings);
    assert!(matches!(effects[..], [Effect::FocusSettings]));
    assert_eq!(app.settings_draft(), "&api_key=A");
    app.update(Message::SettingsDraftChanged("&api_key=B".into()));
    // interactions inside the dialog do not steal the focus
    let effects = app.update(Message::NextPage);
    assert!(effects.is_empty());
    let effects = app.update(Message::SaveSettings);
    assert!(matches!(&effects[..], [Effect::SaveSettings(s), Effect::FocusSearch] if s.gelbooru_credentials == "&api_key=B"));
    assert!(!app.settings_open());
    assert_eq!(app.settings().gelbooru_credentials, "&api_key=B");
    assert_eq!(app.client().gelbooru_credentials(), "&api_key=B");
    app.update(Message::OpenSettings);
    app.update(Message::SettingsDraftChanged("junk".into()));
    app.update(Message::CloseSettings);
    assert_eq!(app.settings().gelbooru_credentials, "&api_key=B");
}

#[test]
fn scroll_reports_wait_for_a_pending_restore() {
    let mut app = session();
    app.update(Message::NewTab);
    let effects = app.update(Message::SelectTab(0));
    assert!(matches!(effects[0], Effect::RestoreLater { tab: 0, y: 0 }));
    app.update(Message::ScrollChanged { tab: 0, y: 5 });
    assert_eq!(app.tabs()[0].scroll_y, 0);
    let effects = app.update(Message::RestoreScroll { tab: 0, y: 0 });
    assert!(matches!(effects[..], [Effect::ScrollTo { tab: 0, y: 0 }]));
    app.update(Message::ScrollChanged { tab: 0, y: 5 });
    assert_eq!(app.tabs()[0].scroll_y, 5);
}

#[test]
fn start_search_searches_the_first_tab_unfiltered() {
    let mut app = session();
    let effects = app.start_search("cat".into());
    let t = &app.tabs()[0];
    assert_eq!(t.query.as_deref(), Some("cat"));
    assert_eq!(t.temp_query, "cat");
    assert_eq!(t.rating, None);
    assert!(matches!(&effects[..], [Effect::FetchPosts { query, .. }] if query.rating.is_none() && query.tags == "cat"));
}

#[test]
fn open_external_and_copy() {
    let mut app = session();
    let effects = app.update(Message::OpenExternal("https://x".into()));
    assert!(matches!(&effects[0], Effect::OpenExternal(u) if u == "https://x"));
    let effects = app.update(Message::CopyImage { post_id: "5".into(), url: "https://x/a.png".into() });
    assert!(matches!(&effects[0], Effect::Copy { post_id, .. } if post_id == "5"));
    assert_eq!(app.action("5", ActionKind::Copy), Some(ActionStatus::InProgress));
    let effects = app.update(Message::CopyFinished { post_id: "5".into(), ok: false });
    assert!(matches!(&effects[..], [Effect::ClearActionLater { kind: ActionKind::Copy, .. }]));
    assert_eq!(app.action("5", ActionKind::Copy), Some(ActionStatus::Failed));
    assert_eq!(app.action("5", ActionKind::Download), None);
}
