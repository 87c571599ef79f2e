//! The session's laws, on concrete values.

use ribb::app::{Key, KeyEvent, Message, Ribb};
use ribb::booru::{BooruPost, BooruTag, PostsPage, TagCategory};
use ribb::settings::Settings;

fn session() -> Ribb<u32> {
    Ribb::new(Settings::default())
}

fn a_post() -> BooruPost {
    BooruPost {
        id: "1".into(),
        post_view: String::new(),
        tags: vec![],
        tag_groups: vec![],
        file_url: "https://x/a.jpg".into(),
        preview_url: String::new(),
        sample_url: None,
        width: 1,
        height: 1,
        rating: "general".into(),
        created_at: String::new(),
    }
}

#[test]
fn an_answer_to_a_superseded_search_is_dropped() {
    let mut app = session();
    app.update(Message::QueryChanged("cat".into()));
    app.update(Message::SubmitSearch);
    let first = app.active_tab().generation;
    app.update(Message::QueryChanged("dog".into()));
    app.update(Message::SubmitSearch);
    let effects = app.update(Message::PostsLoaded {
        tab: 0,
        generation: first,
        attempt: 0,
        result: Ok(PostsPage { posts: vec![a_post()], has_next_page: true }),
    });
    assert!(effects.is_empty());
    assert!(app.active_tab().posts.is_empty());
    assert!(app.active_tab().loading);
    // the current search's answer is taken
    let current = app.active_tab().generation;
    app.update(Message::PostsLoaded {
        tab: 0,
        generation: current,
        attempt: 0,
        result: Ok(PostsPage { posts: vec![a_post()], has_next_page: true }),
    });
    assert_eq!(app.active_tab().posts.len(), 1);
    assert!(!app.active_tab().loading);
}

#[test]
fn late_suggestions_do_not_reopen_after_a_search() {
    let mut app = session();
    app.update(Message::QueryChanged("la".into()));
    app.update(Message::SubmitSearch);
    let tags = vec![BooruTag { label: "land".into(), value: "land".into(), category: TagCategory::General, post_count: None }];
    app.update(Message::AutocompleteLoaded { tab: 0, query_word: "la".into(), tags });
    assert!(app.active_tab().autocomplete.is_empty());
}

#[test]
fn clicking_a_new_tag_twice_restores_the_words() {
    let mut app = session();
    app.update(Message::QueryChanged(" cat   dog ".into()));
    app.update(Message::TagClicked("bird".into()));
    assert_eq!(app.active_tab().temp_query, "cat dog bird");
    app.update(Message::TagClicked("bird".into()));
    assert_eq!(app.active_tab().temp_query, "cat dog");
}

#[test]
fn switching_right_then_left_returns() {
    let mut app = session();
    app.update(Message::NewTab);
    app.update(Message::NewTab);
    app.update(Message::SelectTab(2));
    app.update(Message::SwitchTabRight);
    assert_eq!(app.active(), 0);
    app.update(Message::SwitchTabLeft);
    assert_eq!(app.active(), 2);
}

#[test]
fn highlight_down_then_up_returns() {
    let mut app = session();
    app.update(Message::QueryChanged("l".into()));
    let tags = ["land", "lake", "leaf"]
        .iter()
        .map(|v| BooruTag { label: v.to_string(), value: v.to_string(), category: TagCategory::General, post_count: None })
        .collect();
    app.update(Message::AutocompleteLoaded { tab: 0, query_word: "l".into(), tags });
    let key = |k| Message::Key(KeyEvent::Pressed { key: k, ctrl: false });
    app.update(key(Key::ArrowUp));
    assert_eq!(app.active_tab().autocomplete_index, Some(2));
    app.update(key(Key::ArrowDown));
    assert_eq!(app.active_tab().autocomplete_index, Some(0));
    app.update(key(Key::ArrowUp));
    assert_eq!(app.active_tab().autocomplete_index, Some(2));
}

#[test]
fn saved_settings_are_what_the_dialog_reopens_with() {
    let mut app = session();
    app.update(Message::OpenSettings);
    app.update(Message::SettingsDraftChanged("&api_key=Z".into()));
    app.update(Message::SaveSettings);
    app.update(Message::SettingsDraftChanged("other".into()));
    app.update(Message::OpenSettings);
    assert_eq!(app.settings_draft(), "&api_key=Z");
    assert_eq!(app.client().gelbooru_credentials(), "&api_key=Z");
}

#[test]
fn tab_ids_stay_distinct() {
    let mut app = session();
    for _ in 0..5 {
        app.update(Message::NewTab);
    }
    app.update(Message::CloseTab(2));
    app.update(Message::NewTab);
    let mut ids: Vec<u64> = app.tabs().iter().map(|t| t.id).collect();
    ids.sort();
    ids.dedup();
    assert_eq!(ids.len(), app.tabs().len());
    assert!(app.active() < app.tabs().len());
}

#[test]
fn the_last_tab_is_not_closed() {
    let mut app = session();
    let id = app.tabs()[0].id;
    app.update(Message::CloseTab(id));
    assert_eq!(app.tabs().len(), 1);
    assert_eq!(app.tabs()[0].id, id);
    assert_eq!(app.active(), 0);
    app.update(Message::Key(KeyEvent::Pressed { key: Key::Character("w".into()), ctrl: true }));
    assert_eq!(app.tabs().len(), 1);
    assert_eq!(app.active(), 0);
}
