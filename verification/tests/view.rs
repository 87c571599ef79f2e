//! Counts, dates, colors and tag button states.

use ribb::booru::{BooruPost, Rating, TagCategory, TagColor, TagGroup};
use ribb::style::{rating_color, rating_select_color, Swatch};
use ribb::app::{ActionKind, ActionStatus};
use ribb::view::{action_label, date_text, detail_groups, format_count, format_date, tag_state, TagState};

fn float_format(n: u32) -> String {
    let f = n as f64;
    if f >= 1_000_000.0 {
        format!("{:.1}m", f / 1_000_000.0)
    } else if f >= 1_000.0 {
        format!("{:.1}k", f / 1_000.0)
    } else {
        format!("{f:.0}")
    }
}

#[test]
fn format_count_exact_values() {
    assert_eq!(format_count(0), "0");
    assert_eq!(format_count(999), "999");
    assert_eq!(format_count(1_000), "1.0k");
    assert_eq!(format_count(1_234), "1.2k");
    assert_eq!(format_count(999_999), "1000.0k");
    assert_eq!(format_count(1_000_000), "1.0m");
    assert_eq!(format_count(u32::MAX), "4295.0m");
}

#[test]
fn format_count_agrees_with_float_formatting_at_every_tie() {
    // Every count whose quotient sits exactly halfway between two tenths,
    // where the rounding of the division and of the formatting both matter.
    let mut n: u32 = 1_050;
    while n < 1_000_000 {
        assert_eq!(format_count(n), float_format(n), "n = {n}");
        n += 100;
    }
    let mut n: u64 = 1_050_000;
    while n <= u32::MAX as u64 {
        assert_eq!(format_count(n as u32), float_format(n as u32), "n = {n}");
        n += 100_000;
    }
}

#[test]
fn format_count_agrees_with_float_formatting_across_the_range() {
    let mut n: u64 = 0;
    let mut step: u64 = 1;
    while n <= u32::MAX as u64 {
        assert_eq!(format_count(n as u32), float_format(n as u32), "n = {n}");
        n += step;
        step = step * 5 / 4 + 1;
    }
    for n in [999u32, 1_000, 1_049, 1_051, 9_950, 99_950, 999_949, 999_950, 999_951, 1_049_999] {
        assert_eq!(format_count(n), float_format(n), "n = {n}");
    }
}

#[test]
fn format_date_long_form() {
    assert_eq!(format_date("2023-05-30T16:34:56.789Z"), "May 30, 2023");
    // the timestamp's own offset decides the day
    assert_eq!(format_date("2024-03-05T01:00:00+09:00"), "March 5, 2024");
    assert_eq!(format_date("yesterday"), "yesterday");
    assert_eq!(format_date(""), "");
    assert_eq!(date_text("raw", Some("long".into())), "long");
    assert_eq!(date_text("raw", None), "raw");
}

#[test]
fn tag_button_states_and_colors() {
    let q = vec!["cat".to_string(), "dog".to_string()];
    let t = vec!["cat".to_string(), "bird".to_string()];
    assert_eq!(tag_state("cat", &q, &t), TagState::Active);
    assert_eq!(tag_state("bird", &q, &t), TagState::Added);
    assert_eq!(tag_state("dog", &q, &t), TagState::Removed);
    assert_eq!(tag_state("fish", &q, &t), TagState::Plain);
    assert_eq!(TagState::Active.colors(), (Swatch::Blue700, Swatch::Blue600));
    assert_eq!(TagState::Removed.colors(), (Swatch::Red500, Swatch::Red500));
}

#[test]
fn palette() {
    assert_eq!(rating_color("s"), Swatch::Yellow500);
    assert_eq!(rating_color(" Explicit "), Swatch::Red500);
    assert_eq!(rating_color("weird"), Swatch::Gray500);
    assert_eq!(rating_select_color(None), Swatch::Purple500);
    assert_eq!(rating_select_color(Some(Rating::General)), Swatch::Green500);
    assert_eq!(TagColor::Orange.text_color(), Swatch::Orange600);
    assert_eq!(Swatch::Indigo500.rgb(), (0x63, 0x66, 0xf1));
    assert_eq!(Swatch::White.rgb(), (0xff, 0xff, 0xff));
}

#[test]
fn detail_rows_are_ordered_by_label() {
    let all = [
        TagCategory::Unknown,
        TagCategory::General,
        TagCategory::Species,
        TagCategory::Metadata,
        TagCategory::Lore,
        TagCategory::Invalid,
        TagCategory::Copyright,
        TagCategory::Character,
        TagCategory::Artist,
        TagCategory::General,
    ];
    let groups: Vec<TagGroup> = all
        .iter()
        .enumerate()
        .map(|(i, c)| TagGroup { category: *c, tags: vec![format!("t{i}")] })
        .collect();
    let mut post = BooruPost {
        id: "1".into(),
        post_view: String::new(),
        tags: vec!["a".into(), "b".into()],
        tag_groups: groups.clone(),
        file_url: String::new(),
        preview_url: String::new(),
        sample_url: None,
        width: 0,
        height: 0,
        rating: String::new(),
        created_at: String::new(),
    };
    // the same order as a stable sort of the labels as strings
    let mut expected: Vec<(String, Vec<String>)> =
        groups.iter().map(|g| (g.category.label().to_string(), g.tags.clone())).collect();
    expected.sort_by(|a, b| a.0.cmp(&b.0));
    assert_eq!(detail_groups(&post), expected);
    assert_eq!(detail_groups(&post)[0].0, "Artist");
    // the two general groups keep their order
    assert_eq!(detail_groups(&post)[7], ("Tag".to_string(), vec!["t1".to_string()]));
    assert_eq!(detail_groups(&post)[8], ("Tag".to_string(), vec!["t9".to_string()]));
    post.tag_groups.clear();
    assert_eq!(detail_groups(&post), vec![("Tag".to_string(), vec!["a".to_string(), "b".to_string()])]);
}

#[test]
fn action_labels_follow_status() {
    assert_eq!(action_label(ActionKind::Download, None), "Download");
    assert_eq!(action_label(ActionKind::Copy, None), "Copy");
    assert_eq!(action_label(ActionKind::Download, Some(ActionStatus::InProgress)), "Downloading\u{2026}");
    assert_eq!(action_label(ActionKind::Copy, Some(ActionStatus::InProgress)), "Copying\u{2026}");
    assert_eq!(action_label(ActionKind::Download, Some(ActionStatus::Done)), "Downloaded");
    assert_eq!(action_label(ActionKind::Copy, Some(ActionStatus::Done)), "Copied");
    assert_eq!(action_label(ActionKind::Copy, Some(ActionStatus::Failed)), "Failed");
    assert_eq!(action_label(ActionKind::Download, Some(ActionStatus::Failed)), "Failed");
}
