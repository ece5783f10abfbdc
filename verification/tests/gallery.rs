use std::collections::HashSet;

use rift::gallery::demos::{
    notification_message, theme_choices, theme_tokens, AccordionDemo, CollapsibleDemo,
    GalleryListDelegate, GalleryTableDelegate, NotificationKind, PaginationDemo, SettingsDemo,
    StepperDemo, TabsDemo,
};
use rift::gallery::{is_listed, registry, ComponentEntry, Gallery};

#[test]
fn test_registry_is_non_empty() {
    assert!(!registry().is_empty(), "gallery registry must have at least one entry");
}

#[test]
fn test_registry_names_unique() {
    let entries = registry();
    let unique: HashSet<&str> = entries.iter().map(|e| e.name).collect();
    assert_eq!(unique.len(), entries.len(), "gallery entry names must be unique");
}

fn three() -> Gallery {
    Gallery::with_entries(vec![
        ComponentEntry { name: "Button", description: "A thing to press." },
        ComponentEntry { name: "Slider", description: "Picks a NUMBER." },
        ComponentEntry { name: "Table", description: "Rows of buttons." },
    ])
}

#[test]
fn a_search_looks_at_names_and_descriptions_without_case() {
    let gallery = three();
    assert_eq!(gallery.sidebar("BUTTON"), vec![0, 2]);
    assert_eq!(gallery.sidebar("  number "), vec![1]);
    assert_eq!(gallery.sidebar("nothing"), Vec::<usize>::new());
}

#[test]
fn a_blank_search_lists_everything() {
    let gallery = three();
    assert_eq!(gallery.sidebar(""), vec![0, 1, 2]);
    assert_eq!(gallery.sidebar(" \t"), vec![0, 1, 2]);
}

#[test]
fn the_selection_survives_a_search() {
    let mut gallery = three();
    assert_eq!(gallery.active_index(), Some(0));
    gallery.select(2);
    assert_eq!(gallery.sidebar("slider"), vec![1]);
    assert!(gallery.is_active(2));
    assert_eq!(gallery.heading(), ("Table", "Rows of buttons."));
}

#[test]
fn an_empty_gallery_has_no_heading() {
    let gallery = Gallery::with_entries(Vec::new());
    assert_eq!(gallery.active_index(), None);
    assert_eq!(gallery.heading(), ("", ""));
    assert!(gallery.sidebar("").is_empty());
}

#[test]
fn the_shipped_gallery_selects_its_placeholder() {
    let gallery = Gallery::new();
    assert_eq!(gallery.heading().0, "Placeholder");
    assert_eq!(gallery.sidebar("skeleton"), vec![0]);
}

#[test]
fn a_needle_is_found_in_either_text() {
    assert!(is_listed("it", "title", ""));
    assert!(is_listed("", "", ""));
    assert!(!is_listed("x", "title", "text".trim_end_matches("xt")));
}

#[test]
fn every_token_is_listed_once() {
    let tokens = theme_tokens();
    assert_eq!(tokens.len(), 114);
    assert_eq!(tokens[0], "accent");
    assert_eq!(tokens[113], "cyan_light");
    let unique: HashSet<&str> = tokens.iter().copied().collect();
    assert_eq!(unique.len(), tokens.len());
}

#[test]
fn the_tabs_show_the_active_one() {
    let mut tabs = TabsDemo::new();
    assert_eq!(tabs.content(), "Content for the Account tab.");
    tabs.select(2);
    assert_eq!(tabs.content(), "Content for the Notifications tab.");
}

#[test]
fn the_accordion_keeps_what_is_open() {
    let mut accordion = AccordionDemo::new();
    assert!(accordion.is_open(0) && !accordion.is_open(1));
    accordion.toggled(vec![1, 2]);
    assert!(!accordion.is_open(0) && accordion.is_open(1) && accordion.is_open(2));
}

#[test]
fn the_collapsible_flips_its_label() {
    let mut demo = CollapsibleDemo::new();
    assert_eq!(demo.label(), "Hide details");
    demo.toggle();
    assert_eq!(demo.label(), "Show details");
}

#[test]
fn the_page_is_named() {
    let mut demo = PaginationDemo::new();
    assert_eq!(demo.caption(), "Page 1 of 10");
    demo.select(10);
    assert_eq!(demo.caption(), "Page 10 of 10");
}

#[test]
fn the_stepper_stays_between_its_ends() {
    let mut demo = StepperDemo::new();
    demo.back();
    assert_eq!(demo.step, 0);
    demo.next_step();
    demo.next_step();
    demo.next_step();
    assert_eq!(demo.step, 2);
    demo.back();
    assert_eq!(demo.step, 1);
}

#[test]
fn the_list_marks_its_selection() {
    let mut list = GalleryListDelegate::new();
    assert_eq!(list.items_count(), 6);
    assert_eq!(list.render_item(0), Some(("Inbox", true)));
    list.set_selected_index(Some(5));
    assert_eq!(list.render_item(5), Some(("Trash", true)));
    assert_eq!(list.render_item(0), Some(("Inbox", false)));
    assert_eq!(list.render_item(6), None);
}

#[test]
fn the_table_spells_its_cells() {
    let table = GalleryTableDelegate::new();
    assert_eq!(table.rows_count(), 5);
    assert_eq!(table.render_td(0, 0), "rift-app");
    assert_eq!(table.render_td(0, 1), "12");
    assert_eq!(table.render_td(0, 2), "4200");
    assert_eq!(table.render_td(0, 3), "no");
    assert_eq!(table.render_td(4, 3), "yes");
}

#[test]
fn the_settings_change_one_by_one() {
    let mut demo = SettingsDemo::new();
    demo.set_dark(false);
    demo.set_telemetry(true);
    demo.set_theme_name("latte".to_owned());
    assert!(!demo.dark && demo.telemetry);
    assert_eq!(demo.theme_name, "latte");
}

#[test]
fn the_theme_is_chosen_among_two() {
    assert_eq!(theme_choices(), vec![("mocha", "Mocha"), ("latte", "Latte")]);
    assert_eq!(SettingsDemo::new().theme_name, theme_choices()[0].0);
}

#[test]
fn each_notification_has_its_message() {
    assert_eq!(notification_message(NotificationKind::Info), "This is an info notification.");
    assert_eq!(notification_message(NotificationKind::Success), "Saved successfully.");
    assert_eq!(notification_message(NotificationKind::Warning), "Low disk space.");
    assert_eq!(notification_message(NotificationKind::Error), "Something went wrong.");
}
