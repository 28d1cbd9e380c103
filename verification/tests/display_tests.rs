use gnostr_query::display::{display_line, is_end_of_stream, Display};

#[test]
fn marker_is_recognised_as_raw_text() {
    assert!(is_end_of_stream("[\"EOSE\",\"gnostr-query\"]"));
    assert!(!is_end_of_stream("[\"EOSE\", \"gnostr-query\"]"));
    assert!(!is_end_of_stream("[\"EOSE\",\"other\"]"));
    assert!(!is_end_of_stream("[\"EOSE\",\"gnostr-query\"] "));
    assert!(!is_end_of_stream(""));
}

#[test]
fn marker_is_shown_as_placeholder() {
    assert_eq!(display_line("[\"EOSE\",\"gnostr-query\"]"), "TODO: handle EOSE");
    assert_eq!(display_line("[\"EVENT\",\"gnostr-query\",{}]"), "[\"EVENT\",\"gnostr-query\",{}]");
    assert_eq!(display_line(""), "");
}

#[test]
fn new_display_is_empty() {
    let display = Display::new("q".to_string());
    assert_eq!(display.len(), 0);
    assert_eq!(display.selected(), None);
    assert_eq!(display.query(), "q");
    assert!(display.items().is_empty());
}

#[test]
fn polled_frame_is_appended_and_selected() {
    let mut display = Display::new("q".to_string());
    display.on_poll(Some("m1".to_string()));
    assert_eq!(display.len(), 1);
    assert_eq!(display.selected(), Some(0));
    display.on_poll(Some("m2".to_string()));
    assert_eq!(display.selected(), Some(1));
    assert_eq!(display.items(), vec!["m1", "m2"]);
    assert_eq!(display.query(), "q");
}

#[test]
fn empty_poll_changes_nothing() {
    let mut display = Display::new("q".to_string());
    display.on_poll(None);
    assert_eq!(display.len(), 0);
    assert_eq!(display.selected(), None);
    display.on_poll(Some("m1".to_string()));
    display.on_poll(None);
    assert_eq!(display.len(), 1);
    assert_eq!(display.selected(), Some(0));
    assert_eq!(display.items(), vec!["m1"]);
}

#[test]
fn display_does_not_end_at_the_marker() {
    let mut display = Display::new("q".to_string());
    display.on_poll(Some("m1".to_string()));
    display.on_poll(Some("[\"EOSE\",\"gnostr-query\"]".to_string()));
    display.on_poll(Some("m2".to_string()));
    assert_eq!(display.items(), vec!["m1", "TODO: handle EOSE", "m2"]);
    assert_eq!(display.selected(), Some(2));
}
