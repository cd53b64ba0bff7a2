use linepick::picker::{Picker, Step};
use linepick::keys::Action;
use linepick::render::{build_frame, Entry};

fn strings(v: &[&str]) -> Vec<String> {
    v.iter().map(|s| s.to_string()).collect()
}

#[test]
fn frame_layout() {
    let view = strings(&["banana", "a very long line"]);
    let f = build_frame(&view, "an", 0, 5, 10);
    assert_eq!(f.origin, 5);
    assert_eq!(f.query_text, "an        ");
    assert_eq!(f.cursor_col, 2);
    assert_eq!(
        f.entries,
        vec![
            Entry { row: 7, marker: "-> ".to_string(), text: "banana".to_string() },
            Entry { row: 8, marker: "   ".to_string(), text: "a very ".to_string() },
        ]
    );
}

#[test]
fn frame_narrow_terminal() {
    let view = strings(&["banana"]);
    let f = build_frame(&view, "abc", 1, 0, 2);
    assert_eq!(f.query_text, "abc");
    assert_eq!(f.cursor_col, 3);
    assert_eq!(
        f.entries,
        vec![Entry { row: 2, marker: "   ".to_string(), text: String::new() }]
    );
}

#[test]
fn frame_counts_characters() {
    let view = strings(&["éééééé"]);
    let f = build_frame(&view, "é", 0, 0, 6);
    assert_eq!(f.query_text, "é     ");
    assert_eq!(f.cursor_col, 1);
    assert_eq!(f.entries[0].text, "ééé");
}

#[test]
fn frame_empty_view() {
    let f = build_frame(&Vec::new(), "", 0, 3, 4);
    assert_eq!(f.query_text, "    ");
    assert!(f.entries.is_empty());
    assert_eq!(f.cursor_col, 0);
}

#[test]
fn frame_stops_at_last_row() {
    let view = strings(&["a", "b", "c"]);
    assert!(build_frame(&view, "", 0, 65534, 80).entries.is_empty());
    let f = build_frame(&view, "", 0, 65532, 80);
    assert_eq!(f.entries.len(), 2);
    assert_eq!(f.entries[1].row, 65535);
}

#[test]
fn render_twice_gives_same_frame() {
    let mut p = Picker::new(strings(&["apple", "banana", "grape"]));
    assert_eq!(p.handle(Action::InsertChar('p')), Step::Stay);
    p.handle(Action::MoveDown);
    let first = p.render(4, 20);
    let second = p.render(4, 20);
    assert_eq!(first, second);
    assert_eq!(first.entries.len(), 2);
    assert_eq!(first.entries[1].marker, "-> ");
    assert_eq!(first.entries[1].text, "grape");
}
