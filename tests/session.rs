use linepick::keys::{action_of, Action, Key, KeyPress, MOD_CONTROL, MOD_NONE};
use linepick::picker::{Picker, Step};

fn fruit() -> Picker {
    Picker::new(vec!["apple".to_string(), "banana".to_string(), "grape".to_string()])
}

#[test]
fn typing_filters_then_enter_emits() {
    let mut p = fruit();
    assert_eq!(p.handle(Action::InsertChar('a')), Step::Stay);
    assert_eq!(p.handle(Action::InsertChar('n')), Step::Stay);
    assert_eq!(p.query(), "an");
    assert_eq!(p.view(), vec!["banana".to_string()]);
    assert_eq!(p.handle(Action::Confirm), Step::Emit("banana".to_string()));
}

#[test]
fn move_down_twice_then_enter() {
    let mut p = fruit();
    assert_eq!(p.selected(), 0);
    p.handle(Action::MoveDown);
    assert_eq!(p.selected(), 1);
    p.handle(Action::MoveDown);
    assert_eq!(p.selected(), 2);
    p.handle(Action::MoveDown);
    assert_eq!(p.selected(), 2);
    assert_eq!(p.handle(Action::Confirm), Step::Emit("grape".to_string()));
}

#[test]
fn move_down_stops_at_end_of_filtered_view() {
    let mut p = fruit();
    p.handle(Action::InsertChar('a'));
    p.handle(Action::InsertChar('n'));
    p.handle(Action::MoveDown);
    assert_eq!(p.selected(), 0);
    assert_eq!(p.handle(Action::Confirm), Step::Emit("banana".to_string()));
}

#[test]
fn selection_clamped_when_view_shrinks() {
    let mut p = fruit();
    p.handle(Action::MoveDown);
    p.handle(Action::MoveDown);
    assert_eq!(p.selected(), 2);
    p.handle(Action::InsertChar('a'));
    p.handle(Action::InsertChar('n'));
    assert_eq!(p.selected(), 0);
    assert_eq!(p.handle(Action::Confirm), Step::Emit("banana".to_string()));
}

#[test]
fn move_up_stops_at_zero() {
    let mut p = fruit();
    p.handle(Action::MoveUp);
    assert_eq!(p.selected(), 0);
    p.handle(Action::MoveDown);
    p.handle(Action::MoveUp);
    assert_eq!(p.selected(), 0);
}

#[test]
fn enter_on_empty_view_continues() {
    let mut p = fruit();
    for c in "zzz".chars() {
        p.handle(Action::InsertChar(c));
    }
    assert!(p.view().is_empty());
    assert_eq!(p.handle(Action::Confirm), Step::Stay);
    assert_eq!(p.query(), "zzz");
    assert_eq!(p.selected(), 0);
}

#[test]
fn escape_quits_without_output() {
    let mut p = fruit();
    assert_eq!(p.handle(Action::Quit), Step::Quit);
}

#[test]
fn backspace_on_empty_query_is_noop() {
    let mut p = fruit();
    p.handle(Action::MoveDown);
    assert_eq!(p.handle(Action::Backspace), Step::Stay);
    assert_eq!(p.query(), "");
    assert_eq!(p.selected(), 1);
}

#[test]
fn backspace_removes_last_char() {
    let mut p = fruit();
    p.handle(Action::InsertChar('z'));
    assert!(p.view().is_empty());
    p.handle(Action::Backspace);
    assert_eq!(p.query(), "");
    assert_eq!(p.view().len(), 3);
}

#[test]
fn ignored_action_changes_nothing() {
    let mut p = fruit();
    p.handle(Action::MoveDown);
    assert_eq!(p.handle(Action::Ignored), Step::Stay);
    assert_eq!(p.selected(), 1);
    assert_eq!(p.query(), "");
}

#[test]
fn empty_line_set() {
    let mut p = Picker::new(Vec::new());
    p.handle(Action::MoveDown);
    assert_eq!(p.selected(), 0);
    assert_eq!(p.handle(Action::Confirm), Step::Stay);
}

fn press(key: Key, modifiers: u8) -> KeyPress {
    KeyPress { key, modifiers }
}

#[test]
fn key_mapping() {
    assert_eq!(action_of(&press(Key::Char('j'), MOD_CONTROL)), Action::MoveDown);
    assert_eq!(action_of(&press(Key::Char('k'), MOD_CONTROL)), Action::MoveUp);
    assert_eq!(action_of(&press(Key::Char('j'), MOD_NONE)), Action::InsertChar('j'));
    assert_eq!(action_of(&press(Key::Char('x'), MOD_CONTROL)), Action::Ignored);
    assert_eq!(action_of(&press(Key::Char('A'), 1)), Action::Ignored);
    assert_eq!(action_of(&press(Key::Backspace, MOD_NONE)), Action::Backspace);
    assert_eq!(action_of(&press(Key::Backspace, MOD_CONTROL)), Action::Ignored);
    assert_eq!(action_of(&press(Key::Enter, MOD_CONTROL)), Action::Confirm);
    assert_eq!(action_of(&press(Key::Esc, MOD_NONE)), Action::Quit);
    assert_eq!(action_of(&press(Key::Other, MOD_NONE)), Action::Ignored);
}
