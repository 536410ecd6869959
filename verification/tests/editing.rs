use qara::action::Action;
use qara::event::{Event, KeyCode, KeyEvent, KeyEventKind};
use qara::input::InputComponent;
use qara::mode::Mode;
use qara::popup::PopupComponent;
use qara::table::TableCursor;

fn press(code: KeyCode) -> Event {
    Event::Key(KeyEvent { code, kind: KeyEventKind::Press })
}

fn typed(text: &str) -> InputComponent {
    let mut c = InputComponent::new();
    for ch in text.chars() {
        c.dispatch_event(press(KeyCode::Char(ch)), &Mode::Search, 0);
    }
    c
}

#[test]
fn new_input_is_empty() {
    let c = InputComponent::new();
    assert_eq!(c.content(), "");
    assert_eq!(c.idx, 0);
    assert!(!c.focused);
    assert!(c.show_cursor);
}

#[test]
fn typing_inserts_at_cursor() {
    let mut c = typed("ac");
    c.left();
    c.insert_at(c.idx, 'b');
    assert_eq!(c.content(), "abc");
    assert_eq!(c.idx, 2);
}

#[test]
fn insert_then_delete_restores() {
    let mut c = typed("hello");
    c.left();
    c.left();
    let before = (c.content(), c.idx);
    c.insert_at(c.idx, 'X');
    assert_eq!(c.content(), "helXlo");
    c.delete();
    assert_eq!((c.content(), c.idx), before);
}

#[test]
fn delete_at_start_does_nothing() {
    let mut c = typed("ab");
    c.left();
    c.left();
    c.left();
    assert_eq!(c.idx, 0);
    c.delete();
    assert_eq!(c.content(), "ab");
    assert_eq!(c.idx, 0);
}

#[test]
fn right_stops_before_last_character() {
    let mut c = typed("abc");
    c.left();
    c.left();
    c.left();
    c.right();
    c.right();
    assert_eq!(c.idx, 2);
    c.right();
    assert_eq!(c.idx, 2);
}

#[test]
fn focus_and_blink() {
    let mut c = InputComponent::new();
    let actions = c.dispatch_event(press(KeyCode::Char('i')), &Mode::Normal, 1000);
    assert!(actions.is_empty());
    assert!(c.focused);
    assert_eq!(c.last_cursor_tick, 1000);
    assert_eq!(c.content(), "");
    c.tick(1499);
    assert!(c.show_cursor);
    c.tick(1500);
    assert!(!c.show_cursor);
    assert_eq!(c.last_cursor_tick, 1500);
    assert_eq!(c.cursor_column(), None);
    c.tick(2000);
    assert_eq!(c.cursor_column(), Some(1));
}

#[test]
fn unfocused_field_does_not_blink() {
    let mut c = InputComponent::new();
    c.tick(10_000);
    assert!(c.show_cursor);
}

#[test]
fn escape_leaves_the_search() {
    let mut c = typed("q");
    c.focused = true;
    let actions = c.dispatch_event(press(KeyCode::Esc), &Mode::Search, 0);
    assert!(!c.focused);
    assert!(matches!(actions.as_slice(), [Action::Enter(Mode::Normal)]));
    assert_eq!(c.content(), "q");
}

#[test]
fn keys_outside_search_do_not_edit() {
    let mut c = typed("ab");
    c.dispatch_event(press(KeyCode::Char('z')), &Mode::Results, 0);
    c.dispatch_event(Event::Key(KeyEvent { code: KeyCode::Char('z'), kind: KeyEventKind::Release }), &Mode::Search, 0);
    assert_eq!(c.content(), "ab");
    c.dispatch_event(press(KeyCode::Backspace), &Mode::Search, 0);
    assert_eq!(c.content(), "a");
}

fn popup() -> PopupComponent {
    let mut p = PopupComponent::new("t".to_string(), "d".to_string(), vec![]);
    p.update(&"Error".to_string(), &"boom".to_string(), &vec!["kk".to_string(), "quit".to_string()]);
    p
}

#[test]
fn popup_update_shows_it() {
    let p = popup();
    assert!(p.visible);
    assert_eq!(p.title, "Error");
    assert_eq!(p.description, "boom");
    assert_eq!(p.buttons, vec!["kk".to_string(), "quit".to_string()]);
    assert_eq!(p.selected, 0);
}

#[test]
fn popup_selection_stays_on_buttons() {
    let mut p = popup();
    let mode = Mode::Popup(Box::new(Mode::Results));
    p.dispatch_event(press(KeyCode::Char('l')), &mode);
    assert_eq!(p.selected, 1);
    p.dispatch_event(press(KeyCode::Right), &mode);
    assert_eq!(p.selected, 1);
    p.dispatch_event(press(KeyCode::Left), &mode);
    p.dispatch_event(press(KeyCode::Char('h')), &mode);
    assert_eq!(p.selected, 0);
}

#[test]
fn popup_escape_returns_to_opener() {
    let mut p = popup();
    let actions = p.dispatch_event(press(KeyCode::Esc), &Mode::Popup(Box::new(Mode::Results)));
    assert!(!p.visible);
    assert!(matches!(actions.as_slice(), [Action::Enter(Mode::Results)]));
    let actions = p.dispatch_event(press(KeyCode::Esc), &Mode::Popup(Box::new(Mode::Results)));
    assert!(actions.is_empty());
}

#[test]
fn table_cursor_moves_within_rows() {
    let mut t = TableCursor::new();
    t.up();
    assert_eq!(t.selected(), None);
    t.select(Some(1));
    t.up();
    assert_eq!(t.selected(), Some(1));
    t.down(2);
    assert_eq!(t.selected(), Some(2));
    t.down(2);
    assert_eq!(t.selected(), Some(2));
    t.up();
    assert_eq!(t.selected(), Some(1));
}

#[test]
fn cursor_counts_bytes() {
    let mut c = typed("é");
    assert_eq!(c.content(), "é");
    assert_eq!(c.idx, 1);
    assert!(c.faults_on(KeyCode::Char('x')));
    assert!(!c.faults_on(KeyCode::Backspace));
    c.delete();
    assert_eq!(c.content(), "");
    assert_eq!(c.idx, 0);
}

#[test]
fn right_moves_by_bytes() {
    let mut c = typed("aé");
    c.left();
    c.left();
    assert_eq!(c.idx, 0);
    c.right();
    assert_eq!(c.idx, 1);
    c.right();
    assert_eq!(c.idx, 2);
    c.right();
    assert_eq!(c.idx, 2);
    assert!(c.faults_on(KeyCode::Char('z')));
    assert!(!c.faults_on(KeyCode::Right));
    assert!(InputComponent::new().faults_on(KeyCode::Right));
}

#[test]
fn typing_after_ascii_keeps_boundaries() {
    let mut c = typed("ab");
    c.left();
    assert!(!c.faults_on(KeyCode::Char('é')));
    c.dispatch_event(press(KeyCode::Char('é')), &Mode::Search, 0);
    assert_eq!(c.content(), "aéb");
    assert_eq!(c.idx, 2);
}

#[test]
fn table_cursor_clamps_to_drawn_rows() {
    let mut t = TableCursor::new();
    t.select(Some(5));
    t.clamp_to_rows(3);
    assert_eq!(t.selected(), Some(2));
    t.clamp_to_rows(3);
    assert_eq!(t.selected(), Some(2));
    t.clamp_to_rows(0);
    assert_eq!(t.selected(), None);
    t.clamp_to_rows(4);
    assert_eq!(t.selected(), None);
}
