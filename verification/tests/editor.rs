//! Input editor tests: mode switching, cursor-accurate insert and delete,
//! multi-byte characters, submission, and quit signalling.

use chat_core::state::{App, InputMode, Key, KeyInput, KeyKind};

fn press(code: Key) -> KeyInput {
    KeyInput {
        code,
        kind: KeyKind::Press,
        ctrl: false,
    }
}

fn type_line(app: &mut App, line: &str) {
    for c in line.chars() {
        assert!(!app.handle_key_event(press(Key::Char(c))));
    }
}

#[test]
fn new_app_starts_clean_in_normal_mode() {
    let app = App::new();
    assert!(app.input.is_empty());
    assert_eq!(app.cursor_position, 0);
    assert_eq!(app.input_mode, InputMode::Normal);
    assert!(app.messages.is_empty());
    assert_eq!(app.timer, 0);

    let d = App::default();
    assert_eq!(d.cursor_position, 0);
    assert_eq!(d.input_mode, InputMode::Normal);
}

#[test]
fn edit_key_enters_editing_mode() {
    let mut app = App::new();
    let quit = app.handle_key_event(press(Key::Char('e')));
    assert!(!quit);
    assert_eq!(app.input_mode, InputMode::Editing);
    assert!(app.input.is_empty());
}

#[test]
fn characters_insert_at_cursor() {
    let mut app = App::new();
    app.handle_key_event(press(Key::Char('e')));
    type_line(&mut app, "hat");
    assert_eq!(app.input, vec!['h', 'a', 't']);
    assert_eq!(app.cursor_position, 3);

    // move left twice and insert in the middle
    app.handle_key_event(press(Key::Left));
    app.handle_key_event(press(Key::Left));
    app.handle_key_event(press(Key::Char('e')));
    assert_eq!(app.input, vec!['h', 'e', 'a', 't']);
    assert_eq!(app.cursor_position, 2);
}

#[test]
fn cursor_stays_within_line() {
    let mut app = App::new();
    app.handle_key_event(press(Key::Char('e')));
    type_line(&mut app, "ab");

    app.handle_key_event(press(Key::Left));
    app.handle_key_event(press(Key::Left));
    app.handle_key_event(press(Key::Left));
    assert_eq!(app.cursor_position, 0);

    app.handle_key_event(press(Key::Right));
    app.handle_key_event(press(Key::Right));
    app.handle_key_event(press(Key::Right));
    assert_eq!(app.cursor_position, 2);
}

#[test]
fn backspace_deletes_left_of_cursor() {
    let mut app = App::new();
    app.handle_key_event(press(Key::Char('e')));
    type_line(&mut app, "abc");
    app.handle_key_event(press(Key::Left));
    app.handle_key_event(press(Key::Backspace));
    assert_eq!(app.input, vec!['a', 'c']);
    assert_eq!(app.cursor_position, 1);

    // at the left edge backspace does nothing
    app.handle_key_event(press(Key::Left));
    app.handle_key_event(press(Key::Backspace));
    assert_eq!(app.input, vec!['a', 'c']);
    assert_eq!(app.cursor_position, 0);
}

#[test]
fn insert_then_backspace_restores_line() {
    let mut app = App::new();
    app.handle_key_event(press(Key::Char('e')));
    type_line(&mut app, "chat");
    app.handle_key_event(press(Key::Left));
    let before_input = app.input.clone();
    let before_cursor = app.cursor_position;

    app.handle_key_event(press(Key::Char('x')));
    app.handle_key_event(press(Key::Backspace));
    assert_eq!(app.input, before_input);
    assert_eq!(app.cursor_position, before_cursor);
}

#[test]
fn multibyte_char_enters_and_leaves_as_one_unit() {
    let mut app = App::new();
    app.handle_key_event(press(Key::Char('e')));
    type_line(&mut app, "ab");
    app.handle_key_event(press(Key::Char('é')));
    assert_eq!(app.input, vec!['a', 'b', 'é']);
    assert_eq!(app.cursor_position, 3);

    app.handle_key_event(press(Key::Char('🦀')));
    assert_eq!(app.input, vec!['a', 'b', 'é', '🦀']);

    app.handle_key_event(press(Key::Backspace));
    assert_eq!(app.input, vec!['a', 'b', 'é']);
    app.handle_key_event(press(Key::Backspace));
    assert_eq!(app.input, vec!['a', 'b']);
    assert_eq!(app.cursor_position, 2);
}

#[test]
fn enter_submits_line_and_clears_state() {
    let mut app = App::new();
    app.handle_key_event(press(Key::Char('e')));
    type_line(&mut app, "hello");
    let quit = app.handle_key_event(press(Key::Enter));
    assert!(!quit);
    assert!(app.input.is_empty());
    assert_eq!(app.cursor_position, 0);
    assert_eq!(app.messages, vec!["hello".to_string()]);
    assert_eq!(app.input_mode, InputMode::Editing);

    // an empty line may be submitted too
    app.handle_key_event(press(Key::Enter));
    assert_eq!(app.messages, vec!["hello".to_string(), String::new()]);
}

#[test]
fn normal_mode_characters_never_touch_buffer() {
    let mut app = App::new();
    app.handle_key_event(press(Key::Char('e')));
    type_line(&mut app, "hi");
    app.handle_key_event(press(Key::Esc));
    assert_eq!(app.input_mode, InputMode::Normal);

    for c in ['x', 'z', '1', ' '] {
        let quit = app.handle_key_event(press(Key::Char(c)));
        assert!(!quit);
        assert_eq!(app.input, vec!['h', 'i']);
        assert_eq!(app.cursor_position, 2);
        assert_eq!(app.input_mode, InputMode::Normal);
    }
}

#[test]
fn escape_returns_to_normal_without_altering_buffer() {
    let mut app = App::new();
    app.handle_key_event(press(Key::Char('e')));
    type_line(&mut app, "draft");
    app.handle_key_event(press(Key::Left));
    let quit = app.handle_key_event(press(Key::Esc));
    assert!(!quit);
    assert_eq!(app.input_mode, InputMode::Normal);
    assert_eq!(app.input, vec!['d', 'r', 'a', 'f', 't']);
    assert_eq!(app.cursor_position, 4);
}

#[test]
fn quit_key_and_chord_signal_termination() {
    let mut app = App::new();
    assert!(app.handle_key_event(press(Key::Char('q'))));
    assert_eq!(app.input_mode, InputMode::Normal);
    assert!(app.input.is_empty());
    assert_eq!(app.cursor_position, 0);

    let chord = KeyInput {
        code: Key::Char('c'),
        kind: KeyKind::Press,
        ctrl: true,
    };
    assert!(app.handle_key_event(chord));
    assert_eq!(app.input_mode, InputMode::Normal);

    // in editing mode 'q' is just a character
    app.handle_key_event(press(Key::Char('e')));
    assert!(!app.handle_key_event(press(Key::Char('q'))));
    assert_eq!(app.input, vec!['q']);
}

#[test]
fn editing_mode_ignores_releases() {
    let mut app = App::new();
    app.handle_key_event(press(Key::Char('e')));
    let release = KeyInput {
        code: Key::Char('x'),
        kind: KeyKind::Release,
        ctrl: false,
    };
    let quit = app.handle_key_event(release);
    assert!(!quit);
    assert!(app.input.is_empty());
    assert_eq!(app.cursor_position, 0);
}

#[test]
fn timer_counts_ticks() {
    let mut app = App::new();
    app.increment_timer();
    app.increment_timer();
    assert_eq!(app.timer, 2);
}
