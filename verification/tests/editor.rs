use json_editor::app::{App, CurrentScreen, CurrentlyEditing};
use json_editor::dispatch::{handle_key, KeyInput};
use json_editor::app::Flow;
use json_editor::render;

fn type_word(app: &mut App, word: &str) {
    for c in word.chars() {
        let flow = handle_key(app, KeyInput::Char(c));
        assert_eq!(flow, Flow::Continue);
    }
}

#[test]
fn fresh_editor_is_empty() {
    let app = App::new();
    assert_eq!(app.current_screen, CurrentScreen::Main);
    assert_eq!(app.currently_editing, None);
    assert_eq!(app.key_input, "");
    assert_eq!(app.value_input, "");
    assert!(app.pairs.is_empty());
}

#[test]
fn edit_one_pair_from_main() {
    let mut app = App::new();
    assert_eq!(handle_key(&mut app, KeyInput::Char('e')), Flow::Continue);
    assert_eq!(app.current_screen, CurrentScreen::Editing);
    assert_eq!(app.currently_editing, Some(CurrentlyEditing::Key));
    type_word(&mut app, "age");
    assert_eq!(app.key_input, "age");
    assert_eq!(handle_key(&mut app, KeyInput::Enter), Flow::Continue);
    assert_eq!(app.currently_editing, Some(CurrentlyEditing::Value));
    type_word(&mut app, "30");
    assert_eq!(app.value_input, "30");
    assert_eq!(handle_key(&mut app, KeyInput::Enter), Flow::Continue);
    assert_eq!(app.current_screen, CurrentScreen::Main);
    assert_eq!(app.currently_editing, None);
    assert_eq!(app.key_input, "");
    assert_eq!(app.value_input, "");
    assert_eq!(app.pairs, vec![("age".to_string(), "30".to_string())]);
}

#[test]
fn abort_exit_returns_to_main() {
    let mut app = App::new();
    type_word(&mut app, "e");
    type_word(&mut app, "age");
    handle_key(&mut app, KeyInput::Enter);
    type_word(&mut app, "30");
    handle_key(&mut app, KeyInput::Enter);
    assert_eq!(handle_key(&mut app, KeyInput::Char('q')), Flow::Continue);
    assert_eq!(app.current_screen, CurrentScreen::Exiting);
    assert_eq!(handle_key(&mut app, KeyInput::Char('n')), Flow::Continue);
    assert_eq!(app.current_screen, CurrentScreen::Main);
    assert_eq!(app.pairs, vec![("age".to_string(), "30".to_string())]);
}

#[test]
fn confirm_exit_emits_the_pairs() {
    let mut app = App::new();
    app.key_input = "age".to_string();
    app.value_input = "30".to_string();
    app.save_key_value();
    assert_eq!(handle_key(&mut app, KeyInput::Char('q')), Flow::Continue);
    assert_eq!(handle_key(&mut app, KeyInput::Char('y')), Flow::Terminate { emit: true });
    assert_eq!(app.to_json_string().unwrap(), "{\"age\":\"30\"}");
}

#[test]
fn unmapped_key_changes_nothing() {
    let mut app = App::new();
    handle_key(&mut app, KeyInput::Char('q'));
    assert_eq!(app.current_screen, CurrentScreen::Exiting);
    let before_pairs = app.pairs.clone();
    assert_eq!(handle_key(&mut app, KeyInput::Char('z')), Flow::Continue);
    assert_eq!(app.current_screen, CurrentScreen::Exiting);
    assert_eq!(app.pairs, before_pairs);
    assert_eq!(handle_key(&mut app, KeyInput::Tab), Flow::Continue);
    assert_eq!(app.current_screen, CurrentScreen::Exiting);
}

#[test]
fn pushes_and_pops_balance_out() {
    let mut app = App::new();
    handle_key(&mut app, KeyInput::Char('e'));
    type_word(&mut app, "abc");
    assert_eq!(app.key_input, "abc");
    handle_key(&mut app, KeyInput::Backspace);
    assert_eq!(app.key_input, "ab");
    handle_key(&mut app, KeyInput::Backspace);
    handle_key(&mut app, KeyInput::Backspace);
    assert_eq!(app.key_input, "");
    handle_key(&mut app, KeyInput::Backspace);
    assert_eq!(app.key_input, "");
    type_word(&mut app, "xy");
    assert_eq!(app.key_input, "xy");
}

#[test]
fn commit_overwrites_equal_key_only() {
    let mut app = App::new();
    app.key_input = "name".to_string();
    app.value_input = "ada".to_string();
    app.save_key_value();
    app.key_input = "age".to_string();
    app.value_input = "30".to_string();
    app.save_key_value();
    app.key_input = "age".to_string();
    app.value_input = "31".to_string();
    app.save_key_value();
    assert_eq!(app.pairs.len(), 2);
    assert!(app.pairs.contains(&("name".to_string(), "ada".to_string())));
    assert!(app.pairs.contains(&("age".to_string(), "31".to_string())));
}

#[test]
fn commit_clears_buffers_and_target() {
    let mut app = App::new();
    app.key_input = "k".to_string();
    app.value_input = "v".to_string();
    app.currently_editing = Some(CurrentlyEditing::Value);
    app.save_key_value();
    assert_eq!(app.key_input, "");
    assert_eq!(app.value_input, "");
    assert_eq!(app.currently_editing, None);
    assert_eq!(app.pairs, vec![("k".to_string(), "v".to_string())]);
}

#[test]
fn toggle_is_an_involution_from_a_defined_target() {
    let mut app = App::new();
    app.currently_editing = Some(CurrentlyEditing::Key);
    app.toggle_editing();
    assert_eq!(app.currently_editing, Some(CurrentlyEditing::Value));
    app.toggle_editing();
    assert_eq!(app.currently_editing, Some(CurrentlyEditing::Key));
}

#[test]
fn toggle_from_no_target_focuses_the_key() {
    let mut app = App::new();
    assert_eq!(app.currently_editing, None);
    app.toggle_editing();
    assert_eq!(app.currently_editing, Some(CurrentlyEditing::Key));
}

#[test]
fn escape_abandons_the_edit_and_asks_to_quit() {
    let mut app = App::new();
    handle_key(&mut app, KeyInput::Char('e'));
    type_word(&mut app, "half");
    assert_eq!(handle_key(&mut app, KeyInput::Escape), Flow::Continue);
    assert_eq!(app.current_screen, CurrentScreen::Exiting);
    assert_eq!(app.currently_editing, None);
}

#[test]
fn tab_switches_the_focused_buffer() {
    let mut app = App::new();
    handle_key(&mut app, KeyInput::Char('e'));
    assert_eq!(app.currently_editing, Some(CurrentlyEditing::Key));
    handle_key(&mut app, KeyInput::Tab);
    assert_eq!(app.currently_editing, Some(CurrentlyEditing::Value));
    type_word(&mut app, "v");
    assert_eq!(app.key_input, "");
    assert_eq!(app.value_input, "v");
}

#[test]
fn empty_store_encodes_as_empty_object() {
    let app = App::new();
    assert_eq!(app.to_json_string().unwrap(), "{}");
}

#[test]
fn encoding_orders_keys_and_escapes_nothing_plain() {
    let mut app = App::new();
    app.key_input = "b".to_string();
    app.value_input = "2".to_string();
    app.save_key_value();
    app.key_input = "a".to_string();
    app.value_input = "1".to_string();
    app.save_key_value();
    assert_eq!(app.to_json_string().unwrap(), "{\"a\":\"1\",\"b\":\"2\"}");
}

#[test]
fn pair_line_pads_the_key_column() {
    let line = render::pair_line(&"age".to_string(), &"30".to_string());
    assert_eq!(line, format!("{: <25} : {}", "age", "30"));
    let long_key = "a".repeat(30);
    let long_line = render::pair_line(&long_key, &"v".to_string());
    assert_eq!(long_line, format!("{: <25} : {}", long_key, "v"));
}

#[test]
fn pair_lines_follow_the_store() {
    let mut app = App::new();
    app.key_input = "k1".to_string();
    app.value_input = "v1".to_string();
    app.save_key_value();
    app.key_input = "k2".to_string();
    app.value_input = "v2".to_string();
    app.save_key_value();
    let lines = render::pair_lines(&app);
    assert_eq!(lines.len(), 2);
    assert_eq!(lines[0], format!("{: <25} : {}", "k1", "v1"));
    assert_eq!(lines[1], format!("{: <25} : {}", "k2", "v2"));
}

#[test]
fn footer_labels_follow_the_state() {
    assert_eq!(render::title(), "Create New Json");
    assert_eq!(render::mode_label(CurrentScreen::Main), "Normal Mode");
    assert_eq!(render::mode_label(CurrentScreen::Editing), "Editing Mode");
    assert_eq!(render::mode_label(CurrentScreen::Exiting), "Exiting");
    assert_eq!(render::target_label(Some(CurrentlyEditing::Key)), "Editing Json Key");
    assert_eq!(render::target_label(Some(CurrentlyEditing::Value)), "Editing Json Value");
    assert_eq!(render::target_label(None), "Not Editing Anything");
    assert_eq!(
        render::keys_hint(CurrentScreen::Editing),
        "(ESC) to cancel / (tab) to switch boxes/enter to complete"
    );
    assert_eq!(
        render::keys_hint(CurrentScreen::Main),
        "(q) to quit / (e) to make new pair"
    );
}

#[test]
fn editing_only_touches_the_focused_buffer() {
    let mut app = App::new();
    handle_key(&mut app, KeyInput::Char('e'));
    type_word(&mut app, "key");
    handle_key(&mut app, KeyInput::Enter);
    type_word(&mut app, "value");
    handle_key(&mut app, KeyInput::Backspace);
    assert_eq!(app.key_input, "key");
    assert_eq!(app.value_input, "valu");
}

#[test]
fn pops_reach_old_content_and_new_pushes_stack_above() {
    let mut app = App::new();
    handle_key(&mut app, KeyInput::Char('e'));
    type_word(&mut app, "abc");
    handle_key(&mut app, KeyInput::Backspace);
    type_word(&mut app, "xy");
    assert_eq!(app.key_input, "abxy");
}

#[test]
fn encoding_always_succeeds() {
    let mut app = App::new();
    assert!(app.to_json_string().is_ok());
    app.key_input = "k\"quote".to_string();
    app.value_input = "v\\slash".to_string();
    app.save_key_value();
    let text = app.to_json_string().unwrap();
    assert_eq!(text, "{\"k\\\"quote\":\"v\\\\slash\"}");
}
