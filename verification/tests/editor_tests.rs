use divitext::action_bar::ActionBar;
use divitext::buffer::Buffer;
use divitext::editor::Editor;
use divitext::key::Key;
use divitext::shell::route_key;
use divitext::shell::ShellEvent;
use divitext::state::CurrentScreen;
use divitext::state::State;

fn ed_state_with(path: &str) -> State {
    let mut state = State::new(CurrentScreen::Editor);
    state.push_buffer(Buffer::new(Vec::new(), Some(path.to_string())));
    state
}

fn ed_line(b: &Buffer, i: usize) -> String {
    b.lines[i].iter().collect()
}

#[test]
fn test_handle_input_save_file() {
    let mut state = ed_state_with("test_save.txt");
    let mut editor = Editor::new();

    let save = editor.handle_input(&mut state, Key::Char('H'), false);
    assert!(!save);

    let save = editor.handle_input(&mut state, Key::Char('s'), true);
    assert!(save);

    // the caller performs the write; the payload is the typed content
    let (path, text) = editor.save_current_buffer(&state).unwrap();
    assert_eq!(path, "test_save.txt");
    let text: String = text.into_iter().collect();
    assert_eq!(text, "H");

    editor.note_saved();
    assert!(editor.show_success_save);
}

#[test]
fn test_handle_input_current_buffer() {
    let mut state = ed_state_with("test_file.txt");
    let editor = Editor::new();

    editor.handle_input_current_buffer(&mut state, Key::Char('a'));
    let buffer = editor.get_current_buffer(&state).unwrap();
    assert_eq!(ed_line(buffer, 0), "a");
}

#[test]
fn test_success_message_resets_on_other_input() {
    let mut state = ed_state_with("test_file.txt");
    let mut editor = Editor::new();

    editor.show_success_save = true;

    editor.handle_input(&mut state, Key::Char('x'), false);
    assert!(!editor.show_success_save);
}

#[test]
fn test_editing_keys_drive_the_buffer() {
    let mut state = ed_state_with("e.txt");
    let editor = Editor::new();
    for c in "hi".chars() {
        editor.handle_input_current_buffer(&mut state, Key::Char(c));
    }
    editor.handle_input_current_buffer(&mut state, Key::Enter);
    editor.handle_input_current_buffer(&mut state, Key::Char('y'));
    {
        let b = editor.get_current_buffer(&state).unwrap();
        assert_eq!(ed_line(b, 0), "hi");
        assert_eq!(ed_line(b, 1), "y");
        assert_eq!(b.cursor(), (1, 1));
    }
    editor.handle_input_current_buffer(&mut state, Key::Backspace);
    editor.handle_input_current_buffer(&mut state, Key::Backspace);
    let b = editor.get_current_buffer(&state).unwrap();
    assert_eq!(b.line_count(), 1);
    assert_eq!(ed_line(b, 0), "hi");
}

#[test]
fn test_save_payload_without_file_is_none() {
    let mut state = State::new(CurrentScreen::Editor);
    let editor = Editor::new();
    assert!(editor.save_current_buffer(&state).is_none());
    state.push_buffer(Buffer::new(Vec::new(), None));
    assert!(editor.save_current_buffer(&state).is_none());
}

#[test]
fn test_get_buffer_list_is_empty_without_buffers() {
    let state = State::default();
    let editor = Editor::new();
    assert!(editor.get_buffer_list(&state).is_empty());
    assert!(editor.get_current_buffer(&state).is_none());
}

#[test]
fn test_route_key_quit_shortcut() {
    let mut state = ed_state_with("q.txt");
    let mut bar = ActionBar::new();
    let mut editor = Editor::new();
    let out = route_key(&mut state, &mut bar, &mut editor, Key::Char('q'), true);
    assert!(matches!(out, ShellEvent::Handled));
    assert!(state.exit);
}

#[test]
fn test_route_key_toggles_overlay() {
    let mut state = ed_state_with("t.txt");
    let mut bar = ActionBar::new();
    let mut editor = Editor::new();
    route_key(&mut state, &mut bar, &mut editor, Key::Char(' '), true);
    assert!(bar.show);
    route_key(&mut state, &mut bar, &mut editor, Key::Char(' '), true);
    assert!(!bar.show);
}

#[test]
fn test_route_key_editor_save_and_edit() {
    let mut state = ed_state_with("r.txt");
    let mut bar = ActionBar::new();
    let mut editor = Editor::new();
    let out = route_key(&mut state, &mut bar, &mut editor, Key::Char('k'), false);
    assert!(matches!(out, ShellEvent::Handled));
    assert_eq!(ed_line(editor.get_current_buffer(&state).unwrap(), 0), "k");
    let out = route_key(&mut state, &mut bar, &mut editor, Key::Char('s'), true);
    assert!(matches!(out, ShellEvent::SaveBuffer));
}

#[test]
fn test_route_key_overlay_takes_input() {
    let mut state = ed_state_with("o.txt");
    let mut bar = ActionBar::new();
    bar.show = true;
    let mut editor = Editor::new();
    let out = route_key(&mut state, &mut bar, &mut editor, Key::Char('n'), false);
    assert!(matches!(out, ShellEvent::Handled));
    assert_eq!(bar.current_action, divitext::action_bar::ActionType::NewFile);
    // the buffer below saw nothing
    assert_eq!(editor.get_current_buffer(&state).unwrap().line_count(), 1);
    assert_eq!(ed_line(editor.get_current_buffer(&state).unwrap(), 0), "");
}

#[test]
fn test_route_key_home_screen_ignores_keys() {
    let mut state = State::default();
    let mut bar = ActionBar::new();
    let mut editor = Editor::new();
    let out = route_key(&mut state, &mut bar, &mut editor, Key::Char('x'), false);
    assert!(matches!(out, ShellEvent::Handled));
    assert!(state.buffers.buffers.is_empty());
}
