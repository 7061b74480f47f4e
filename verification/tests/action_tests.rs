use divitext::action_bar::ActionBar;
use divitext::action_bar::ActionRequest;
use divitext::action_bar::ActionType;
use divitext::buffer::Buffer;
use divitext::error_type::ErrorType;
use divitext::key::Key;
use divitext::new_file_widget::NewFileWidget;
use divitext::open_file_widget::OpenFileWidget;
use divitext::state::CurrentScreen;
use divitext::state::State;

fn at_state_with(paths: &[&str]) -> State {
    let mut state = State::default();
    for p in paths {
        state.push_buffer(Buffer::new(Vec::new(), Some(p.to_string())));
    }
    state
}

fn at_type(widget_input: &str) -> Vec<char> {
    widget_input.chars().collect()
}

#[test]
fn test_action_bar_new_defaults() {
    let action_bar = ActionBar::new();

    assert_eq!(action_bar.current_action, ActionType::Idle);
    assert_eq!(action_bar.show, false);
}

#[test]
fn test_handle_input_shortcuts() {
    let mut state = State::default();
    let mut action_bar = ActionBar::new();

    // Test New File
    action_bar.handle_input(Key::Char('n'), &mut state);
    assert_eq!(action_bar.current_action, ActionType::NewFile);

    action_bar.current_action = ActionType::Idle;

    // Test Open File
    action_bar.handle_input(Key::Char('o'), &mut state);
    assert_eq!(action_bar.current_action, ActionType::OpenFile);

    action_bar.current_action = ActionType::Idle;

    // Test Change Buffer
    action_bar.handle_input(Key::Char('b'), &mut state);
    assert_eq!(action_bar.current_action, ActionType::ChangeBuffer);

    action_bar.current_action = ActionType::Idle;

    // Test Delete Buffer
    action_bar.handle_input(Key::Char('d'), &mut state);
    assert_eq!(action_bar.current_action, ActionType::DeleteBuffer);

    action_bar.current_action = ActionType::Idle;

    // Test Escape
    action_bar.handle_input(Key::Esc, &mut state);
    assert_eq!(action_bar.current_action, ActionType::Idle);
    assert_eq!(action_bar.show, false);
}

#[test]
fn test_entering_list_mode_snapshots_collection() {
    let mut state = at_state_with(&["a.txt", "b.txt"]);
    let mut bar = ActionBar::new();
    bar.show = true;
    bar.handle_input(Key::Char('b'), &mut state);
    assert_eq!(bar.current_action, ActionType::ChangeBuffer);
    // the list reflects the collection at the moment the mode was entered
    assert_eq!(bar.buffer_navigation.items.len(), 2);
    assert_eq!(bar.buffer_navigation.items[0].file_path, "a.txt");
}

#[test]
fn test_create_new_file_success() {
    let mut state = State::default();
    let mut widget = NewFileWidget::new();
    widget.input = at_type("fresh.txt");

    let created = widget.create_new_file(&mut state, false);

    assert!(created);
    assert_eq!(widget.error, ErrorType::NONE);
    assert!(widget.input.is_empty());
    assert_eq!(state.current_screen, CurrentScreen::Editor);
    assert_eq!(state.buffers.buffers.len(), 1);
    assert_eq!(state.buffers.buffers[0].path, Some("fresh.txt".to_string()));
    assert_eq!(state.buffers.buffers[0].filename, Some("fresh.txt".to_string()));
    assert_eq!(state.buffers.buffers[0].lines, vec![Vec::<char>::new()]);
}

#[test]
fn test_create_new_file_already_exists() {
    let mut state = State::default();
    let mut widget = NewFileWidget::new();
    widget.input = at_type("test_existing_file.txt");

    let created = widget.create_new_file(&mut state, true);

    assert!(!created);
    assert_eq!(widget.error, ErrorType::FileExists);
    assert!(state.buffers.buffers.is_empty());
    assert_eq!(state.current_screen, CurrentScreen::Home);
}

#[test]
fn test_open_file_success() {
    let mut state = State::default();
    let mut widget = OpenFileWidget::new();
    widget.input = at_type("notes/todo.txt");
    let lines: Vec<Vec<char>> = vec!["dummy content".chars().collect()];

    let opened = widget.open_file(&mut state, Some(lines.clone()));

    assert!(opened);
    assert_eq!(widget.error, ErrorType::NONE);
    assert!(widget.input.is_empty());
    assert_eq!(state.current_screen, CurrentScreen::Editor);
    assert_eq!(state.buffers.buffers.len(), 1);
    assert_eq!(state.buffers.buffers[0].lines, lines);
    assert_eq!(state.buffers.buffers[0].path, Some("notes/todo.txt".to_string()));
    assert_eq!(state.buffers.buffers[0].filename, Some("todo.txt".to_string()));
}

#[test]
fn test_open_file_not_found() {
    let mut state = State::default();
    let mut widget = OpenFileWidget::new();
    widget.input = at_type("non_existing_file.txt");

    let opened = widget.open_file(&mut state, None);

    assert!(!opened);
    assert_eq!(widget.error, ErrorType::FileNotFound);
    assert!(state.buffers.buffers.is_empty());
}

#[test]
fn test_error_messages() {
    assert_eq!(ErrorType::FileExists.message(), "File already exists");
    assert_eq!(ErrorType::FileNotFound.message(), "File not found");
    assert_eq!(ErrorType::NONE.message(), "");
}

#[test]
fn test_new_file_flow_error_until_dismissed() {
    // the flow given a filename that already exists: the commit fails,
    // the error shows, and keys are swallowed until Enter or Space
    // dismisses it
    let mut state = State::default();
    let mut bar = ActionBar::new();
    bar.show = true;
    bar.handle_input(Key::Char('n'), &mut state);
    for c in "dup.txt".chars() {
        bar.handle_input(Key::Char(c), &mut state);
    }
    let req = bar.handle_input(Key::Enter, &mut state);
    let typed: String = match req {
        Some(ActionRequest::CheckNewFile(p)) => p.into_iter().collect(),
        _ => panic!("expected a disk check for the new file"),
    };
    assert_eq!(typed, "dup.txt");

    // the file exists: the flow reports the error and stays open
    bar.finish_new_file(&mut state, true);
    assert!(bar.new_file.has_error());
    assert_eq!(bar.new_file.error.message(), "File already exists");
    assert_eq!(bar.current_action, ActionType::NewFile);
    assert!(bar.show);
    assert!(state.buffers.buffers.is_empty());

    // any other key is swallowed while the error shows
    bar.handle_input(Key::Char('x'), &mut state);
    assert!(bar.new_file.has_error());
    let input_before: Vec<char> = bar.new_file.input.clone();

    // Enter dismisses the error without re-attempting, keeping the input
    let req2 = bar.handle_input(Key::Enter, &mut state);
    assert!(req2.is_none());
    assert!(!bar.new_file.has_error());
    assert_eq!(bar.new_file.input, input_before);
    assert_eq!(bar.current_action, ActionType::NewFile);
}

#[test]
fn test_error_dismissed_by_space() {
    let mut state = State::default();
    let mut bar = ActionBar::new();
    bar.show = true;
    bar.handle_input(Key::Char('o'), &mut state);
    bar.handle_input(Key::Char('g'), &mut state);
    bar.handle_input(Key::Enter, &mut state);
    bar.finish_open_file(&mut state, None);
    assert!(bar.open_file.has_error());
    assert_eq!(bar.open_file.error.message(), "File not found");

    bar.handle_input(Key::Char(' '), &mut state);
    assert!(!bar.open_file.has_error());
}

#[test]
fn test_new_file_commit_closes_overlay() {
    let mut state = State::default();
    let mut bar = ActionBar::new();
    bar.show = true;
    bar.handle_input(Key::Char('n'), &mut state);
    bar.handle_input(Key::Char('f'), &mut state);
    bar.handle_input(Key::Enter, &mut state);
    bar.finish_new_file(&mut state, false);
    assert!(!bar.show);
    assert_eq!(bar.current_action, ActionType::Idle);
    assert_eq!(state.buffers.buffers.len(), 1);
    assert_eq!(state.current_screen, CurrentScreen::Editor);
    assert!(bar.new_file.input.is_empty());
}

#[test]
fn test_escape_resets_every_flow() {
    let mut state = at_state_with(&["a.txt"]);
    let mut bar = ActionBar::new();
    bar.show = true;
    bar.handle_input(Key::Char('n'), &mut state);
    bar.handle_input(Key::Char('x'), &mut state);
    assert_eq!(bar.new_file.input, vec!['x']);

    bar.handle_input(Key::Esc, &mut state);
    assert!(!bar.show);
    assert_eq!(bar.current_action, ActionType::Idle);
    assert!(bar.new_file.input.is_empty());
    assert_eq!(bar.buffer_navigation.current, None);
}

#[test]
fn test_change_buffer_flow_switches_current() {
    let mut state = at_state_with(&["a.txt", "b.txt", "c.txt"]);
    let mut bar = ActionBar::new();
    bar.show = true;
    bar.handle_input(Key::Char('b'), &mut state);
    bar.handle_input(Key::Char('a'), &mut state);
    let req = bar.handle_input(Key::Enter, &mut state);
    assert!(req.is_none());
    assert_eq!(state.buffers.current, 0);
    assert!(!bar.show);
    assert_eq!(bar.current_action, ActionType::Idle);
}

#[test]
fn test_delete_buffer_flow_refusal_keeps_overlay() {
    // the close of the last remaining buffer is refused: the flow stays
    // open and reports nothing
    let mut state = at_state_with(&["only.txt"]);
    let mut bar = ActionBar::new();
    bar.show = true;
    bar.handle_input(Key::Char('d'), &mut state);
    bar.handle_input(Key::Home, &mut state);
    bar.handle_input(Key::Enter, &mut state);
    assert_eq!(state.buffers.buffers.len(), 1);
    assert!(bar.show);
    assert_eq!(bar.current_action, ActionType::DeleteBuffer);
}

#[test]
fn test_delete_buffer_flow_closes_selected() {
    let mut state = at_state_with(&["a.txt", "b.txt"]);
    let mut bar = ActionBar::new();
    bar.show = true;
    bar.handle_input(Key::Char('d'), &mut state);
    bar.handle_input(Key::Char('b'), &mut state);
    bar.handle_input(Key::Enter, &mut state);
    assert_eq!(state.buffers.buffers.len(), 1);
    assert_eq!(state.buffers.buffers[0].path, Some("a.txt".to_string()));
    assert!(!bar.show);
}
