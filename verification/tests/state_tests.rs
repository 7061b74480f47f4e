use divitext::buffer::Buffer;
use divitext::state::BufferCollection;
use divitext::state::CurrentScreen;
use divitext::state::State;

fn st_buffer(path: &str) -> Buffer {
    Buffer::new(Vec::new(), Some(path.to_string()))
}

fn st_collection(paths: &[&str]) -> BufferCollection {
    let mut coll = BufferCollection::new();
    for p in paths {
        coll.push_buffer(st_buffer(p));
    }
    coll
}

#[test]
fn test_state_default() {
    let state = State::default();
    assert_eq!(state.current_screen, CurrentScreen::Home);
    assert_eq!(state.buffers.current, 0);
    assert!(state.buffers.buffers.is_empty());
    assert_eq!(state.exit, false);
}

#[test]
fn test_state_new() {
    let state = State::new(CurrentScreen::Editor);
    assert_eq!(state.current_screen, CurrentScreen::Editor);
    assert_eq!(state.buffers.current, 0);
    assert!(state.buffers.buffers.is_empty());
    assert_eq!(state.exit, false);
}

#[test]
fn test_push_buffer() {
    let mut state = State::default();
    let buffer = st_buffer("test.txt");

    state.push_buffer(buffer);

    assert_eq!(state.buffers.buffers.len(), 1);
    assert_eq!(state.buffers.current, 0);
    assert_eq!(state.buffers.buffers[0].path, Some("test.txt".to_string()));
}

#[test]
fn test_push_multiple_buffers() {
    let mut state = State::default();

    state.push_buffer(st_buffer("file1.txt"));
    assert_eq!(state.buffers.current, 0);

    state.push_buffer(st_buffer("file2.txt"));
    assert_eq!(state.buffers.current, 1);
    assert_eq!(state.buffers.buffers.len(), 2);
}

#[test]
fn test_update_screen() {
    let mut state = State::default();
    state.current_screen = CurrentScreen::Editor;
    assert_eq!(state.current_screen, CurrentScreen::Editor);
}

#[test]
fn test_exit_flag() {
    let mut state = State::default();
    assert_eq!(state.exit, false);

    state.exit = true;
    assert_eq!(state.exit, true);
}

#[test]
fn test_select_in_and_out_of_range() {
    let mut coll = st_collection(&["a", "b", "c"]);
    assert!(coll.select(0));
    assert_eq!(coll.current, 0);
    assert!(coll.select(2));
    assert_eq!(coll.current, 2);
    // an out-of-range index is refused and changes nothing
    assert!(!coll.select(3));
    assert_eq!(coll.current, 2);
}

#[test]
fn test_close_refuses_last_buffer() {
    // closing the only buffer is refused and the collection keeps its
    // single element
    let mut coll = st_collection(&["only.txt"]);
    let removed = coll.close(0);
    assert!(!removed);
    assert_eq!(coll.buffers.len(), 1);
}

#[test]
fn test_close_active_buffer_activates_previous() {
    // closing the active buffer at index k > 0 sets current to k - 1
    let mut coll = st_collection(&["a", "b", "c"]);
    coll.select(2);
    assert!(coll.close(2));
    assert_eq!(coll.current, 1);
    assert_eq!(coll.buffers.len(), 2);
}

#[test]
fn test_close_first_active_buffer_keeps_zero() {
    let mut coll = st_collection(&["a", "b"]);
    coll.select(0);
    assert!(coll.close(0));
    assert_eq!(coll.current, 0);
    assert_eq!(coll.buffers[0].path, Some("b".to_string()));
}

#[test]
fn test_close_below_current_shifts_current_down() {
    // closing index k when current > k decrements current by one
    let mut coll = st_collection(&["a", "b", "c"]);
    coll.select(2);
    assert!(coll.close(0));
    assert_eq!(coll.current, 1);
    assert_eq!(coll.buffers[1].path, Some("c".to_string()));
}

#[test]
fn test_close_above_current_keeps_current() {
    // closing index k when current < k leaves current unchanged
    let mut coll = st_collection(&["a", "b", "c"]);
    coll.select(0);
    assert!(coll.close(2));
    assert_eq!(coll.current, 0);
    assert_eq!(coll.buffers.len(), 2);
}

#[test]
fn test_close_out_of_range_is_refused() {
    let mut coll = st_collection(&["a", "b"]);
    assert!(!coll.close(5));
    assert_eq!(coll.buffers.len(), 2);
}

#[test]
fn test_rename_or_associate_sets_path_and_name() {
    let mut coll = BufferCollection::new();
    coll.push_buffer(Buffer::new(Vec::new(), None));
    let path: Vec<char> = "dir/sub/note.txt".chars().collect();
    coll.rename_or_associate(0, &path);
    assert_eq!(coll.buffers[0].path, Some("dir/sub/note.txt".to_string()));
    assert_eq!(coll.buffers[0].filename, Some("note.txt".to_string()));
    // an out-of-range index changes nothing
    coll.rename_or_associate(9, &path);
    assert_eq!(coll.buffers.len(), 1);
}
