use divitext::buffer::Buffer;
use divitext::buffer_list_widget::BufferItem;
use divitext::buffer_list_widget::BufferListWidget;
use divitext::buffer_list_widget::ListPurpose;
use divitext::key::Key;
use divitext::state::BufferCollection;

fn wt_collection(paths: &[&str]) -> BufferCollection {
    let mut coll = BufferCollection::new();
    for p in paths {
        coll.push_buffer(Buffer::new(Vec::new(), Some(p.to_string())));
    }
    coll
}

fn wt_test_collection() -> BufferCollection {
    wt_collection(&["file1.txt", "file2.txt", "file3.txt"])
}

#[test]
fn test_buffer_list_widget_new() {
    let widget = BufferListWidget::new("Test Title", ListPurpose::Navigation);

    assert!(widget.items.is_empty());
    assert_eq!(widget.current, None);
    assert_eq!(widget.title, "Test Title");
}

#[test]
fn test_factory_methods() {
    let navigation_widget = BufferListWidget::for_navigation();
    assert_eq!(navigation_widget.title, "Buffer List");
    assert_eq!(navigation_widget.purpose, ListPurpose::Navigation);

    let deletion_widget = BufferListWidget::for_deletion();
    assert_eq!(deletion_widget.title, "Delete Buffer");
    assert_eq!(deletion_widget.purpose, ListPurpose::Deletion);
}

#[test]
fn test_refresh_list() {
    let coll = wt_test_collection();
    let mut widget = BufferListWidget::new("Test", ListPurpose::Navigation);

    widget.refresh_list(&coll);

    assert_eq!(widget.items.len(), 3);
    assert_eq!(widget.items[0].file_path, "file1.txt");
    assert_eq!(widget.items[1].file_path, "file2.txt");
    assert_eq!(widget.items[2].file_path, "file3.txt");

    assert_eq!(widget.items[0].buffer_index, 0);
    assert_eq!(widget.items[1].buffer_index, 1);
    assert_eq!(widget.items[2].buffer_index, 2);
}

#[test]
fn test_refresh_list_assigns_mnemonic_letters() {
    let coll = wt_test_collection();
    let mut widget = BufferListWidget::for_navigation();
    widget.refresh_list(&coll);
    assert_eq!(widget.items[0].char, 'a');
    assert_eq!(widget.items[1].char, 'b');
    assert_eq!(widget.items[2].char, 'c');
}

#[test]
fn test_refresh_list_skips_pathless_buffers() {
    let mut coll = wt_collection(&["x.txt"]);
    coll.push_buffer(Buffer::new(Vec::new(), None));
    coll.push_buffer(Buffer::new(Vec::new(), Some("y.txt".to_string())));
    let mut widget = BufferListWidget::for_navigation();
    widget.refresh_list(&coll);
    assert_eq!(widget.items.len(), 2);
    assert_eq!(widget.items[0].file_path, "x.txt");
    assert_eq!(widget.items[1].file_path, "y.txt");
    // the letters follow the list, the indices follow the collection
    assert_eq!(widget.items[1].char, 'b');
    assert_eq!(widget.items[1].buffer_index, 2);
}

#[test]
fn test_mnemonic_letters_exhaust_to_dash() {
    let names: Vec<String> = (0..28).map(|i| format!("f{}.txt", i)).collect();
    let mut coll = BufferCollection::new();
    for n in &names {
        coll.push_buffer(Buffer::new(Vec::new(), Some(n.clone())));
    }
    let mut widget = BufferListWidget::for_navigation();
    widget.refresh_list(&coll);
    assert_eq!(widget.items[25].char, 'z');
    assert_eq!(widget.items[26].char, '-');
    assert_eq!(widget.items[27].char, '-');
}

#[test]
fn test_select_navigation() {
    let coll = wt_test_collection();
    let mut widget = BufferListWidget::new("Test", ListPurpose::Navigation);
    widget.refresh_list(&coll);

    // Initially no selection
    assert_eq!(widget.current, None);

    // Select first
    widget.select_first();
    assert_eq!(widget.current, Some(0));

    // Select next
    widget.select_next();
    assert_eq!(widget.current, Some(1));

    // Select last
    widget.select_last();
    assert_eq!(widget.current, Some(2));

    // Try to go beyond last (should stay at last)
    widget.select_next();
    assert_eq!(widget.current, Some(2));

    // Select previous
    widget.select_previous();
    assert_eq!(widget.current, Some(1));

    // Reset selection
    widget.select_none();
    assert_eq!(widget.current, None);
}

#[test]
fn test_handle_event_navigation_keys() {
    let coll = wt_test_collection();
    let mut widget = BufferListWidget::for_navigation();
    widget.refresh_list(&coll);

    widget.handle_event(Key::Down);
    assert_eq!(widget.current, Some(0));
    widget.handle_event(Key::Right);
    assert_eq!(widget.current, Some(1));
    widget.handle_event(Key::Up);
    assert_eq!(widget.current, Some(0));
    widget.handle_event(Key::End);
    assert_eq!(widget.current, Some(2));
    widget.handle_event(Key::Home);
    assert_eq!(widget.current, Some(0));
    // an uppercase mnemonic jumps case-insensitively
    widget.handle_event(Key::Char('B'));
    assert_eq!(widget.current, Some(1));
    // a letter with no entry leaves the selection alone
    widget.handle_event(Key::Char('z'));
    assert_eq!(widget.current, Some(1));
    // an unrelated key does nothing
    widget.handle_event(Key::Tab);
    assert_eq!(widget.current, Some(1));
}

#[test]
fn test_process_action_navigation() {
    let mut coll = wt_test_collection();
    let mut widget = BufferListWidget::for_navigation();
    widget.refresh_list(&coll);

    widget.select_by_letter('b');
    assert_eq!(widget.current, Some(1));

    let result = widget.process_action(&mut coll);
    assert!(result);

    assert_eq!(coll.current, 1);
}

#[test]
fn test_process_action_deletion() {
    let mut coll = wt_test_collection();
    let mut widget = BufferListWidget::for_deletion();
    widget.refresh_list(&coll);

    widget.select_by_letter('b');
    assert_eq!(widget.current, Some(1));

    // Verify there is 3 buffer
    assert_eq!(coll.buffers.len(), 3);

    // remove buffer
    let result = widget.process_action(&mut coll);
    assert!(result);

    // Verify there is 2 buffer after delete
    assert_eq!(coll.buffers.len(), 2);
    assert_eq!(coll.buffers[0].path, Some("file1.txt".to_string()));
    assert_eq!(coll.buffers[1].path, Some("file3.txt".to_string()));
}

#[test]
fn test_delete_current_buffer() {
    let mut coll = wt_test_collection();
    coll.select(1);

    let mut widget = BufferListWidget::for_deletion();
    widget.refresh_list(&coll);

    widget.select_by_letter('b');
    let result = widget.process_action(&mut coll);
    assert!(result);

    assert_eq!(coll.current, 0);
    assert_eq!(coll.buffers.len(), 2);
}

#[test]
fn test_prevent_delete_last_buffer() {
    let mut coll = wt_collection(&["only_file.txt"]);

    let mut widget = BufferListWidget::for_deletion();
    widget.refresh_list(&coll);

    widget.select_first();
    let result = widget.process_action(&mut coll);

    assert!(!result);
    assert_eq!(coll.buffers.len(), 1);
}

#[test]
fn test_process_action_without_selection_does_nothing() {
    let mut coll = wt_test_collection();
    let widget_nav = BufferListWidget::for_navigation();
    assert!(!widget_nav.process_action(&mut coll));
    assert_eq!(coll.buffers.len(), 3);
    assert_eq!(coll.current, 2);
}

#[test]
fn test_process_action_with_stale_selection_does_nothing() {
    // the list was built over three buffers, two of which are closed
    // before the selection is committed: the stale entry points past the
    // collection and committing it does nothing
    let mut coll = wt_test_collection();
    let mut widget = BufferListWidget::for_deletion();
    widget.refresh_list(&coll);
    widget.select_last();
    coll.close(2);
    coll.close(1);
    assert_eq!(coll.buffers.len(), 1);
    assert!(!widget.process_action(&mut coll));
    assert_eq!(coll.buffers.len(), 1);
}

#[test]
fn test_buffer_item_label() {
    let item = BufferItem::new("file1.txt".to_string(), 0, 'a');
    let label: String = item.label().into_iter().collect();
    assert_eq!(label, "a file1.txt");
}

#[test]
fn test_reset_clears_selection_keeps_items() {
    let coll = wt_test_collection();
    let mut widget = BufferListWidget::for_navigation();
    widget.refresh_list(&coll);
    widget.select_first();
    widget.reset();
    assert_eq!(widget.current, None);
    assert_eq!(widget.items.len(), 3);
}
