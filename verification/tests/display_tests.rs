use divitext::display::Display;

#[test]
fn test_get_displayable_lines() {
    let d = Display::new(80, 24, 5);
    assert_eq!(d.get_displayable_lines(), (5, 29));
}

#[test]
fn test_scroll_for_cursor_scenario() {
    // height 10, first visible line 0: a cursor on line 15 scrolls the
    // window down to start at 6 (15 - 10 + 1); a cursor on line 3 after
    // that pulls the window up to start at 3
    let mut d = Display::new(80, 10, 0);
    d.scroll_for_cursor(15);
    assert_eq!(d.first_line_visible, 6);
    d.scroll_for_cursor(3);
    assert_eq!(d.first_line_visible, 3);
}

#[test]
fn test_scroll_for_cursor_inside_window_does_nothing() {
    let mut d = Display::new(80, 10, 6);
    d.scroll_for_cursor(6);
    assert_eq!(d.first_line_visible, 6);
    d.scroll_for_cursor(15);
    assert_eq!(d.first_line_visible, 6);
}

#[test]
fn test_scroll_boundaries_are_exact() {
    let mut d = Display::new(80, 10, 6);
    // the first line past the bottom triggers a scroll of exactly one
    d.scroll_for_cursor(16);
    assert_eq!(d.first_line_visible, 7);
    // the line just above the window pulls it up to that line
    d.scroll_for_cursor(6);
    assert_eq!(d.first_line_visible, 6);
}

#[test]
fn test_resize_keeps_cursor_visible() {
    let mut d = Display::new(80, 10, 6);
    // shrinking the window below the cursor line scrolls it into view
    d.resize(80, 3, 12);
    assert_eq!(d.height, 3);
    assert_eq!(d.first_line_visible, 10);
    assert!(d.first_line_visible <= 12 && 12 < d.first_line_visible + d.height);
    // growing it again leaves a visible cursor alone
    d.resize(80, 20, 12);
    assert_eq!(d.first_line_visible, 10);
}
