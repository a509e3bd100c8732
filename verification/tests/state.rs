use basalt::state::{EditMode, EditorView, NoteEditorState, SelectionMode, Operator};

/// Row and display column of the cursor in the live content.
fn cursor_row_col(state: &NoteEditorState) -> (usize, usize) {
    let live = state.live_content();
    let before = &live[..state.cursor_offset()];
    let row = before.matches('\n').count();
    let col = state.cursor_column();
    (row, col)
}

fn assert_cursor_visible(state: &NoteEditorState, context: &str) {
    let (row, col) = cursor_row_col(state);
    let vp = state.viewport();
    assert!(
        row >= vp.top() && row < vp.bottom(),
        "{context}: cursor row {row} outside viewport [{}, {})",
        vp.top(),
        vp.bottom(),
    );
    assert!(
        col >= vp.left() && col < vp.right(),
        "{context}: cursor column {col} outside viewport [{}, {})",
        vp.left(),
        vp.right(),
    );
}

fn edit_state(content: &str) -> NoteEditorState {
    let mut state = NoteEditorState::new(content, "test", "test.md");
    state.resize_viewport(40, 10);
    state.set_view(EditorView::Edit(EditMode::Source));
    state
}

#[test]
fn test_merge_into_previous_block_keeps_text() {
    let mut state = NoteEditorState::new("- item one\n\nsecond paragraph\n", "test", "test.md");
    state.resize_viewport(50, 12);
    state.set_view(EditorView::Edit(EditMode::Source));

    // Down to the blank, then onto "second paragraph", then merge it up.
    state.cursor_down(1);
    state.cursor_down(1);
    assert_eq!(state.cursor_offset(), 12);
    state.delete_char();

    assert!(state.live_content().contains("second paragraph"));
    state.commit_text_buffer();
    assert_eq!(state.content(), "- item one\nsecond paragraph\n");
}

#[test]
fn test_delete_blank_before_item_keeps_item_intact() {
    let mut state = NoteEditorState::new("- first\n\n- second item text\n", "test", "test.md");
    state.resize_viewport(50, 12);
    state.set_view(EditorView::Edit(EditMode::Source));

    // Onto the blank line between the items, then delete it.
    state.cursor_down(1);
    state.delete_char();

    assert!(state.live_content().contains("second item text"));
    state.commit_text_buffer();
    assert_eq!(state.content(), "- first\n- second item text\n");
}

#[test]
fn test_loose_list_blank_not_doubled_when_item_raw() {
    let mut state = NoteEditorState::new("- a\n\n- b\n", "test", "test.md");
    state.resize_viewport(40, 12);
    state.set_view(EditorView::Edit(EditMode::Source));

    // The blank between the items is reachable, so it can be edited away.
    state.cursor_down(1);
    assert_eq!(
        state.cursor_offset(),
        4,
        "cursor should land on the blank line between the items",
    );
    state.delete_char();
    state.commit_text_buffer();
    assert_eq!(state.content(), "- a\n- b\n");
}

/// On a tab-indented line the cursor column lines up with the displayed
/// (tab-expanded) text: a tab is one byte but two columns.
#[test]
fn test_cursor_column_aligns_on_tab_indented_line() {
    let mut state = NoteEditorState::new("- a\n\t- b\n", "test", "test.md");
    state.resize_viewport(40, 12);
    state.set_view(EditorView::Edit(EditMode::Source));
    state.cursor_down(1); // onto "\t- b" -> raw "  - b", cursor on 'b'

    // 'b' is byte offset 7; the tab (1 byte) renders as 2 columns, so 'b'
    // sits at display column 4, not 3.
    assert_eq!(state.cursor_offset(), 7);
    assert_eq!(state.cursor_column(), 4);

    // Stepping left onto the marker stays aligned with the display.
    state.cursor_left(2);
    assert_eq!(state.cursor_offset(), 5); // the '-'
    assert_eq!(state.cursor_column(), 2); // after the 2-col tab
}

/// Moving up keeps the display column: from 'b' (column 4 after a tab) the
/// cursor lands on the char at column 4 of the line above.
#[test]
fn tab_column_is_kept_moving_up() {
    let mut state = NoteEditorState::new("abcdefg\n\t\tx\n", "test", "test.md");
    state.resize_viewport(40, 12);
    state.set_view(EditorView::Edit(EditMode::Source));
    state.cursor_down(1);
    assert_eq!(state.cursor_offset(), 8); // the first tab, column 0
    state.cursor_right(2);
    assert_eq!(state.cursor_offset(), 10); // 'x'
    assert_eq!(state.cursor_column(), 4);
    state.cursor_up(1);
    assert_eq!(state.cursor_offset(), 4); // 'e' at column 4
    assert_eq!(state.cursor_column(), 4);
}

/// Landing on a bulleted line inside its indentation puts the cursor on the
/// item's text, past the bullet.
#[test]
fn landing_skips_item_bullet() {
    let mut state = NoteEditorState::new("text here\n  * item\n", "test", "test.md");
    state.resize_viewport(40, 12);
    state.set_view(EditorView::Edit(EditMode::Source));
    state.cursor_right(1);
    state.cursor_down(1);
    assert_eq!(state.cursor_offset(), 14); // 'i' of "item"
    assert_eq!(state.cursor_column(), 4);
}

#[test]
fn test_newline_at_start_of_list_item_preserves_text() {
    let mut state = NoteEditorState::new("- hello world\n", "test", "test.md");
    state.resize_viewport(40, 10);
    state.set_view(EditorView::Edit(EditMode::Source));

    state.insert_char('\n');

    assert!(state.live_content().contains("- hello world"));
    // Cursor lands on the item, now on the second line, at its start.
    assert_eq!(state.cursor_offset(), 1);
    assert_eq!(cursor_row_col(&state), (1, 0));
}

#[test]
fn test_viewport_scrolls_with_cursor_in_edit_mode() {
    let content = "# Title\n\nLine 1\n\nLine 2\n\nLine 3\n\nLine 4\n\nLine 5\n";

    let mut state = NoteEditorState::new(content, "test", "test.md");
    state.resize_viewport(40, 4);

    state.cursor_down(2);
    state.set_view(EditorView::Edit(EditMode::Source));

    state.insert_char('\n');
    state.insert_char('\n');
    state.insert_char('\n');
    state.insert_char('\n');
    assert_cursor_visible(&state, "after insert_char");

    state.cursor_right(20);
    assert_cursor_visible(&state, "after cursor_right");

    state.cursor_left(20);
    assert_cursor_visible(&state, "after cursor_left");

    state.cursor_down(5);
    assert_cursor_visible(&state, "after cursor_down");

    state.cursor_up(5);
    assert_cursor_visible(&state, "after cursor_up");
}

#[test]
fn test_viewport_scrolls_horizontally_on_long_code_line() {
    let long = "x".repeat(100);
    let content = format!("```\n{long}\n```\n");

    let mut state = NoteEditorState::new(&content, "test", "test.md");
    state.resize_viewport(20, 10);
    state.set_view(EditorView::Edit(EditMode::Source));

    // Land on the code line and walk to its end.
    state.cursor_down(1);
    assert_eq!(state.viewport().left(), 0, "no scroll at line start");

    state.cursor_right(80);
    let panned = state.viewport().left();
    assert!(panned > 0, "viewport should pan right to follow the cursor");
    assert_cursor_visible(&state, "after cursor_right on long line");

    state.cursor_left(80);
    assert!(state.viewport().left() < panned, "viewport should pan back toward the start");
    assert_cursor_visible(&state, "after cursor_left on long line");
}

#[test]
fn test_charwise_selection_is_inclusive() {
    let mut state = edit_state("hello world\n");

    state.toggle_selection(SelectionMode::Char);
    state.cursor_right(4);

    assert_eq!(state.selected_text().as_deref(), Some("hello"));
}

#[test]
fn test_charwise_selection_extends_backwards() {
    let mut state = edit_state("hello world\n");

    state.cursor_right(4);
    state.toggle_selection(SelectionMode::Char);
    state.cursor_left(4);

    assert_eq!(state.selected_text().as_deref(), Some("hello"));
}

#[test]
fn test_linewise_selection_covers_whole_line() {
    let mut state = edit_state("line one\nline two\n");

    state.cursor_right(3);
    state.toggle_selection(SelectionMode::Line);

    assert_eq!(state.selected_text().as_deref(), Some("line one\n"));
}

#[test]
fn test_toggle_same_mode_clears_selection() {
    let mut state = edit_state("hello\n");

    state.toggle_selection(SelectionMode::Char);
    assert!(state.is_selecting());

    state.toggle_selection(SelectionMode::Char);
    assert!(!state.is_selecting());
    assert_eq!(state.selection_range(), None);
}

// ---------------------------------------------------------------------------

#[test]
fn new_state_starts_in_read_view_at_the_top() {
    let state = NoteEditorState::new("abc", "name", "dir/name.md");
    assert!(!state.is_editing());
    assert_eq!(state.cursor_offset(), 0);
    assert_eq!(state.content(), "abc");
    assert_eq!(state.filename(), "name");
    assert_eq!(state.filepath(), "dir/name.md");
    assert!(!state.modified());
    assert_eq!(EditorView::Read.label(), "READ");
    assert_eq!(EditorView::Edit(EditMode::Source).label(), "EDIT");
}

#[test]
fn undo_restores_and_redo_reapplies() {
    let mut state = edit_state("abc\n");
    state.splice(1..2, "XYZ");
    assert_eq!(state.content(), "aXYZc\n");
    assert_eq!(state.cursor_offset(), 4, "cursor after the inserted text");
    assert!(state.undo());
    assert_eq!(state.content(), "abc\n");
    assert!(state.redo());
    assert_eq!(state.content(), "aXYZc\n");
    assert!(!state.redo(), "nothing left to redo");
    assert!(state.undo());
    assert!(!state.undo(), "nothing left to undo");
    assert_eq!(state.content(), "abc\n");
}

#[test]
fn count_digits_accumulate_and_saturate() {
    let mut state = edit_state("x\n");
    assert!(!state.has_pending_count());
    state.push_count_digit(4);
    state.push_count_digit(2);
    assert_eq!(state.pending_hint(), "42");
    state.set_operator(Operator::Delete);
    assert_eq!(state.pending_hint(), "42d");
    assert_eq!(state.take_count(), Some(42));
    for _ in 0..30 {
        state.push_count_digit(9);
    }
    assert_eq!(state.take_count(), Some(usize::MAX));
}

#[test]
fn paste_linewise_before_lands_on_first_nonblank() {
    let mut state = edit_state("a\n  b\n");
    state.set_register("  line\n".to_string(), true);
    state.cursor_down(1);
    state.paste(false);
    assert_eq!(state.content(), "a\n  line\n  b\n");
    assert_eq!(state.cursor_offset(), 4);
}

#[test]
fn jump_to_offset_snaps_to_a_char_boundary() {
    let mut state = edit_state("aé b\n");
    state.jump_to_offset(2); // inside 'é'
    assert_eq!(state.cursor_offset(), 1);
    state.jump_to_offset(100);
    assert_eq!(state.cursor_offset(), 6);
}

#[test]
fn cursor_jump_goes_to_block_start() {
    let mut state = edit_state("one\n\ntwo\n\nthree\n");
    state.cursor_jump(2);
    assert_eq!(state.cursor_offset(), 10);
    assert_eq!(state.current_block_idx(), 2);
    state.cursor_jump(7);
    assert_eq!(state.cursor_offset(), 10, "no such block: the cursor stays");
    state.cursor_up(1);
    assert_eq!(state.current_block_idx(), 1);
    assert_eq!(state.cursor_offset(), 9, "entering the block above lands on its end");
}

#[test]
fn vertical_moves_keep_the_column() {
    let mut state = edit_state("abcdef\nxy\nlmnopq\n");
    state.cursor_right(4);
    state.cursor_down(1);
    assert_eq!(state.cursor_offset(), 9, "clamped to the short line's end");
    state.cursor_down(1);
    assert_eq!(state.cursor_offset(), 12);
}

#[test]
fn resize_scrolls_to_keep_the_cursor() {
    let mut state = NoteEditorState::new("a\nb\nc\nd\ne\n", "n", "n.md");
    state.resize_viewport(10, 5);
    state.cursor_down(4);
    assert_eq!(state.viewport().top(), 0);
    state.resize_viewport(10, 2);
    assert_eq!(state.viewport().top(), 3);
    assert_eq!(state.viewport().bottom(), 5);
}
