use basalt::app::{ActivePane, ExplorerMessage, Message as AppMessage, OutlineMessage, ScrollAmount, ToastLevel, ToastMessage};
use basalt::note_editor::{handle_editing_event, save_finished, update, KeyCode, KeyEvent, Message};
use basalt::state::{EditMode, EditorView, NoteEditorState, Operator};

fn vim_edit_state(content: &str) -> NoteEditorState {
    let mut state = NoteEditorState::new(content, "test", "test.md");
    state.set_vim_mode(true);
    state.resize_viewport(40, 10);
    state.set_view(EditorView::Edit(EditMode::Source));
    state
}

fn send(message: Message, state: &mut NoteEditorState) -> Option<AppMessage> {
    update(message, 10, state, 0)
}

#[test]
fn test_yank_emits_copy_to_clipboard() {
    let mut state = vim_edit_state("hello world\n");

    send(Message::VisualMode, &mut state);
    send(Message::CursorRight, &mut state);
    send(Message::CursorRight, &mut state);
    send(Message::CursorRight, &mut state);
    send(Message::CursorRight, &mut state);

    let message = send(Message::Operator(Operator::Yank), &mut state);

    assert_eq!(message, Some(AppMessage::CopyToClipboard("hello".to_string())));
    assert!(!state.is_selecting(), "yank should clear the selection");
    assert_eq!(state.yank_flash_range(0), Some(0..5), "yank should flash the copied range");
}

#[test]
fn test_yank_without_selection_arms_operator() {
    let mut state = vim_edit_state("hello world\n");
    // y with no selection arms the yank operator rather than copying.
    assert_eq!(send(Message::Operator(Operator::Yank), &mut state), None);
    assert_eq!(state.pending_operator(), Some(Operator::Yank));
}

#[test]
fn test_line_and_word_motions() {
    let mut state = vim_edit_state("foo bar baz\n");

    send(Message::CursorLineEnd, &mut state);
    assert_eq!(state.cursor_offset(), 10, "$ lands on the last char");

    send(Message::CursorLineStart, &mut state);
    assert_eq!(state.cursor_offset(), 0, "0 lands on the first col");

    send(Message::CursorWordForward, &mut state);
    assert_eq!(state.cursor_offset(), 4, "w lands on 'bar'");

    send(Message::CursorWordEnd, &mut state);
    assert_eq!(state.cursor_offset(), 6, "e lands on end of 'bar'");

    send(Message::CursorWordBackward, &mut state);
    assert_eq!(state.cursor_offset(), 4, "b lands on start of 'bar'");
}

#[test]
fn test_motion_crosses_block_boundary() {
    let mut state = vim_edit_state("# Title\n\nsecond paragraph\n");

    // Jump straight to the last block, then to its end.
    send(Message::CursorDocEnd, &mut state);
    let content = state.content().clone();
    let second = content.find("second").unwrap();
    assert!(
        state.cursor_offset() >= second,
        "G reaches the second block (offset {} >= {second})",
        state.cursor_offset(),
    );
    assert!(state.current_block_idx() >= 1, "cursor is in a later block");

    send(Message::CursorDocStart, &mut state);
    assert_eq!(state.cursor_offset(), 0, "gg returns to the first block");
    assert_eq!(state.current_block_idx(), 0);
}

#[test]
fn test_find_char_and_repeat() {
    // a b c x d e f x
    let mut state = vim_edit_state("abcxdefx\n");

    send(Message::FindChar { forward: true, till: false }, &mut state);
    send(Message::FindTarget('x'), &mut state);
    assert_eq!(state.cursor_offset(), 3, "f x -> first x");

    send(Message::RepeatFind { reverse: false }, &mut state);
    assert_eq!(state.cursor_offset(), 7, "; -> next x");

    send(Message::RepeatFind { reverse: true }, &mut state);
    assert_eq!(state.cursor_offset(), 3, ", -> back to first x");
}

#[test]
fn test_till_stops_before_target() {
    let mut state = vim_edit_state("abcxdef\n");
    send(Message::FindChar { forward: true, till: true }, &mut state);
    send(Message::FindTarget('x'), &mut state);
    assert_eq!(state.cursor_offset(), 2, "t x -> just before x");
}

#[test]
fn test_count_repeats_word_motion() {
    // one two three four
    let mut state = vim_edit_state("one two three four\n");

    send(Message::CountDigit(3), &mut state);
    send(Message::CursorWordForward, &mut state);
    assert_eq!(state.cursor_offset(), 14, "3w -> start of 'four'");
}

#[test]
fn test_multi_digit_count() {
    let mut state = vim_edit_state("abcdefghijklmno\n");

    send(Message::CountDigit(1), &mut state);
    send(Message::CountDigit(2), &mut state);
    send(Message::CursorRight, &mut state);
    assert_eq!(state.cursor_offset(), 12, "12l -> offset 12");
}

fn delete(state: &mut NoteEditorState) {
    update(Message::Operator(Operator::Delete), 12, state, 0);
}

#[test]
fn test_delete_word() {
    let mut state = vim_edit_state("foo bar baz\n");
    delete(&mut state);
    update(Message::CursorWordForward, 12, &mut state, 0);
    assert_eq!(state.content(), "bar baz\n", "dw removes the first word and space");
}

#[test]
fn test_delete_line_doubled_operator() {
    let mut state = vim_edit_state("line one\nline two\nline three\n");
    delete(&mut state);
    delete(&mut state); // dd
    assert_eq!(state.content(), "line two\nline three\n");
}

#[test]
fn test_change_word_is_change_to_end() {
    let mut state = vim_edit_state("foo bar\n");
    update(Message::Operator(Operator::Change), 12, &mut state, 0);
    update(Message::CursorWordForward, 12, &mut state, 0);
    assert_eq!(state.content(), " bar\n", "cw changes to word end, keeping the space");
    assert!(state.insert_mode(), "change enters insert mode");
}

#[test]
fn test_delete_char_under_cursor() {
    let mut state = vim_edit_state("abc\n");
    send(Message::DeleteUnderCursor, &mut state);
    assert_eq!(state.content(), "bc\n");
    assert_eq!(state.register().text, "a");
}

#[test]
fn test_yank_line_and_paste() {
    let mut state = vim_edit_state("one\ntwo\n");
    send(Message::Operator(Operator::Yank), &mut state);
    send(Message::Operator(Operator::Yank), &mut state); // yy
    assert!(state.register().linewise);
    send(Message::PasteAfter, &mut state);
    assert_eq!(state.content(), "one\none\ntwo\n", "p pastes the line below");
}

#[test]
fn test_undo_redo() {
    let mut state = vim_edit_state("hello\n");
    delete(&mut state);
    delete(&mut state); // dd -> empty
    assert_eq!(state.content(), "");
    send(Message::Undo, &mut state);
    assert_eq!(state.content(), "hello\n", "u restores the deleted line");
    send(Message::Redo, &mut state);
    assert_eq!(state.content(), "", "ctrl+r reapplies the delete");
}

#[test]
fn test_change_inner_quotes() {
    let mut state = vim_edit_state("say \"hello\" now\n");
    send(Message::Operator(Operator::Change), &mut state); // c
    send(Message::InsertMode, &mut state); // i (inner, operator pending)
    send(Message::TextObjectTarget('"'), &mut state); // "
    assert_eq!(state.content(), "say \"\" now\n", "ci\" clears inside the quotes");
    assert!(state.insert_mode(), "change enters insert mode");
}

#[test]
fn test_change_word_in_second_block() {
    let mut state = vim_edit_state("# Title\n\nThe quick brown fox\n");
    let t = state.content().find("The").unwrap();
    state.jump_to_offset(t);
    update(Message::Operator(Operator::Change), 12, &mut state, 0);
    update(Message::CursorWordForward, 12, &mut state, 0);
    for character in "swift".chars() {
        update(
            Message::KeyEvent(KeyEvent::new(KeyCode::Char(character), false, false)),
            12,
            &mut state,
            0,
        );
    }
    update(Message::Exit, 12, &mut state, 0);
    assert_eq!(state.content(), "# Title\n\nswift quick brown fox\n");
}

#[test]
fn test_replace_char() {
    let mut state = vim_edit_state("cat\n");
    send(Message::ReplaceChar, &mut state);
    send(Message::ReplaceTarget('b'), &mut state);
    assert_eq!(state.content(), "bat\n");
    assert!(!state.insert_mode(), "r stays in normal mode");
    assert_eq!(state.cursor_offset(), 0, "cursor stays on replaced char");
    assert!(!state.awaiting_replace(), "replace is one-shot: the next key is not swallowed");
}

#[test]
fn test_replace_char_with_count() {
    let mut state = vim_edit_state("cat\n");
    send(Message::CountDigit(3), &mut state);
    send(Message::ReplaceChar, &mut state);
    send(Message::ReplaceTarget('x'), &mut state);
    assert_eq!(state.content(), "xxx\n", "3rx replaces three chars");
}

#[test]
fn test_delete_around_parens() {
    let mut state = vim_edit_state("call(a, b)\n");
    // Move onto the '(' first — bracket objects need the cursor inside the pair.
    send(Message::FindChar { forward: true, till: false }, &mut state);
    send(Message::FindTarget('('), &mut state);
    send(Message::Operator(Operator::Delete), &mut state); // d
    send(Message::Append, &mut state); // a (around, operator pending)
    send(Message::TextObjectTarget('('), &mut state);
    assert_eq!(state.content(), "call\n", "da( removes the whole (...)");
}

#[test]
fn test_word_forward_big_skips_punctuation() {
    let mut state = vim_edit_state("foo.bar baz\n");
    send(Message::CursorWordForwardBig, &mut state);
    assert_eq!(state.cursor_offset(), 8, "W treats foo.bar as one WORD");
}

#[test]
fn test_visual_delete_selection() {
    let mut state = vim_edit_state("hello world\n");
    send(Message::VisualMode, &mut state);
    for _ in 0..4 {
        send(Message::CursorRight, &mut state);
    }
    send(Message::Operator(Operator::Delete), &mut state);
    assert_eq!(state.content(), " world\n", "v + motion + d deletes the selection");
}

// ---------------------------------------------------------------------------

#[test]
fn pending_find_lasts_one_key() {
    let mut state = vim_edit_state("abcx\n");
    send(Message::FindChar { forward: true, till: false }, &mut state);
    assert!(state.awaiting_find_target());
    send(Message::CursorRight, &mut state);
    assert!(!state.awaiting_find_target(), "any other key disarms the find");
    assert_eq!(state.cursor_offset(), 1);
}

#[test]
fn delete_to_line_end_and_change_to_line_end() {
    let mut state = vim_edit_state("abc def\nxyz\n");
    send(Message::CursorWordForward, &mut state);
    send(Message::DeleteToLineEnd, &mut state);
    assert_eq!(state.content(), "abc \nxyz\n");
    assert_eq!(state.register().text, "def");
    let mut state = vim_edit_state("abc def\n");
    send(Message::ChangeToLineEnd, &mut state);
    assert_eq!(state.content(), "\n");
    assert!(state.insert_mode());
}

#[test]
fn substitute_with_count_enters_insert() {
    let mut state = vim_edit_state("abcdef\n");
    send(Message::CountDigit(2), &mut state);
    send(Message::SubstituteChar, &mut state);
    assert_eq!(state.content(), "cdef\n");
    assert_eq!(state.register().text, "ab");
    assert!(state.insert_mode());
}

#[test]
fn paste_before_charwise() {
    let mut state = vim_edit_state("ab\n");
    send(Message::DeleteUnderCursor, &mut state); // register "a", content "b\n"
    send(Message::PasteBefore, &mut state);
    assert_eq!(state.content(), "ab\n");
    // The cursor rests on the pasted char, so `p` lands after the 'b'.
    send(Message::PasteAfter, &mut state);
    assert_eq!(state.content(), "aba\n");
}

#[test]
fn matching_pair_moves_and_deletes() {
    let mut state = vim_edit_state("(ab) c\n");
    send(Message::MatchingPair, &mut state);
    assert_eq!(state.cursor_offset(), 3);
    send(Message::Operator(Operator::Delete), &mut state);
    send(Message::MatchingPair, &mut state);
    assert_eq!(state.content(), " c\n");
}

#[test]
fn dw_on_multibyte_text() {
    let mut state = vim_edit_state("héllo wörld\n");
    delete(&mut state);
    send(Message::CursorWordForward, &mut state);
    assert_eq!(state.content(), "wörld\n");
}

#[test]
fn count_goto_line_and_paragraphs() {
    let mut state = vim_edit_state("one\ntwo\n\nthree\n");
    send(Message::CountDigit(2), &mut state);
    send(Message::CursorDocEnd, &mut state);
    assert_eq!(state.cursor_offset(), 4, "2G lands on line two");
    send(Message::ParagraphForward, &mut state);
    assert_eq!(state.cursor_offset(), 8, "}} stops on the blank line");
    send(Message::ParagraphBackward, &mut state);
    assert_eq!(state.cursor_offset(), 0);
}

#[test]
fn insert_mode_typing_and_backspace() {
    let mut state = NoteEditorState::new("ac\n", "n", "n.md");
    state.set_editor_enabled(true);
    send(Message::EditView, &mut state);
    assert!(state.insert_mode());
    send(Message::CursorRight, &mut state);
    let r = send(Message::KeyEvent(KeyEvent::new(KeyCode::Char('b'), false, false)), &mut state);
    assert_eq!(r, Some(AppMessage::UpdateSelectedNoteContent("ac\n".to_string(), false)));
    assert_eq!(state.live_content(), "abc\n");
    assert!(state.modified());
    send(Message::Delete, &mut state);
    assert_eq!(state.live_content(), "ac\n");
    let r = send(Message::Exit, &mut state);
    assert_eq!(r, Some(AppMessage::UpdateSelectedNoteContent("ac\n".to_string(), true)));
    assert!(!state.is_editing(), "without vim mode Esc leaves for read view");
    assert!(!state.modified(), "the edits cancelled each other out");
}

#[test]
fn read_view_ignores_edit_keys_unless_enabled() {
    let mut state = NoteEditorState::new("text\n", "n", "n.md");
    assert_eq!(send(Message::ToggleView, &mut state), None);
    assert!(!state.is_editing());
    state.set_editor_enabled(true);
    send(Message::ToggleView, &mut state);
    assert!(state.is_editing());
    assert!(!state.insert_mode());
}

#[test]
fn pane_messages() {
    let mut state = vim_edit_state("x\n");
    assert_eq!(
        send(Message::ToggleExplorer, &mut state),
        Some(AppMessage::Explorer(ExplorerMessage::Toggle))
    );
    assert_eq!(
        send(Message::ToggleOutline, &mut state),
        Some(AppMessage::Outline(OutlineMessage::Toggle))
    );
    state.set_active(true);
    assert_eq!(
        send(Message::SwitchPaneNext, &mut state),
        Some(AppMessage::SetActivePane(ActivePane::Outline))
    );
    assert!(!state.active());
    assert_eq!(
        send(Message::SwitchPanePrevious, &mut state),
        Some(AppMessage::SetActivePane(ActivePane::Explorer))
    );
}

#[test]
fn scroll_messages_report_the_block() {
    let mut state = vim_edit_state("a\n\nb\n\nc\n");
    let r = send(Message::ScrollDown(ScrollAmount::HalfPage), &mut state);
    assert_eq!(state.cursor_offset(), 6);
    assert_eq!(r, Some(AppMessage::Outline(OutlineMessage::SelectAt(2))));
    let r = send(Message::ScrollToTop, &mut state);
    assert_eq!(state.cursor_offset(), 0);
    assert_eq!(r, Some(AppMessage::Outline(OutlineMessage::SelectAt(0))));
    send(Message::ScrollToBottom, &mut state);
    assert_eq!(state.current_block_idx(), 2);
}

#[test]
fn save_round_trip() {
    let mut state = vim_edit_state("abc\n");
    assert_eq!(send(Message::Save, &mut state), None, "nothing to save");
    send(Message::DeleteUnderCursor, &mut state);
    let r = send(Message::Save, &mut state);
    assert_eq!(
        r,
        Some(AppMessage::WriteNote { path: "test.md".to_string(), content: "bc\n".to_string() })
    );
    match save_finished(&mut state, true) {
        Some(AppMessage::Batch(batch)) => {
            assert_eq!(batch.len(), 2);
            assert_eq!(batch[0], AppMessage::UpdateSelectedNoteContent("bc\n".to_string(), false));
            match &batch[1] {
                AppMessage::Toast(ToastMessage::Create(toast)) => {
                    assert_eq!(toast.level, ToastLevel::Success);
                    assert_eq!(toast.message, "File saved");
                }
                other => panic!("unexpected {other:?}"),
            }
        }
        other => panic!("unexpected {other:?}"),
    }
    assert!(!state.modified());
    match save_finished(&mut state, false) {
        Some(AppMessage::Toast(ToastMessage::Create(toast))) => {
            assert_eq!(toast.level, ToastLevel::Error);
            assert_eq!(toast.message, "Failed to save file");
        }
        other => panic!("unexpected {other:?}"),
    }
}

#[test]
fn editing_keys_map_to_messages() {
    let key = |code| KeyEvent::new(code, false, false);
    assert_eq!(handle_editing_event(key(KeyCode::Up)), Some(Message::CursorUp));
    assert_eq!(handle_editing_event(key(KeyCode::Esc)), Some(Message::Exit));
    assert_eq!(handle_editing_event(key(KeyCode::Backspace)), Some(Message::Delete));
    assert_eq!(
        handle_editing_event(KeyEvent::new(KeyCode::Char('f'), false, true)),
        Some(Message::CursorWordForward)
    );
    assert_eq!(
        handle_editing_event(KeyEvent::new(KeyCode::Char('e'), true, false)),
        Some(Message::ToggleView)
    );
    let plain = key(KeyCode::Char('f'));
    assert_eq!(handle_editing_event(plain), Some(Message::KeyEvent(plain)));
}

#[test]
fn yank_flash_fades() {
    let mut state = vim_edit_state("hello\n");
    send(Message::Operator(Operator::Yank), &mut state);
    update(Message::Operator(Operator::Yank), 10, &mut state, 1000);
    assert_eq!(state.yank_flash_range(1100), Some(0..6));
    assert_eq!(state.yank_flash_range(1150), None);
}

#[test]
fn yank_keeps_the_text() {
    let mut state = vim_edit_state("one two\n");
    send(Message::Operator(Operator::Yank), &mut state);
    let r = send(Message::CursorWordForward, &mut state);
    assert_eq!(r, Some(AppMessage::CopyToClipboard("one ".to_string())));
    assert_eq!(state.content(), "one two\n");
    assert_eq!(state.register().text, "one ");
    assert_eq!(state.cursor_offset(), 0, "yank moves to the start of the range");
}

#[test]
fn percent_twice_comes_back() {
    let mut state = vim_edit_state("x (a[b]c) y\n");
    send(Message::FindChar { forward: true, till: false }, &mut state);
    send(Message::FindTarget('['), &mut state);
    assert_eq!(state.cursor_offset(), 4);
    send(Message::MatchingPair, &mut state);
    assert_eq!(state.cursor_offset(), 6);
    send(Message::MatchingPair, &mut state);
    assert_eq!(state.cursor_offset(), 4);
}

#[test]
fn undo_after_paste_and_redo() {
    let mut state = vim_edit_state("ab\n");
    send(Message::DeleteUnderCursor, &mut state);
    send(Message::PasteAfter, &mut state);
    assert_eq!(state.content(), "ba\n");
    send(Message::Undo, &mut state);
    assert_eq!(state.content(), "b\n");
    send(Message::Undo, &mut state);
    assert_eq!(state.content(), "ab\n");
    send(Message::Redo, &mut state);
    send(Message::Redo, &mut state);
    assert_eq!(state.content(), "ba\n");
}

#[test]
fn pending_text_object_and_replace_last_one_key() {
    let mut state = vim_edit_state("abc\n");
    send(Message::Operator(Operator::Delete), &mut state);
    send(Message::InsertMode, &mut state);
    assert!(state.awaiting_text_object());
    // The operator is still pending, so `l` deletes a char instead.
    send(Message::CursorRight, &mut state);
    assert!(!state.awaiting_text_object());
    assert_eq!(state.content(), "bc\n");
    send(Message::ReplaceChar, &mut state);
    assert!(state.awaiting_replace());
    send(Message::CursorLeft, &mut state);
    assert!(!state.awaiting_replace());
    assert_eq!(state.content(), "bc\n");
}
