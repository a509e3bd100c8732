use basalt::app::{active_component, calc_scroll_amount, normal_mode_raw_key, open_note, ActivePane, Modals, ScrollAmount, SelectedNote};
use basalt::note_editor::{KeyCode, KeyEvent, Message};
use basalt::state::NoteEditorState;

#[test]
fn scroll_amounts() {
    assert_eq!(calc_scroll_amount(&ScrollAmount::One, 40), 1);
    assert_eq!(calc_scroll_amount(&ScrollAmount::HalfPage, 41), 20);
    assert_eq!(calc_scroll_amount(&ScrollAmount::HalfPage, 1), 0);
}

#[test]
fn pane_labels() {
    assert_eq!(ActivePane::NoteEditor.label(), "Note Editor");
    assert_eq!(ActivePane::HelpModal.label(), "Help");
    assert_eq!(ActivePane::initial(), ActivePane::Splash);
}

#[test]
fn modals_take_input_first() {
    let none = Modals { debug_log: false, help: false, vault_selector: false, splash: false };
    assert_eq!(active_component(&none, ActivePane::Outline), ActivePane::Outline);
    let all = Modals { debug_log: true, help: true, vault_selector: true, splash: true };
    assert_eq!(active_component(&all, ActivePane::Outline), ActivePane::DebugLogModal);
    let help = Modals { help: true, splash: true, ..none };
    assert_eq!(active_component(&help, ActivePane::Explorer), ActivePane::HelpModal);
}

fn key(c: char) -> KeyEvent {
    KeyEvent::new(KeyCode::Char(c), false, false)
}

#[test]
fn raw_keys_in_normal_mode() {
    let mut editor = NoteEditorState::new("text\n", "n", "n.md");
    assert_eq!(normal_mode_raw_key(&editor, &key('0')), None, "a lone 0 is a motion");
    assert_eq!(normal_mode_raw_key(&editor, &key('7')), Some(Message::CountDigit(7)));
    assert_eq!(normal_mode_raw_key(&editor, &key('x')), None);
    assert_eq!(normal_mode_raw_key(&editor, &KeyEvent::new(KeyCode::Enter, false, false)), None);
    editor.push_count_digit(1);
    assert_eq!(normal_mode_raw_key(&editor, &key('0')), Some(Message::CountDigit(0)));
    editor.arm_find(true, false);
    assert_eq!(normal_mode_raw_key(&editor, &key('3')), Some(Message::FindTarget('3')));
    editor.arm_text_object(true);
    assert_eq!(normal_mode_raw_key(&editor, &key('w')), Some(Message::TextObjectTarget('w')));
    editor.arm_replace();
    assert_eq!(normal_mode_raw_key(&editor, &key('w')), Some(Message::ReplaceTarget('w')));
}

#[test]
fn opening_a_note() {
    let note = SelectedNote { name: "Todo".to_string(), path: "v/Todo.md".to_string(), content: "# Todo\n".to_string() };
    let read = open_note(&note, true, false);
    assert!(!read.is_editing());
    assert_eq!(read.content(), "# Todo\n");
    let edit = open_note(&note, true, true);
    assert!(edit.is_editing());
    assert!(edit.vim_mode() && edit.editor_enabled());
    assert!(edit.text_buffer().is_some());
    assert_eq!(edit.text_buffer().map(|b| b.block), Some(0));
    assert!(read.text_buffer().is_none());
    assert!(!read.active() && !edit.active());
}
