//! Commands that key bindings name, and how each becomes an application message.

use vstd::prelude::*;

use crate::app::{
    DebugLogMessage, ExplorerMessage, HelpModalMessage, InputMessage, Message, OutlineMessage,
    ScrollAmount, SplashMessage, VaultSelectorModalMessage,
};
use crate::note_editor::Message as EditorMessage;
use crate::state::Operator;
use crate::text::{is_whitespace, push_char, unicode_white_space, Text};

verus! {

/// An action a key binding can name.
#[derive(Clone, Debug, PartialEq, Eq)]
pub enum Command {
    Quit,

    SplashUp,
    SplashDown,
    SplashOpen,

    ExplorerUp,
    ExplorerDown,
    ExplorerOpen,
    ExplorerSort,
    ExplorerToggle,
    ExplorerNewUntitledNote,
    ExplorerNewUntitledFolder,
    ExplorerToggleInputRename,
    ExplorerToggleOutline,
    ExplorerSwitchPaneNext,
    ExplorerSwitchPanePrevious,
    ExplorerHidePane,
    ExplorerExpandPane,
    ExplorerScrollUpOne,
    ExplorerScrollDownOne,
    ExplorerScrollUpHalfPage,
    ExplorerScrollDownHalfPage,

    OutlineUp,
    OutlineDown,
    OutlineSelect,
    OutlineExpand,
    OutlineToggle,
    OutlineToggleExplorer,
    OutlineSwitchPaneNext,
    OutlineSwitchPanePrevious,

    HelpModalScrollUpOne,
    HelpModalScrollDownOne,
    HelpModalScrollUpHalfPage,
    HelpModalScrollDownHalfPage,
    HelpModalToggle,
    HelpModalClose,

    NoteEditorScrollUpOne,
    NoteEditorScrollDownOne,
    NoteEditorScrollUpHalfPage,
    NoteEditorScrollDownHalfPage,
    NoteEditorSwitchPaneNext,
    NoteEditorSwitchPanePrevious,
    NoteEditorToggleExplorer,
    NoteEditorToggleOutline,
    NoteEditorCursorUp,
    NoteEditorCursorDown,
    NoteEditorScrollToTop,
    NoteEditorScrollToBottom,

    ExplorerScrollToTop,
    ExplorerScrollToBottom,

    NoteEditorExperimentalCursorWordForward,
    NoteEditorExperimentalCursorWordBackward,
    NoteEditorExperimentalToggleView,
    NoteEditorExperimentalSetEditView,
    NoteEditorExperimentalSetReadView,
    NoteEditorExperimentalSave,
    NoteEditorExperimentalExit,
    NoteEditorExperimentalCursorLeft,
    NoteEditorExperimentalCursorRight,
    NoteEditorInsertMode,
    NoteEditorAppend,
    NoteEditorReplaceChar,
    NoteEditorVisualMode,
    NoteEditorVisualLineMode,
    NoteEditorCursorLineStart,
    NoteEditorCursorLineEnd,
    NoteEditorCursorFirstNonblank,
    NoteEditorCursorWordEnd,
    NoteEditorCursorWordForwardBig,
    NoteEditorCursorWordBackwardBig,
    NoteEditorCursorWordEndBig,
    NoteEditorParagraphForward,
    NoteEditorParagraphBackward,
    NoteEditorMatchingPair,
    NoteEditorCursorDocStart,
    NoteEditorCursorDocEnd,
    NoteEditorFindForward,
    NoteEditorFindBackward,
    NoteEditorTillForward,
    NoteEditorTillBackward,
    NoteEditorRepeatFind,
    NoteEditorRepeatFindReverse,
    NoteEditorDelete,
    NoteEditorChange,
    NoteEditorYankOperator,
    NoteEditorDeleteUnderCursor,
    NoteEditorDeleteToLineEnd,
    NoteEditorChangeToLineEnd,
    NoteEditorSubstituteChar,
    NoteEditorPasteAfter,
    NoteEditorPasteBefore,
    NoteEditorUndo,
    NoteEditorRedo,

    VaultSelectorModalUp,
    VaultSelectorModalDown,
    VaultSelectorModalClose,
    VaultSelectorModalOpen,
    VaultSelectorModalToggle,

    DebugLogToggle,
    DebugLogClose,
    DebugLogClear,
    DebugLogCycleLevel,
    DebugLogScrollUpOne,
    DebugLogScrollDownOne,
    DebugLogScrollUpHalfPage,
    DebugLogScrollDownHalfPage,

    InputModalWordForward,
    InputModalWordBackward,
    InputModalLeft,
    InputModalRight,
    InputModalCancel,
    InputModalAccept,
    InputModalEditMode,

    Exec(String),
    Spawn(String),
}

/// The command table for quitting, the splash screen, the explorer and the input modal.
pub open spec fn pane_commands(s: Seq<char>) -> Option<Command> {
    if s == "quit"@ {
        Some(Command::Quit)
    } else if s == "splash_up"@ {
        Some(Command::SplashUp)
    } else if s == "splash_down"@ {
        Some(Command::SplashDown)
    } else if s == "splash_open"@ {
        Some(Command::SplashOpen)
    } else if s == "explorer_up"@ {
        Some(Command::ExplorerUp)
    } else if s == "explorer_down"@ {
        Some(Command::ExplorerDown)
    } else if s == "explorer_open"@ {
        Some(Command::ExplorerOpen)
    } else if s == "explorer_sort"@ {
        Some(Command::ExplorerSort)
    } else if s == "explorer_toggle"@ {
        Some(Command::ExplorerToggle)
    } else if s == "explorer_new_untitled_note"@ {
        Some(Command::ExplorerNewUntitledNote)
    } else if s == "explorer_new_untitled_folder"@ {
        Some(Command::ExplorerNewUntitledFolder)
    } else if s == "explorer_toggle_outline"@ {
        Some(Command::ExplorerToggleOutline)
    } else if s == "explorer_toggle_input_rename"@ {
        Some(Command::ExplorerToggleInputRename)
    } else if s == "explorer_switch_pane_next"@ {
        Some(Command::ExplorerSwitchPaneNext)
    } else if s == "explorer_hide_pane"@ {
        Some(Command::ExplorerHidePane)
    } else if s == "explorer_expand_pane"@ {
        Some(Command::ExplorerExpandPane)
    } else if s == "explorer_switch_pane_previous"@ {
        Some(Command::ExplorerSwitchPanePrevious)
    } else if s == "explorer_scroll_up_one"@ {
        Some(Command::ExplorerScrollUpOne)
    } else if s == "explorer_scroll_down_one"@ {
        Some(Command::ExplorerScrollDownOne)
    } else if s == "explorer_scroll_up_half_page"@ {
        Some(Command::ExplorerScrollUpHalfPage)
    } else if s == "explorer_scroll_down_half_page"@ {
        Some(Command::ExplorerScrollDownHalfPage)
    } else if s == "input_modal_word_forward"@ {
        Some(Command::InputModalWordForward)
    } else if s == "input_modal_word_backward"@ {
        Some(Command::InputModalWordBackward)
    } else if s == "input_modal_left"@ {
        Some(Command::InputModalLeft)
    } else if s == "input_modal_right"@ {
        Some(Command::InputModalRight)
    } else if s == "input_modal_cancel"@ {
        Some(Command::InputModalCancel)
    } else if s == "input_modal_accept"@ {
        Some(Command::InputModalAccept)
    } else if s == "input_modal_edit_mode"@ {
        Some(Command::InputModalEditMode)
    } else if s == "explorer_scroll_to_top"@ {
        Some(Command::ExplorerScrollToTop)
    } else if s == "explorer_scroll_to_bottom"@ {
        Some(Command::ExplorerScrollToBottom)
    } else {
        None
    }
}

/// The command table for the outline, the help modal, the vault selector and the debug log.
pub open spec fn panel_commands(s: Seq<char>) -> Option<Command> {
    if s == "outline_up"@ {
        Some(Command::OutlineUp)
    } else if s == "outline_down"@ {
        Some(Command::OutlineDown)
    } else if s == "outline_select"@ {
        Some(Command::OutlineSelect)
    } else if s == "outline_expand"@ {
        Some(Command::OutlineExpand)
    } else if s == "outline_toggle"@ {
        Some(Command::OutlineToggle)
    } else if s == "outline_toggle_explorer"@ {
        Some(Command::OutlineToggleExplorer)
    } else if s == "outline_switch_pane_next"@ {
        Some(Command::OutlineSwitchPaneNext)
    } else if s == "outline_switch_pane_previous"@ {
        Some(Command::OutlineSwitchPanePrevious)
    } else if s == "help_modal_scroll_up_one"@ {
        Some(Command::HelpModalScrollUpOne)
    } else if s == "help_modal_scroll_down_one"@ {
        Some(Command::HelpModalScrollDownOne)
    } else if s == "help_modal_scroll_up_half_page"@ {
        Some(Command::HelpModalScrollUpHalfPage)
    } else if s == "help_modal_scroll_down_half_page"@ {
        Some(Command::HelpModalScrollDownHalfPage)
    } else if s == "help_modal_toggle"@ {
        Some(Command::HelpModalToggle)
    } else if s == "help_modal_close"@ {
        Some(Command::HelpModalClose)
    } else if s == "vault_selector_modal_up"@ {
        Some(Command::VaultSelectorModalUp)
    } else if s == "vault_selector_modal_down"@ {
        Some(Command::VaultSelectorModalDown)
    } else if s == "vault_selector_modal_close"@ {
        Some(Command::VaultSelectorModalClose)
    } else if s == "vault_selector_modal_open"@ {
        Some(Command::VaultSelectorModalOpen)
    } else if s == "vault_selector_modal_toggle"@ {
        Some(Command::VaultSelectorModalToggle)
    } else if s == "debug_log_toggle"@ {
        Some(Command::DebugLogToggle)
    } else if s == "debug_log_close"@ {
        Some(Command::DebugLogClose)
    } else if s == "debug_log_clear"@ {
        Some(Command::DebugLogClear)
    } else if s == "debug_log_cycle_level"@ {
        Some(Command::DebugLogCycleLevel)
    } else if s == "debug_log_scroll_up_one"@ {
        Some(Command::DebugLogScrollUpOne)
    } else if s == "debug_log_scroll_down_one"@ {
        Some(Command::DebugLogScrollDownOne)
    } else if s == "debug_log_scroll_up_half_page"@ {
        Some(Command::DebugLogScrollUpHalfPage)
    } else if s == "debug_log_scroll_down_half_page"@ {
        Some(Command::DebugLogScrollDownHalfPage)
    } else {
        None
    }
}

/// The command table for scrolling and moving in the note editor, its views and saving.
pub open spec fn editor_commands(s: Seq<char>) -> Option<Command> {
    if s == "note_editor_scroll_up_one"@ {
        Some(Command::NoteEditorScrollUpOne)
    } else if s == "note_editor_scroll_down_one"@ {
        Some(Command::NoteEditorScrollDownOne)
    } else if s == "note_editor_scroll_up_half_page"@ {
        Some(Command::NoteEditorScrollUpHalfPage)
    } else if s == "note_editor_scroll_down_half_page"@ {
        Some(Command::NoteEditorScrollDownHalfPage)
    } else if s == "note_editor_switch_pane_next"@ {
        Some(Command::NoteEditorSwitchPaneNext)
    } else if s == "note_editor_switch_pane_previous"@ {
        Some(Command::NoteEditorSwitchPanePrevious)
    } else if s == "note_editor_toggle_explorer"@ {
        Some(Command::NoteEditorToggleExplorer)
    } else if s == "note_editor_toggle_outline"@ {
        Some(Command::NoteEditorToggleOutline)
    } else if s == "note_editor_cursor_up"@ {
        Some(Command::NoteEditorCursorUp)
    } else if s == "note_editor_cursor_down"@ {
        Some(Command::NoteEditorCursorDown)
    } else if s == "note_editor_scroll_to_top"@ {
        Some(Command::NoteEditorScrollToTop)
    } else if s == "note_editor_scroll_to_bottom"@ {
        Some(Command::NoteEditorScrollToBottom)
    } else if s == "note_editor_experimental_cursor_word_forward"@ {
        Some(Command::NoteEditorExperimentalCursorWordForward)
    } else if s == "note_editor_experimental_cursor_word_backward"@ {
        Some(Command::NoteEditorExperimentalCursorWordBackward)
    } else if s == "note_editor_experimental_set_edit_view"@ {
        Some(Command::NoteEditorExperimentalSetEditView)
    } else if s == "note_editor_experimental_toggle_view"@ {
        Some(Command::NoteEditorExperimentalToggleView)
    } else if s == "note_editor_experimental_set_read_view"@ {
        Some(Command::NoteEditorExperimentalSetReadView)
    } else if s == "note_editor_experimental_save"@ {
        Some(Command::NoteEditorExperimentalSave)
    } else if s == "note_editor_experimental_exit"@ {
        Some(Command::NoteEditorExperimentalExit)
    } else if s == "note_editor_experimental_cursor_left"@ {
        Some(Command::NoteEditorExperimentalCursorLeft)
    } else if s == "note_editor_experimental_cursor_right"@ {
        Some(Command::NoteEditorExperimentalCursorRight)
    } else {
        None
    }
}

/// The command table for the vim editing grammar of the note editor.
pub open spec fn vim_commands(s: Seq<char>) -> Option<Command> {
    if s == "note_editor_insert_mode"@ {
        Some(Command::NoteEditorInsertMode)
    } else if s == "note_editor_append"@ {
        Some(Command::NoteEditorAppend)
    } else if s == "note_editor_replace_char"@ {
        Some(Command::NoteEditorReplaceChar)
    } else if s == "note_editor_visual_mode"@ {
        Some(Command::NoteEditorVisualMode)
    } else if s == "note_editor_visual_line_mode"@ {
        Some(Command::NoteEditorVisualLineMode)
    } else if s == "note_editor_delete"@ {
        Some(Command::NoteEditorDelete)
    } else if s == "note_editor_change"@ {
        Some(Command::NoteEditorChange)
    } else if s == "note_editor_yank"@ {
        Some(Command::NoteEditorYankOperator)
    } else if s == "note_editor_delete_under_cursor"@ {
        Some(Command::NoteEditorDeleteUnderCursor)
    } else if s == "note_editor_delete_to_line_end"@ {
        Some(Command::NoteEditorDeleteToLineEnd)
    } else if s == "note_editor_change_to_line_end"@ {
        Some(Command::NoteEditorChangeToLineEnd)
    } else if s == "note_editor_substitute_char"@ {
        Some(Command::NoteEditorSubstituteChar)
    } else if s == "note_editor_paste_after"@ {
        Some(Command::NoteEditorPasteAfter)
    } else if s == "note_editor_paste_before"@ {
        Some(Command::NoteEditorPasteBefore)
    } else if s == "note_editor_undo"@ {
        Some(Command::NoteEditorUndo)
    } else if s == "note_editor_redo"@ {
        Some(Command::NoteEditorRedo)
    } else if s == "note_editor_cursor_line_start"@ {
        Some(Command::NoteEditorCursorLineStart)
    } else if s == "note_editor_cursor_line_end"@ {
        Some(Command::NoteEditorCursorLineEnd)
    } else if s == "note_editor_cursor_first_non_blank"@ {
        Some(Command::NoteEditorCursorFirstNonblank)
    } else if s == "note_editor_cursor_word_end"@ {
        Some(Command::NoteEditorCursorWordEnd)
    } else if s == "note_editor_cursor_word_forward_big"@ {
        Some(Command::NoteEditorCursorWordForwardBig)
    } else if s == "note_editor_cursor_word_backward_big"@ {
        Some(Command::NoteEditorCursorWordBackwardBig)
    } else if s == "note_editor_cursor_word_end_big"@ {
        Some(Command::NoteEditorCursorWordEndBig)
    } else if s == "note_editor_paragraph_forward"@ {
        Some(Command::NoteEditorParagraphForward)
    } else if s == "note_editor_paragraph_backward"@ {
        Some(Command::NoteEditorParagraphBackward)
    } else if s == "note_editor_matching_pair"@ {
        Some(Command::NoteEditorMatchingPair)
    } else if s == "note_editor_cursor_doc_start"@ {
        Some(Command::NoteEditorCursorDocStart)
    } else if s == "note_editor_cursor_doc_end"@ {
        Some(Command::NoteEditorCursorDocEnd)
    } else if s == "note_editor_find_forward"@ {
        Some(Command::NoteEditorFindForward)
    } else if s == "note_editor_find_backward"@ {
        Some(Command::NoteEditorFindBackward)
    } else if s == "note_editor_till_forward"@ {
        Some(Command::NoteEditorTillForward)
    } else if s == "note_editor_till_backward"@ {
        Some(Command::NoteEditorTillBackward)
    } else if s == "note_editor_repeat_find"@ {
        Some(Command::NoteEditorRepeatFind)
    } else if s == "note_editor_repeat_find_reverse"@ {
        Some(Command::NoteEditorRepeatFindReverse)
    } else {
        None
    }
}

/// The command table for old names kept working for the editor views.
pub open spec fn deprecated_commands(s: Seq<char>) -> Option<Command> {
    if s == "note_editor_experimental_set_edit_mode"@ {
        Some(Command::NoteEditorExperimentalSetEditView)
    } else if s == "note_editor_experimental_set_read_mode"@ {
        Some(Command::NoteEditorExperimentalSetReadView)
    } else if s == "note_editor_experimental_exit_mode"@ {
        Some(Command::NoteEditorExperimentalExit)
    } else {
        None
    }
}

/// The command named by `s` in a key binding, if any.
pub open spec fn command_of(s: Seq<char>) -> Option<Command> {
    match pane_commands(s) {
        Some(c) => Some(c),
        None => match panel_commands(s) {
        Some(c) => Some(c),
        None => match editor_commands(s) {
        Some(c) => Some(c),
        None => match vim_commands(s) {
        Some(c) => Some(c),
        None => match deprecated_commands(s) {
        Some(c) => Some(c),
        None => None,
    },
    },
    },
    },
    }
}

fn pane_commands_exec(t: &Text) -> (r: Option<Command>)
    ensures
        r == pane_commands(t.chars@),
{
    if text_is(t, "quit") {
        return Some(Command::Quit);
    }
    if text_is(t, "splash_up") {
        return Some(Command::SplashUp);
    }
    if text_is(t, "splash_down") {
        return Some(Command::SplashDown);
    }
    if text_is(t, "splash_open") {
        return Some(Command::SplashOpen);
    }
    if text_is(t, "explorer_up") {
        return Some(Command::ExplorerUp);
    }
    if text_is(t, "explorer_down") {
        return Some(Command::ExplorerDown);
    }
    if text_is(t, "explorer_open") {
        return Some(Command::ExplorerOpen);
    }
    if text_is(t, "explorer_sort") {
        return Some(Command::ExplorerSort);
    }
    if text_is(t, "explorer_toggle") {
        return Some(Command::ExplorerToggle);
    }
    if text_is(t, "explorer_new_untitled_note") {
        return Some(Command::ExplorerNewUntitledNote);
    }
    if text_is(t, "explorer_new_untitled_folder") {
        return Some(Command::ExplorerNewUntitledFolder);
    }
    if text_is(t, "explorer_toggle_outline") {
        return Some(Command::ExplorerToggleOutline);
    }
    if text_is(t, "explorer_toggle_input_rename") {
        return Some(Command::ExplorerToggleInputRename);
    }
    if text_is(t, "explorer_switch_pane_next") {
        return Some(Command::ExplorerSwitchPaneNext);
    }
    if text_is(t, "explorer_hide_pane") {
        return Some(Command::ExplorerHidePane);
    }
    if text_is(t, "explorer_expand_pane") {
        return Some(Command::ExplorerExpandPane);
    }
    if text_is(t, "explorer_switch_pane_previous") {
        return Some(Command::ExplorerSwitchPanePrevious);
    }
    if text_is(t, "explorer_scroll_up_one") {
        return Some(Command::ExplorerScrollUpOne);
    }
    if text_is(t, "explorer_scroll_down_one") {
        return Some(Command::ExplorerScrollDownOne);
    }
    if text_is(t, "explorer_scroll_up_half_page") {
        return Some(Command::ExplorerScrollUpHalfPage);
    }
    if text_is(t, "explorer_scroll_down_half_page") {
        return Some(Command::ExplorerScrollDownHalfPage);
    }
    if text_is(t, "input_modal_word_forward") {
        return Some(Command::InputModalWordForward);
    }
    if text_is(t, "input_modal_word_backward") {
        return Some(Command::InputModalWordBackward);
    }
    if text_is(t, "input_modal_left") {
        return Some(Command::InputModalLeft);
    }
    if text_is(t, "input_modal_right") {
        return Some(Command::InputModalRight);
    }
    if text_is(t, "input_modal_cancel") {
        return Some(Command::InputModalCancel);
    }
    if text_is(t, "input_modal_accept") {
        return Some(Command::InputModalAccept);
    }
    if text_is(t, "input_modal_edit_mode") {
        return Some(Command::InputModalEditMode);
    }
    if text_is(t, "explorer_scroll_to_top") {
        return Some(Command::ExplorerScrollToTop);
    }
    if text_is(t, "explorer_scroll_to_bottom") {
        return Some(Command::ExplorerScrollToBottom);
    }
    None
}

fn panel_commands_exec(t: &Text) -> (r: Option<Command>)
    ensures
        r == panel_commands(t.chars@),
{
    if text_is(t, "outline_up") {
        return Some(Command::OutlineUp);
    }
    if text_is(t, "outline_down") {
        return Some(Command::OutlineDown);
    }
    if text_is(t, "outline_select") {
        return Some(Command::OutlineSelect);
    }
    if text_is(t, "outline_expand") {
        return Some(Command::OutlineExpand);
    }
    if text_is(t, "outline_toggle") {
        return Some(Command::OutlineToggle);
    }
    if text_is(t, "outline_toggle_explorer") {
        return Some(Command::OutlineToggleExplorer);
    }
    if text_is(t, "outline_switch_pane_next") {
        return Some(Command::OutlineSwitchPaneNext);
    }
    if text_is(t, "outline_switch_pane_previous") {
        return Some(Command::OutlineSwitchPanePrevious);
    }
    if text_is(t, "help_modal_scroll_up_one") {
        return Some(Command::HelpModalScrollUpOne);
    }
    if text_is(t, "help_modal_scroll_down_one") {
        return Some(Command::HelpModalScrollDownOne);
    }
    if text_is(t, "help_modal_scroll_up_half_page") {
        return Some(Command::HelpModalScrollUpHalfPage);
    }
    if text_is(t, "help_modal_scroll_down_half_page") {
        return Some(Command::HelpModalScrollDownHalfPage);
    }
    if text_is(t, "help_modal_toggle") {
        return Some(Command::HelpModalToggle);
    }
    if text_is(t, "help_modal_close") {
        return Some(Command::HelpModalClose);
    }
    if text_is(t, "vault_selector_modal_up") {
        return Some(Command::VaultSelectorModalUp);
    }
    if text_is(t, "vault_selector_modal_down") {
        return Some(Command::VaultSelectorModalDown);
    }
    if text_is(t, "vault_selector_modal_close") {
        return Some(Command::VaultSelectorModalClose);
    }
    if text_is(t, "vault_selector_modal_open") {
        return Some(Command::VaultSelectorModalOpen);
    }
    if text_is(t, "vault_selector_modal_toggle") {
        return Some(Command::VaultSelectorModalToggle);
    }
    if text_is(t, "debug_log_toggle") {
        return Some(Command::DebugLogToggle);
    }
    if text_is(t, "debug_log_close") {
        return Some(Command::DebugLogClose);
    }
    if text_is(t, "debug_log_clear") {
        return Some(Command::DebugLogClear);
    }
    if text_is(t, "debug_log_cycle_level") {
        return Some(Command::DebugLogCycleLevel);
    }
    if text_is(t, "debug_log_scroll_up_one") {
        return Some(Command::DebugLogScrollUpOne);
    }
    if text_is(t, "debug_log_scroll_down_one") {
        return Some(Command::DebugLogScrollDownOne);
    }
    if text_is(t, "debug_log_scroll_up_half_page") {
        return Some(Command::DebugLogScrollUpHalfPage);
    }
    if text_is(t, "debug_log_scroll_down_half_page") {
        return Some(Command::DebugLogScrollDownHalfPage);
    }
    None
}

fn editor_commands_exec(t: &Text) -> (r: Option<Command>)
    ensures
        r == editor_commands(t.chars@),
{
    if text_is(t, "note_editor_scroll_up_one") {
        return Some(Command::NoteEditorScrollUpOne);
    }
    if text_is(t, "note_editor_scroll_down_one") {
        return Some(Command::NoteEditorScrollDownOne);
    }
    if text_is(t, "note_editor_scroll_up_half_page") {
        return Some(Command::NoteEditorScrollUpHalfPage);
    }
    if text_is(t, "note_editor_scroll_down_half_page") {
        return Some(Command::NoteEditorScrollDownHalfPage);
    }
    if text_is(t, "note_editor_switch_pane_next") {
        return Some(Command::NoteEditorSwitchPaneNext);
    }
    if text_is(t, "note_editor_switch_pane_previous") {
        return Some(Command::NoteEditorSwitchPanePrevious);
    }
    if text_is(t, "note_editor_toggle_explorer") {
        return Some(Command::NoteEditorToggleExplorer);
    }
    if text_is(t, "note_editor_toggle_outline") {
        return Some(Command::NoteEditorToggleOutline);
    }
    if text_is(t, "note_editor_cursor_up") {
        return Some(Command::NoteEditorCursorUp);
    }
    if text_is(t, "note_editor_cursor_down") {
        return Some(Command::NoteEditorCursorDown);
    }
    if text_is(t, "note_editor_scroll_to_top") {
        return Some(Command::NoteEditorScrollToTop);
    }
    if text_is(t, "note_editor_scroll_to_bottom") {
        return Some(Command::NoteEditorScrollToBottom);
    }
    if text_is(t, "note_editor_experimental_cursor_word_forward") {
        return Some(Command::NoteEditorExperimentalCursorWordForward);
    }
    if text_is(t, "note_editor_experimental_cursor_word_backward") {
        return Some(Command::NoteEditorExperimentalCursorWordBackward);
    }
    if text_is(t, "note_editor_experimental_set_edit_view") {
        return Some(Command::NoteEditorExperimentalSetEditView);
    }
    if text_is(t, "note_editor_experimental_toggle_view") {
        return Some(Command::NoteEditorExperimentalToggleView);
    }
    if text_is(t, "note_editor_experimental_set_read_view") {
        return Some(Command::NoteEditorExperimentalSetReadView);
    }
    if text_is(t, "note_editor_experimental_save") {
        return Some(Command::NoteEditorExperimentalSave);
    }
    if text_is(t, "note_editor_experimental_exit") {
        return Some(Command::NoteEditorExperimentalExit);
    }
    if text_is(t, "note_editor_experimental_cursor_left") {
        return Some(Command::NoteEditorExperimentalCursorLeft);
    }
    if text_is(t, "note_editor_experimental_cursor_right") {
        return Some(Command::NoteEditorExperimentalCursorRight);
    }
    None
}

fn vim_commands_exec(t: &Text) -> (r: Option<Command>)
    ensures
        r == vim_commands(t.chars@),
{
    if text_is(t, "note_editor_insert_mode") {
        return Some(Command::NoteEditorInsertMode);
    }
    if text_is(t, "note_editor_append") {
        return Some(Command::NoteEditorAppend);
    }
    if text_is(t, "note_editor_replace_char") {
        return Some(Command::NoteEditorReplaceChar);
    }
    if text_is(t, "note_editor_visual_mode") {
        return Some(Command::NoteEditorVisualMode);
    }
    if text_is(t, "note_editor_visual_line_mode") {
        return Some(Command::NoteEditorVisualLineMode);
    }
    if text_is(t, "note_editor_delete") {
        return Some(Command::NoteEditorDelete);
    }
    if text_is(t, "note_editor_change") {
        return Some(Command::NoteEditorChange);
    }
    if text_is(t, "note_editor_yank") {
        return Some(Command::NoteEditorYankOperator);
    }
    if text_is(t, "note_editor_delete_under_cursor") {
        return Some(Command::NoteEditorDeleteUnderCursor);
    }
    if text_is(t, "note_editor_delete_to_line_end") {
        return Some(Command::NoteEditorDeleteToLineEnd);
    }
    if text_is(t, "note_editor_change_to_line_end") {
        return Some(Command::NoteEditorChangeToLineEnd);
    }
    if text_is(t, "note_editor_substitute_char") {
        return Some(Command::NoteEditorSubstituteChar);
    }
    if text_is(t, "note_editor_paste_after") {
        return Some(Command::NoteEditorPasteAfter);
    }
    if text_is(t, "note_editor_paste_before") {
        return Some(Command::NoteEditorPasteBefore);
    }
    if text_is(t, "note_editor_undo") {
        return Some(Command::NoteEditorUndo);
    }
    if text_is(t, "note_editor_redo") {
        return Some(Command::NoteEditorRedo);
    }
    if text_is(t, "note_editor_cursor_line_start") {
        return Some(Command::NoteEditorCursorLineStart);
    }
    if text_is(t, "note_editor_cursor_line_end") {
        return Some(Command::NoteEditorCursorLineEnd);
    }
    if text_is(t, "note_editor_cursor_first_non_blank") {
        return Some(Command::NoteEditorCursorFirstNonblank);
    }
    if text_is(t, "note_editor_cursor_word_end") {
        return Some(Command::NoteEditorCursorWordEnd);
    }
    if text_is(t, "note_editor_cursor_word_forward_big") {
        return Some(Command::NoteEditorCursorWordForwardBig);
    }
    if text_is(t, "note_editor_cursor_word_backward_big") {
        return Some(Command::NoteEditorCursorWordBackwardBig);
    }
    if text_is(t, "note_editor_cursor_word_end_big") {
        return Some(Command::NoteEditorCursorWordEndBig);
    }
    if text_is(t, "note_editor_paragraph_forward") {
        return Some(Command::NoteEditorParagraphForward);
    }
    if text_is(t, "note_editor_paragraph_backward") {
        return Some(Command::NoteEditorParagraphBackward);
    }
    if text_is(t, "note_editor_matching_pair") {
        return Some(Command::NoteEditorMatchingPair);
    }
    if text_is(t, "note_editor_cursor_doc_start") {
        return Some(Command::NoteEditorCursorDocStart);
    }
    if text_is(t, "note_editor_cursor_doc_end") {
        return Some(Command::NoteEditorCursorDocEnd);
    }
    if text_is(t, "note_editor_find_forward") {
        return Some(Command::NoteEditorFindForward);
    }
    if text_is(t, "note_editor_find_backward") {
        return Some(Command::NoteEditorFindBackward);
    }
    if text_is(t, "note_editor_till_forward") {
        return Some(Command::NoteEditorTillForward);
    }
    if text_is(t, "note_editor_till_backward") {
        return Some(Command::NoteEditorTillBackward);
    }
    if text_is(t, "note_editor_repeat_find") {
        return Some(Command::NoteEditorRepeatFind);
    }
    if text_is(t, "note_editor_repeat_find_reverse") {
        return Some(Command::NoteEditorRepeatFindReverse);
    }
    None
}

fn deprecated_commands_exec(t: &Text) -> (r: Option<Command>)
    ensures
        r == deprecated_commands(t.chars@),
{
    if text_is(t, "note_editor_experimental_set_edit_mode") {
        return Some(Command::NoteEditorExperimentalSetEditView);
    }
    if text_is(t, "note_editor_experimental_set_read_mode") {
        return Some(Command::NoteEditorExperimentalSetReadView);
    }
    if text_is(t, "note_editor_experimental_exit_mode") {
        return Some(Command::NoteEditorExperimentalExit);
    }
    None
}

/// `t` holds exactly the chars of `lit`.
fn text_is(t: &Text, lit: &str) -> (r: bool)
    ensures
        r == (t.chars@ == lit@),
{
    let l = Text::new(lit);
    if t.chars.len() != l.chars.len() {
        return false;
    }
    let mut i: usize = 0;
    while i < t.chars.len()
        invariant
            i <= t.chars@.len(),
            t.chars@.len() == l.chars@.len(),
            l.chars@ == lit@,
            t.chars@.subrange(0, i as int) == l.chars@.subrange(0, i as int),
        decreases t.chars@.len() - i,
    {
        if t.chars[i] != l.chars[i] {
            assert(t.chars@[i as int] != l.chars@[i as int]);
            return false;
        }
        i = i + 1;
        assert(t.chars@.subrange(0, i as int) =~= l.chars@.subrange(0, i as int));
    }
    assert(t.chars@ =~= t.chars@.subrange(0, i as int));
    assert(l.chars@ =~= l.chars@.subrange(0, i as int));
    true
}

/// The command a key binding names with `s`, if any.
pub fn str_to_command(s: &str) -> (r: Option<Command>)
    ensures
        r == command_of(s@),
{
    let t = Text::new(s);
    if let Some(c) = pane_commands_exec(&t) {
        return Some(c);
    }
    if let Some(c) = panel_commands_exec(&t) {
        return Some(c);
    }
    if let Some(c) = editor_commands_exec(&t) {
        return Some(c);
    }
    if let Some(c) = vim_commands_exec(&t) {
        return Some(c);
    }
    deprecated_commands_exec(&t)
}

/// `pre` is a prefix of `s`.
pub open spec fn has_prefix(s: Seq<char>, pre: Seq<char>) -> bool {
    pre.len() <= s.len() && s.subrange(0, pre.len() as int) == pre
}

/// Whether `s` starts with the chars of `t`, and `s` with them removed.
fn strip_prefix(s: &Text, pre: &str) -> (r: Option<String>)
    requires
        s.wf(),
    ensures
        has_prefix(s.chars@, pre@) ==> (r matches Some(rest) && rest@ == s.chars@.subrange(
            pre@.len() as int,
            s.chars@.len() as int,
        )),
        !has_prefix(s.chars@, pre@) ==> r is None,
{
    let p = Text::new(pre);
    if p.chars.len() > s.chars.len() {
        return None;
    }
    let mut i: usize = 0;
    while i < p.chars.len()
        invariant
            i <= p.chars@.len() <= s.chars@.len(),
            p.chars@ == pre@,
            s.chars@.subrange(0, i as int) == p.chars@.subrange(0, i as int),
        decreases p.chars@.len() - i,
    {
        if s.chars[i] != p.chars[i] {
            assert(s.chars@.subrange(0, p.chars@.len() as int)[i as int] != p.chars@[i as int]);
            return None;
        }
        i = i + 1;
        assert(s.chars@.subrange(0, i as int) =~= p.chars@.subrange(0, i as int));
    }
    assert(p.chars@ =~= p.chars@.subrange(0, i as int));
    Some(s.substring(p.chars.len(), s.chars.len()))
}

/// What a key binding's command string means: `exec:` and `spawn:` run the
/// rest as a shell command (in the foreground or in the background), any
/// other string must name a command.
pub open spec fn parsed_command(s: Seq<char>, r: Result<Command, String>) -> bool {
    if has_prefix(s, "exec:"@) {
        r matches Ok(Command::Exec(c)) && c@ == s.subrange("exec:"@.len() as int, s.len() as int)
    } else if has_prefix(s, "spawn:"@) {
        r matches Ok(Command::Spawn(c)) && c@ == s.subrange("spawn:"@.len() as int, s.len() as int)
    } else {
        match command_of(s) {
            Some(c) => r == Ok::<Command, String>(c),
            None => r matches Err(e) && e@ == s + " is not a valid command"@,
        }
    }
}

/// Reads a key binding's command string.
pub fn parse_command(s: &str) -> (r: Result<Command, String>)
    ensures
        parsed_command(s@, r),
{
    let t = Text::new(s);
    if let Some(rest) = strip_prefix(&t, "exec:") {
        return Ok(Command::Exec(rest));
    }
    if let Some(rest) = strip_prefix(&t, "spawn:") {
        return Ok(Command::Spawn(rest));
    }
    match str_to_command(s) {
        Some(c) => Ok(c),
        None => {
            let mut e = t.substring(0, t.chars.len());
            let suffix = Text::new(" is not a valid command");
            let mut i: usize = 0;
            while i < suffix.chars.len()
                invariant
                    i <= suffix.chars@.len(),
                    suffix.chars@ == " is not a valid command"@,
                    e@ == s@ + suffix.chars@.subrange(0, i as int),
                decreases suffix.chars@.len() - i,
            {
                push_char(&mut e, suffix.chars[i]);
                i = i + 1;
                assert(e@ =~= s@ + suffix.chars@.subrange(0, i as int));
            }
            assert(suffix.chars@ =~= suffix.chars@.subrange(0, i as int));
            Err(e)
        },
    }
}

/// The application message a command stands for.
pub open spec fn message_of(command: Command) -> Message {
    match command {
        Command::Quit => Message::Quit,

        Command::SplashUp => Message::Splash(SplashMessage::Up),
        Command::SplashDown => Message::Splash(SplashMessage::Down),
        Command::SplashOpen => Message::Splash(SplashMessage::Open),

        Command::ExplorerUp => Message::Explorer(ExplorerMessage::Up),
        Command::ExplorerDown => Message::Explorer(ExplorerMessage::Down),
        Command::ExplorerOpen => Message::Explorer(ExplorerMessage::Select),
        Command::ExplorerSort => Message::Explorer(ExplorerMessage::Sort),
        Command::ExplorerToggle => Message::Explorer(ExplorerMessage::Toggle),
        Command::ExplorerToggleOutline => Message::Explorer(ExplorerMessage::ToggleOutline),
        Command::ExplorerToggleInputRename => {
            Message::Explorer(ExplorerMessage::ToggleInputRename)
        }
        Command::ExplorerHidePane => Message::Explorer(ExplorerMessage::HidePane),
        Command::ExplorerExpandPane => Message::Explorer(ExplorerMessage::ExpandPane),
        Command::ExplorerSwitchPaneNext => Message::Explorer(ExplorerMessage::SwitchPaneNext),
        Command::ExplorerSwitchPanePrevious => {
            Message::Explorer(ExplorerMessage::SwitchPanePrevious)
        }
        Command::ExplorerScrollUpOne => {
            Message::Explorer(ExplorerMessage::ScrollUp(ScrollAmount::One))
        }
        Command::ExplorerScrollDownOne => {
            Message::Explorer(ExplorerMessage::ScrollDown(ScrollAmount::One))
        }
        Command::ExplorerScrollUpHalfPage => {
            Message::Explorer(ExplorerMessage::ScrollUp(ScrollAmount::HalfPage))
        }
        Command::ExplorerScrollDownHalfPage => {
            Message::Explorer(ExplorerMessage::ScrollDown(ScrollAmount::HalfPage))
        }
        Command::ExplorerNewUntitledNote => Message::CreateUntitledNote,
        Command::ExplorerNewUntitledFolder => Message::CreateUntitledFolder,

        Command::InputModalEditMode => Message::Input(InputMessage::EditMode),
        Command::InputModalAccept => Message::Input(InputMessage::Accept),
        Command::InputModalCancel => Message::Input(InputMessage::Cancel),
        Command::InputModalLeft => Message::Input(InputMessage::CursorLeft),
        Command::InputModalRight => Message::Input(InputMessage::CursorRight),
        Command::InputModalWordForward => Message::Input(InputMessage::CursorWordForward),
        Command::InputModalWordBackward => Message::Input(InputMessage::CursorWordBackward),

        Command::OutlineUp => Message::Outline(OutlineMessage::Up),
        Command::OutlineDown => Message::Outline(OutlineMessage::Down),
        Command::OutlineSelect => Message::Outline(OutlineMessage::Select),
        Command::OutlineExpand => Message::Outline(OutlineMessage::Expand),
        Command::OutlineToggle => Message::Outline(OutlineMessage::Toggle),
        Command::OutlineToggleExplorer => Message::Outline(OutlineMessage::ToggleExplorer),
        Command::OutlineSwitchPaneNext => Message::Outline(OutlineMessage::SwitchPaneNext),
        Command::OutlineSwitchPanePrevious => {
            Message::Outline(OutlineMessage::SwitchPanePrevious)
        }

        Command::HelpModalScrollUpOne => {
            Message::HelpModal(HelpModalMessage::ScrollUp(ScrollAmount::One))
        }
        Command::HelpModalScrollDownOne => {
            Message::HelpModal(HelpModalMessage::ScrollDown(ScrollAmount::One))
        }
        Command::HelpModalScrollUpHalfPage => {
            Message::HelpModal(HelpModalMessage::ScrollUp(ScrollAmount::HalfPage))
        }
        Command::HelpModalScrollDownHalfPage => {
            Message::HelpModal(HelpModalMessage::ScrollDown(ScrollAmount::HalfPage))
        }
        Command::HelpModalToggle => Message::HelpModal(HelpModalMessage::Toggle),
        Command::HelpModalClose => Message::HelpModal(HelpModalMessage::Close),

        Command::NoteEditorScrollUpOne => {
            Message::NoteEditor(EditorMessage::ScrollUp(ScrollAmount::One))
        }
        Command::NoteEditorScrollDownOne => {
            Message::NoteEditor(EditorMessage::ScrollDown(ScrollAmount::One))
        }
        Command::NoteEditorScrollUpHalfPage => {
            Message::NoteEditor(EditorMessage::ScrollUp(ScrollAmount::HalfPage))
        }
        Command::NoteEditorScrollDownHalfPage => {
            Message::NoteEditor(EditorMessage::ScrollDown(ScrollAmount::HalfPage))
        }
        Command::NoteEditorSwitchPaneNext => {
            Message::NoteEditor(EditorMessage::SwitchPaneNext)
        }
        Command::NoteEditorSwitchPanePrevious => {
            Message::NoteEditor(EditorMessage::SwitchPanePrevious)
        }
        Command::NoteEditorCursorUp => Message::NoteEditor(EditorMessage::CursorUp),
        Command::NoteEditorCursorDown => Message::NoteEditor(EditorMessage::CursorDown),
        Command::NoteEditorScrollToTop => {
            Message::NoteEditor(EditorMessage::ScrollToTop)
        }
        Command::NoteEditorScrollToBottom => {
            Message::NoteEditor(EditorMessage::ScrollToBottom)
        }
        Command::ExplorerScrollToTop => Message::Explorer(ExplorerMessage::ScrollToTop),
        Command::ExplorerScrollToBottom => Message::Explorer(ExplorerMessage::ScrollToBottom),
        Command::NoteEditorToggleExplorer => {
            Message::NoteEditor(EditorMessage::ToggleExplorer)
        }
        Command::NoteEditorToggleOutline => {
            Message::NoteEditor(EditorMessage::ToggleOutline)
        }

        // Experimental
        Command::NoteEditorExperimentalToggleView => {
            Message::NoteEditor(EditorMessage::ToggleView)
        }
        Command::NoteEditorExperimentalSetEditView => {
            Message::NoteEditor(EditorMessage::EditView)
        }
        Command::NoteEditorExperimentalSetReadView => {
            Message::NoteEditor(EditorMessage::ReadView)
        }
        Command::NoteEditorExperimentalSave => Message::NoteEditor(EditorMessage::Save),
        Command::NoteEditorExperimentalExit => Message::NoteEditor(EditorMessage::Exit),
        Command::NoteEditorExperimentalCursorWordForward => {
            Message::NoteEditor(EditorMessage::CursorWordForward)
        }
        Command::NoteEditorExperimentalCursorWordBackward => {
            Message::NoteEditor(EditorMessage::CursorWordBackward)
        }
        Command::NoteEditorExperimentalCursorLeft => {
            Message::NoteEditor(EditorMessage::CursorLeft)
        }
        Command::NoteEditorExperimentalCursorRight => {
            Message::NoteEditor(EditorMessage::CursorRight)
        }
        Command::NoteEditorInsertMode => Message::NoteEditor(EditorMessage::InsertMode),
        Command::NoteEditorAppend => Message::NoteEditor(EditorMessage::Append),
        Command::NoteEditorReplaceChar => {
            Message::NoteEditor(EditorMessage::ReplaceChar)
        }
        Command::NoteEditorVisualMode => Message::NoteEditor(EditorMessage::VisualMode),
        Command::NoteEditorVisualLineMode => {
            Message::NoteEditor(EditorMessage::VisualLineMode)
        }
        Command::NoteEditorDelete => {
            Message::NoteEditor(EditorMessage::Operator(Operator::Delete))
        }
        Command::NoteEditorChange => {
            Message::NoteEditor(EditorMessage::Operator(Operator::Change))
        }
        Command::NoteEditorYankOperator => {
            Message::NoteEditor(EditorMessage::Operator(Operator::Yank))
        }
        Command::NoteEditorDeleteUnderCursor => {
            Message::NoteEditor(EditorMessage::DeleteUnderCursor)
        }
        Command::NoteEditorDeleteToLineEnd => {
            Message::NoteEditor(EditorMessage::DeleteToLineEnd)
        }
        Command::NoteEditorChangeToLineEnd => {
            Message::NoteEditor(EditorMessage::ChangeToLineEnd)
        }
        Command::NoteEditorSubstituteChar => {
            Message::NoteEditor(EditorMessage::SubstituteChar)
        }
        Command::NoteEditorPasteAfter => Message::NoteEditor(EditorMessage::PasteAfter),
        Command::NoteEditorPasteBefore => {
            Message::NoteEditor(EditorMessage::PasteBefore)
        }
        Command::NoteEditorUndo => Message::NoteEditor(EditorMessage::Undo),
        Command::NoteEditorRedo => Message::NoteEditor(EditorMessage::Redo),
        Command::NoteEditorCursorLineStart => {
            Message::NoteEditor(EditorMessage::CursorLineStart)
        }
        Command::NoteEditorCursorLineEnd => {
            Message::NoteEditor(EditorMessage::CursorLineEnd)
        }
        Command::NoteEditorCursorFirstNonblank => {
            Message::NoteEditor(EditorMessage::CursorFirstNonblank)
        }
        Command::NoteEditorCursorWordEnd => {
            Message::NoteEditor(EditorMessage::CursorWordEnd)
        }
        Command::NoteEditorCursorWordForwardBig => {
            Message::NoteEditor(EditorMessage::CursorWordForwardBig)
        }
        Command::NoteEditorCursorWordBackwardBig => {
            Message::NoteEditor(EditorMessage::CursorWordBackwardBig)
        }
        Command::NoteEditorCursorWordEndBig => {
            Message::NoteEditor(EditorMessage::CursorWordEndBig)
        }
        Command::NoteEditorParagraphForward => {
            Message::NoteEditor(EditorMessage::ParagraphForward)
        }
        Command::NoteEditorParagraphBackward => {
            Message::NoteEditor(EditorMessage::ParagraphBackward)
        }
        Command::NoteEditorMatchingPair => {
            Message::NoteEditor(EditorMessage::MatchingPair)
        }
        Command::NoteEditorCursorDocStart => {
            Message::NoteEditor(EditorMessage::CursorDocStart)
        }
        Command::NoteEditorCursorDocEnd => {
            Message::NoteEditor(EditorMessage::CursorDocEnd)
        }
        Command::NoteEditorFindForward => Message::NoteEditor(EditorMessage::FindChar {
            forward: true,
            till: false,
        }),
        Command::NoteEditorFindBackward => {
            Message::NoteEditor(EditorMessage::FindChar {
                forward: false,
                till: false,
            })
        }
        Command::NoteEditorTillForward => Message::NoteEditor(EditorMessage::FindChar {
            forward: true,
            till: true,
        }),
        Command::NoteEditorTillBackward => {
            Message::NoteEditor(EditorMessage::FindChar {
                forward: false,
                till: true,
            })
        }
        Command::NoteEditorRepeatFind => {
            Message::NoteEditor(EditorMessage::RepeatFind { reverse: false })
        }
        Command::NoteEditorRepeatFindReverse => {
            Message::NoteEditor(EditorMessage::RepeatFind { reverse: true })
        }

        Command::VaultSelectorModalClose => {
            Message::VaultSelectorModal(VaultSelectorModalMessage::Close)
        }
        Command::VaultSelectorModalToggle => {
            Message::VaultSelectorModal(VaultSelectorModalMessage::Toggle)
        }
        Command::VaultSelectorModalUp => {
            Message::VaultSelectorModal(VaultSelectorModalMessage::Up)
        }
        Command::VaultSelectorModalDown => {
            Message::VaultSelectorModal(VaultSelectorModalMessage::Down)
        }
        Command::VaultSelectorModalOpen => {
            Message::VaultSelectorModal(VaultSelectorModalMessage::Select)
        }

        Command::DebugLogToggle => Message::DebugLog(DebugLogMessage::Toggle),
        Command::DebugLogClose => Message::DebugLog(DebugLogMessage::Close),
        Command::DebugLogClear => Message::DebugLog(DebugLogMessage::Clear),
        Command::DebugLogCycleLevel => Message::DebugLog(DebugLogMessage::CycleLevel),
        Command::DebugLogScrollUpOne => {
            Message::DebugLog(DebugLogMessage::ScrollUp(ScrollAmount::One))
        }
        Command::DebugLogScrollDownOne => {
            Message::DebugLog(DebugLogMessage::ScrollDown(ScrollAmount::One))
        }
        Command::DebugLogScrollUpHalfPage => {
            Message::DebugLog(DebugLogMessage::ScrollUp(ScrollAmount::HalfPage))
        }
        Command::DebugLogScrollDownHalfPage => {
            Message::DebugLog(DebugLogMessage::ScrollDown(ScrollAmount::HalfPage))
        }

        Command::Exec(command) => Message::Exec(command),
        Command::Spawn(command) => Message::Spawn(command),
    }
}

impl From<Command> for Message {
    fn from(value: Command) -> (m: Message) {
        match value {
            Command::Quit => Message::Quit,

            Command::SplashUp => Message::Splash(SplashMessage::Up),
            Command::SplashDown => Message::Splash(SplashMessage::Down),
            Command::SplashOpen => Message::Splash(SplashMessage::Open),

            Command::ExplorerUp => Message::Explorer(ExplorerMessage::Up),
            Command::ExplorerDown => Message::Explorer(ExplorerMessage::Down),
            Command::ExplorerOpen => Message::Explorer(ExplorerMessage::Select),
            Command::ExplorerSort => Message::Explorer(ExplorerMessage::Sort),
            Command::ExplorerToggle => Message::Explorer(ExplorerMessage::Toggle),
            Command::ExplorerToggleOutline => Message::Explorer(ExplorerMessage::ToggleOutline),
            Command::ExplorerToggleInputRename => {
                Message::Explorer(ExplorerMessage::ToggleInputRename)
            }
            Command::ExplorerHidePane => Message::Explorer(ExplorerMessage::HidePane),
            Command::ExplorerExpandPane => Message::Explorer(ExplorerMessage::ExpandPane),
            Command::ExplorerSwitchPaneNext => Message::Explorer(ExplorerMessage::SwitchPaneNext),
            Command::ExplorerSwitchPanePrevious => {
                Message::Explorer(ExplorerMessage::SwitchPanePrevious)
            }
            Command::ExplorerScrollUpOne => {
                Message::Explorer(ExplorerMessage::ScrollUp(ScrollAmount::One))
            }
            Command::ExplorerScrollDownOne => {
                Message::Explorer(ExplorerMessage::ScrollDown(ScrollAmount::One))
            }
            Command::ExplorerScrollUpHalfPage => {
                Message::Explorer(ExplorerMessage::ScrollUp(ScrollAmount::HalfPage))
            }
            Command::ExplorerScrollDownHalfPage => {
                Message::Explorer(ExplorerMessage::ScrollDown(ScrollAmount::HalfPage))
            }
            Command::ExplorerNewUntitledNote => Message::CreateUntitledNote,
            Command::ExplorerNewUntitledFolder => Message::CreateUntitledFolder,

            Command::InputModalEditMode => Message::Input(InputMessage::EditMode),
            Command::InputModalAccept => Message::Input(InputMessage::Accept),
            Command::InputModalCancel => Message::Input(InputMessage::Cancel),
            Command::InputModalLeft => Message::Input(InputMessage::CursorLeft),
            Command::InputModalRight => Message::Input(InputMessage::CursorRight),
            Command::InputModalWordForward => Message::Input(InputMessage::CursorWordForward),
            Command::InputModalWordBackward => Message::Input(InputMessage::CursorWordBackward),

            Command::OutlineUp => Message::Outline(OutlineMessage::Up),
            Command::OutlineDown => Message::Outline(OutlineMessage::Down),
            Command::OutlineSelect => Message::Outline(OutlineMessage::Select),
            Command::OutlineExpand => Message::Outline(OutlineMessage::Expand),
            Command::OutlineToggle => Message::Outline(OutlineMessage::Toggle),
            Command::OutlineToggleExplorer => Message::Outline(OutlineMessage::ToggleExplorer),
            Command::OutlineSwitchPaneNext => Message::Outline(OutlineMessage::SwitchPaneNext),
            Command::OutlineSwitchPanePrevious => {
                Message::Outline(OutlineMessage::SwitchPanePrevious)
            }

            Command::HelpModalScrollUpOne => {
                Message::HelpModal(HelpModalMessage::ScrollUp(ScrollAmount::One))
            }
            Command::HelpModalScrollDownOne => {
                Message::HelpModal(HelpModalMessage::ScrollDown(ScrollAmount::One))
            }
            Command::HelpModalScrollUpHalfPage => {
                Message::HelpModal(HelpModalMessage::ScrollUp(ScrollAmount::HalfPage))
            }
            Command::HelpModalScrollDownHalfPage => {
                Message::HelpModal(HelpModalMessage::ScrollDown(ScrollAmount::HalfPage))
            }
            Command::HelpModalToggle => Message::HelpModal(HelpModalMessage::Toggle),
            Command::HelpModalClose => Message::HelpModal(HelpModalMessage::Close),

            Command::NoteEditorScrollUpOne => {
                Message::NoteEditor(EditorMessage::ScrollUp(ScrollAmount::One))
            }
            Command::NoteEditorScrollDownOne => {
                Message::NoteEditor(EditorMessage::ScrollDown(ScrollAmount::One))
            }
            Command::NoteEditorScrollUpHalfPage => {
                Message::NoteEditor(EditorMessage::ScrollUp(ScrollAmount::HalfPage))
            }
            Command::NoteEditorScrollDownHalfPage => {
                Message::NoteEditor(EditorMessage::ScrollDown(ScrollAmount::HalfPage))
            }
            Command::NoteEditorSwitchPaneNext => {
                Message::NoteEditor(EditorMessage::SwitchPaneNext)
            }
            Command::NoteEditorSwitchPanePrevious => {
                Message::NoteEditor(EditorMessage::SwitchPanePrevious)
            }
            Command::NoteEditorCursorUp => Message::NoteEditor(EditorMessage::CursorUp),
            Command::NoteEditorCursorDown => Message::NoteEditor(EditorMessage::CursorDown),
            Command::NoteEditorScrollToTop => {
                Message::NoteEditor(EditorMessage::ScrollToTop)
            }
            Command::NoteEditorScrollToBottom => {
                Message::NoteEditor(EditorMessage::ScrollToBottom)
            }
            Command::ExplorerScrollToTop => Message::Explorer(ExplorerMessage::ScrollToTop),
            Command::ExplorerScrollToBottom => Message::Explorer(ExplorerMessage::ScrollToBottom),
            Command::NoteEditorToggleExplorer => {
                Message::NoteEditor(EditorMessage::ToggleExplorer)
            }
            Command::NoteEditorToggleOutline => {
                Message::NoteEditor(EditorMessage::ToggleOutline)
            }

            // Experimental
            Command::NoteEditorExperimentalToggleView => {
                Message::NoteEditor(EditorMessage::ToggleView)
            }
            Command::NoteEditorExperimentalSetEditView => {
                Message::NoteEditor(EditorMessage::EditView)
            }
            Command::NoteEditorExperimentalSetReadView => {
                Message::NoteEditor(EditorMessage::ReadView)
            }
            Command::NoteEditorExperimentalSave => Message::NoteEditor(EditorMessage::Save),
            Command::NoteEditorExperimentalExit => Message::NoteEditor(EditorMessage::Exit),
            Command::NoteEditorExperimentalCursorWordForward => {
                Message::NoteEditor(EditorMessage::CursorWordForward)
            }
            Command::NoteEditorExperimentalCursorWordBackward => {
                Message::NoteEditor(EditorMessage::CursorWordBackward)
            }
            Command::NoteEditorExperimentalCursorLeft => {
                Message::NoteEditor(EditorMessage::CursorLeft)
            }
            Command::NoteEditorExperimentalCursorRight => {
                Message::NoteEditor(EditorMessage::CursorRight)
            }
            Command::NoteEditorInsertMode => Message::NoteEditor(EditorMessage::InsertMode),
            Command::NoteEditorAppend => Message::NoteEditor(EditorMessage::Append),
            Command::NoteEditorReplaceChar => {
                Message::NoteEditor(EditorMessage::ReplaceChar)
            }
            Command::NoteEditorVisualMode => Message::NoteEditor(EditorMessage::VisualMode),
            Command::NoteEditorVisualLineMode => {
                Message::NoteEditor(EditorMessage::VisualLineMode)
            }
            Command::NoteEditorDelete => {
                Message::NoteEditor(EditorMessage::Operator(Operator::Delete))
            }
            Command::NoteEditorChange => {
                Message::NoteEditor(EditorMessage::Operator(Operator::Change))
            }
            Command::NoteEditorYankOperator => {
                Message::NoteEditor(EditorMessage::Operator(Operator::Yank))
            }
            Command::NoteEditorDeleteUnderCursor => {
                Message::NoteEditor(EditorMessage::DeleteUnderCursor)
            }
            Command::NoteEditorDeleteToLineEnd => {
                Message::NoteEditor(EditorMessage::DeleteToLineEnd)
            }
            Command::NoteEditorChangeToLineEnd => {
                Message::NoteEditor(EditorMessage::ChangeToLineEnd)
            }
            Command::NoteEditorSubstituteChar => {
                Message::NoteEditor(EditorMessage::SubstituteChar)
            }
            Command::NoteEditorPasteAfter => Message::NoteEditor(EditorMessage::PasteAfter),
            Command::NoteEditorPasteBefore => {
                Message::NoteEditor(EditorMessage::PasteBefore)
            }
            Command::NoteEditorUndo => Message::NoteEditor(EditorMessage::Undo),
            Command::NoteEditorRedo => Message::NoteEditor(EditorMessage::Redo),
            Command::NoteEditorCursorLineStart => {
                Message::NoteEditor(EditorMessage::CursorLineStart)
            }
            Command::NoteEditorCursorLineEnd => {
                Message::NoteEditor(EditorMessage::CursorLineEnd)
            }
            Command::NoteEditorCursorFirstNonblank => {
                Message::NoteEditor(EditorMessage::CursorFirstNonblank)
            }
            Command::NoteEditorCursorWordEnd => {
                Message::NoteEditor(EditorMessage::CursorWordEnd)
            }
            Command::NoteEditorCursorWordForwardBig => {
                Message::NoteEditor(EditorMessage::CursorWordForwardBig)
            }
            Command::NoteEditorCursorWordBackwardBig => {
                Message::NoteEditor(EditorMessage::CursorWordBackwardBig)
            }
            Command::NoteEditorCursorWordEndBig => {
                Message::NoteEditor(EditorMessage::CursorWordEndBig)
            }
            Command::NoteEditorParagraphForward => {
                Message::NoteEditor(EditorMessage::ParagraphForward)
            }
            Command::NoteEditorParagraphBackward => {
                Message::NoteEditor(EditorMessage::ParagraphBackward)
            }
            Command::NoteEditorMatchingPair => {
                Message::NoteEditor(EditorMessage::MatchingPair)
            }
            Command::NoteEditorCursorDocStart => {
                Message::NoteEditor(EditorMessage::CursorDocStart)
            }
            Command::NoteEditorCursorDocEnd => {
                Message::NoteEditor(EditorMessage::CursorDocEnd)
            }
            Command::NoteEditorFindForward => Message::NoteEditor(EditorMessage::FindChar {
                forward: true,
                till: false,
            }),
            Command::NoteEditorFindBackward => {
                Message::NoteEditor(EditorMessage::FindChar {
                    forward: false,
                    till: false,
                })
            }
            Command::NoteEditorTillForward => Message::NoteEditor(EditorMessage::FindChar {
                forward: true,
                till: true,
            }),
            Command::NoteEditorTillBackward => {
                Message::NoteEditor(EditorMessage::FindChar {
                    forward: false,
                    till: true,
                })
            }
            Command::NoteEditorRepeatFind => {
                Message::NoteEditor(EditorMessage::RepeatFind { reverse: false })
            }
            Command::NoteEditorRepeatFindReverse => {
                Message::NoteEditor(EditorMessage::RepeatFind { reverse: true })
            }

            Command::VaultSelectorModalClose => {
                Message::VaultSelectorModal(VaultSelectorModalMessage::Close)
            }
            Command::VaultSelectorModalToggle => {
                Message::VaultSelectorModal(VaultSelectorModalMessage::Toggle)
            }
            Command::VaultSelectorModalUp => {
                Message::VaultSelectorModal(VaultSelectorModalMessage::Up)
            }
            Command::VaultSelectorModalDown => {
                Message::VaultSelectorModal(VaultSelectorModalMessage::Down)
            }
            Command::VaultSelectorModalOpen => {
                Message::VaultSelectorModal(VaultSelectorModalMessage::Select)
            }

            Command::DebugLogToggle => Message::DebugLog(DebugLogMessage::Toggle),
            Command::DebugLogClose => Message::DebugLog(DebugLogMessage::Close),
            Command::DebugLogClear => Message::DebugLog(DebugLogMessage::Clear),
            Command::DebugLogCycleLevel => Message::DebugLog(DebugLogMessage::CycleLevel),
            Command::DebugLogScrollUpOne => {
                Message::DebugLog(DebugLogMessage::ScrollUp(ScrollAmount::One))
            }
            Command::DebugLogScrollDownOne => {
                Message::DebugLog(DebugLogMessage::ScrollDown(ScrollAmount::One))
            }
            Command::DebugLogScrollUpHalfPage => {
                Message::DebugLog(DebugLogMessage::ScrollUp(ScrollAmount::HalfPage))
            }
            Command::DebugLogScrollDownHalfPage => {
                Message::DebugLog(DebugLogMessage::ScrollDown(ScrollAmount::HalfPage))
            }

            Command::Exec(command) => Message::Exec(command),
            Command::Spawn(command) => Message::Spawn(command),
        }
    }
}

impl vstd::std_specs::convert::FromSpecImpl<Command> for Message {
    open spec fn obeys_from_spec() -> bool {
        true
    }

    open spec fn from_spec(v: Command) -> Message {
        message_of(v)
    }
}

/// `s` with every occurrence of `pat` (scanning left to right, without
/// overlaps) replaced by `rep`.
pub open spec fn replace_all(s: Seq<char>, pat: Seq<char>, rep: Seq<char>) -> Seq<char>
    decreases s.len(),
{
    if pat.len() == 0 || s.len() < pat.len() {
        s
    } else if s.subrange(0, pat.len() as int) == pat {
        rep + replace_all(s.subrange(pat.len() as int, s.len() as int), pat, rep)
    } else {
        seq![s[0]] + replace_all(s.subrange(1, s.len() as int), pat, rep)
    }
}

/// Splitting after the first `i` chars of `s`: the words completed so far
/// and the word in progress.
pub open spec fn split_prefix(s: Seq<char>, i: int) -> (Seq<Seq<char>>, Seq<char>)
    decreases i,
{
    if i <= 0 {
        (Seq::empty(), Seq::empty())
    } else {
        let acc = split_prefix(s, i - 1);
        if unicode_white_space(s[i - 1]) {
            if acc.1.len() > 0 {
                (acc.0.push(acc.1), Seq::empty())
            } else {
                acc
            }
        } else {
            (acc.0, acc.1.push(s[i - 1]))
        }
    }
}

/// The whitespace-separated words of `s`.
pub open spec fn words(s: Seq<char>) -> Seq<Seq<char>> {
    let acc = split_prefix(s, s.len() as int);
    if acc.1.len() > 0 {
        acc.0.push(acc.1)
    } else {
        acc.0
    }
}

/// The words of a command line after `%vault`, `%note_path` and `%note`
/// were replaced, in that order.
pub open spec fn command_words(
    command: Seq<char>,
    vault: Seq<char>,
    note: Seq<char>,
    path: Seq<char>,
) -> Seq<Seq<char>> {
    words(
        replace_all(
            replace_all(replace_all(command, "%vault"@, vault), "%note_path"@, path),
            "%note"@,
            note,
        ),
    )
}

/// `pat` occurs in `s` at char `i`.
fn occurs_at(s: &Vec<char>, i: usize, pat: &Vec<char>) -> (r: bool)
    requires
        i <= s@.len(),
    ensures
        r == (i + pat@.len() <= s@.len() && s@.subrange(i as int, i + pat@.len()) == pat@),
{
    let n = s.len();
    if pat.len() > n - i {
        return false;
    }
    let mut j: usize = 0;
    while j < pat.len()
        invariant
            j <= pat@.len(),
            n == s@.len(),
            i + pat@.len() <= s@.len(),
            s@.subrange(i as int, i + j) == pat@.subrange(0, j as int),
        decreases pat@.len() - j,
    {
        if s[i + j] != pat[j] {
            assert(s@.subrange(i as int, i + pat@.len())[j as int] != pat@[j as int]);
            return false;
        }
        j = j + 1;
        assert(s@.subrange(i as int, i + j) =~= pat@.subrange(0, j as int));
    }
    assert(pat@ =~= pat@.subrange(0, j as int));
    true
}

/// `s` with every `pat` replaced by `rep`, as `str::replace` does.
pub(crate) fn replace_var(s: &str, pat: &str, rep: &str) -> (r: String)
    requires
        pat@.len() > 0,
    ensures
        r@ == replace_all(s@, pat@, rep@),
{
    let t = Text::new(s);
    let p = Text::new(pat);
    let rt = Text::new(rep);
    let n = t.chars.len();
    let mut out = String::new();
    let mut i: usize = 0;
    assert(t.chars@.subrange(0, n as int) =~= s@);
    assert(out@ + s@ =~= s@);
    while i < n
        invariant
            n == t.chars@.len(),
            t.chars@ == s@,
            p.chars@ == pat@,
            rt.chars@ == rep@,
            pat@.len() > 0,
            i <= n,
            out@ + replace_all(t.chars@.subrange(i as int, n as int), pat@, rep@) == replace_all(
                s@,
                pat@,
                rep@,
            ),
        decreases n - i,
    {
        let ghost rest = t.chars@.subrange(i as int, n as int);
        assert(rest.len() > 0);
        if occurs_at(&t.chars, i, &p.chars) {
            assert(rest.subrange(0, pat@.len() as int) =~= t.chars@.subrange(
                i as int,
                i + pat@.len(),
            ));
            assert(rest.subrange(pat@.len() as int, rest.len() as int) =~= t.chars@.subrange(
                i + pat@.len(),
                n as int,
            ));
            let ghost before = out@;
            let mut k: usize = 0;
            while k < rt.chars.len()
                invariant
                    k <= rt.chars@.len(),
                    out@ == before + rt.chars@.subrange(0, k as int),
                decreases rt.chars@.len() - k,
            {
                push_char(&mut out, rt.chars[k]);
                k = k + 1;
                assert(out@ =~= before + rt.chars@.subrange(0, k as int));
            }
            assert(rt.chars@.subrange(0, k as int) =~= rep@);
            i = i + p.chars.len();
            assert(before + (rep@ + replace_all(t.chars@.subrange(i as int, n as int), pat@, rep@))
                =~= out@ + replace_all(t.chars@.subrange(i as int, n as int), pat@, rep@));
        } else {
            proof {
                if pat@.len() <= rest.len() {
                    assert(rest.subrange(0, pat@.len() as int) =~= t.chars@.subrange(
                        i as int,
                        i + pat@.len(),
                    ));
                }
            }
            assert(rest.subrange(1, rest.len() as int) =~= t.chars@.subrange(i + 1, n as int));
            let ghost before = out@;
            push_char(&mut out, t.chars[i]);
            i = i + 1;
            assert(before + (seq![rest[0]] + replace_all(
                t.chars@.subrange(i as int, n as int),
                pat@,
                rep@,
            )) =~= out@ + replace_all(t.chars@.subrange(i as int, n as int), pat@, rep@));
        }
    }
    assert(t.chars@.subrange(n as int, n as int) =~= Seq::<char>::empty());
    assert(out@ + Seq::<char>::empty() =~= out@);
    out
}

/// The whitespace-separated words of `s`, as `str::split_whitespace` gives them.
fn split_words(s: &str) -> (r: Vec<String>)
    ensures
        r@.len() == words(s@).len(),
        forall|i: int| 0 <= i < r@.len() ==> #[trigger] r@[i]@ == words(s@)[i],
{
    let t = Text::new(s);
    let n = t.chars.len();
    let mut done: Vec<String> = Vec::new();
    let mut cur = String::new();
    let mut has_cur = false;
    let mut i: usize = 0;
    while i < n
        invariant
            n == t.chars@.len(),
            t.chars@ == s@,
            i <= n,
            has_cur == (cur@.len() > 0),
            done@.len() == split_prefix(s@, i as int).0.len(),
            forall|j: int| 0 <= j < done@.len() ==> #[trigger] done@[j]@ == split_prefix(s@, i as int).0[j],
            cur@ == split_prefix(s@, i as int).1,
        decreases n - i,
    {
        let c = t.chars[i];
        if is_whitespace(c) {
            if has_cur {
                let word = cur;
                done.push(word);
                cur = String::new();
                has_cur = false;
            }
        } else {
            push_char(&mut cur, c);
            has_cur = true;
        }
        i = i + 1;
    }
    if has_cur {
        done.push(cur);
    }
    done
}

/// A command line with its variables filled in, split into the program and
/// its arguments; `None` when it holds no word.
pub fn run_command(command: &str, vault_name: &str, note_name: &str, note_path: &str) -> (r:
    Option<(String, Vec<String>)>)
    ensures
        ({
            let w = command_words(command@, vault_name@, note_name@, note_path@);
            &&& w.len() == 0 ==> r is None
            &&& w.len() > 0 ==> (r matches Some((program, args)) && program@ == w[0] && args@.len()
                == w.len() - 1 && forall|i: int|
                0 <= i < args@.len() ==> #[trigger] args@[i]@ == w[i + 1])
        }),
{
    proof {
        reveal_strlit("%vault");
        reveal_strlit("%note_path");
        reveal_strlit("%note");
    }
    let expanded = replace_var(command, "%vault", vault_name);
    let expanded = replace_var(expanded.as_str(), "%note_path", note_path);
    let expanded = replace_var(expanded.as_str(), "%note", note_name);
    let mut all = split_words(expanded.as_str());
    if all.len() == 0 {
        return None;
    }
    let ghost w = all@.map_values(|x: String| x@);
    let program = all.remove(0);
    proof {
        assert(program@ == words(expanded@)[0]);
    }
    Some((program, all))
}

} // verus!
