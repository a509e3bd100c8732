//! The application's panes, the messages its components exchange, and the
//! key dispatch that turns keystrokes into those messages.

use vstd::prelude::*;

use crate::note_editor;
use crate::command::replace_all;
use crate::config::{fed_key, handle_pending_keys, Config};
use crate::note_editor::{KeyCode, KeyEvent};
use crate::state::{block_count, EditMode, EditorModel, EditorView, NoteEditorState};

verus! {

/// How far a scroll command moves.
#[derive(Clone, Copy, Debug, PartialEq, Eq, Structural)]
pub enum ScrollAmount {
    One,
    HalfPage,
}

/// Rows moved by one scroll of `scroll_amount` on a screen `height` rows tall.
pub fn calc_scroll_amount(scroll_amount: &ScrollAmount, height: usize) -> (rows: usize)
    ensures
        rows == match scroll_amount {
            ScrollAmount::One => 1usize,
            ScrollAmount::HalfPage => height / 2,
        },
{
    match scroll_amount {
        ScrollAmount::One => 1,
        ScrollAmount::HalfPage => height / 2,
    }
}

/// The component that receives key input.
#[derive(Clone, Copy, Debug, PartialEq, Eq, Structural)]
pub enum ActivePane {
    Splash,
    Explorer,
    NoteEditor,
    Outline,
    Input,
    HelpModal,
    VaultSelectorModal,
    DebugLogModal,
}

impl ActivePane {
    /// The pane the application starts in.
    pub fn initial() -> (p: ActivePane)
        ensures
            p == ActivePane::Splash,
    {
        ActivePane::Splash
    }

    /// The pane's name as the status bar shows it.
    pub fn label(&self) -> (s: &'static str)
        ensures
            s@ == match self {
                ActivePane::Splash => "Splash"@,
                ActivePane::Explorer => "Explorer"@,
                ActivePane::NoteEditor => "Note Editor"@,
                ActivePane::Outline => "Outline"@,
                ActivePane::Input => "Input"@,
                ActivePane::HelpModal => "Help"@,
                ActivePane::VaultSelectorModal => "Vault Selector"@,
                ActivePane::DebugLogModal => "Debug Log"@,
            },
    {
        match self {
            ActivePane::Splash => "Splash",
            ActivePane::Explorer => "Explorer",
            ActivePane::NoteEditor => "Note Editor",
            ActivePane::Outline => "Outline",
            ActivePane::Input => "Input",
            ActivePane::HelpModal => "Help",
            ActivePane::VaultSelectorModal => "Vault Selector",
            ActivePane::DebugLogModal => "Debug Log",
        }
    }
}

/// Which modals are open over the panes.
#[derive(Clone, Copy, Debug, PartialEq, Eq, Structural)]
pub struct Modals {
    pub debug_log: bool,
    pub help: bool,
    pub vault_selector: bool,
    pub splash: bool,
}

/// The component that receives input: the topmost open modal, else the active pane.
pub fn active_component(modals: &Modals, active_pane: ActivePane) -> (p: ActivePane)
    ensures
        p == if modals.debug_log {
            ActivePane::DebugLogModal
        } else if modals.help {
            ActivePane::HelpModal
        } else if modals.vault_selector {
            ActivePane::VaultSelectorModal
        } else if modals.splash {
            ActivePane::Splash
        } else {
            active_pane
        },
{
    if modals.debug_log {
        return ActivePane::DebugLogModal;
    }
    if modals.help {
        return ActivePane::HelpModal;
    }
    if modals.vault_selector {
        return ActivePane::VaultSelectorModal;
    }
    if modals.splash {
        return ActivePane::Splash;
    }
    active_pane
}

/// The note open in the editor: its name, path and content.
#[derive(Clone, Debug, PartialEq, Eq)]
pub struct SelectedNote {
    pub name: String,
    pub path: String,
    pub content: String,
}

#[derive(Clone, Copy, Debug, PartialEq, Eq, Structural)]
pub enum SplashMessage {
    Up,
    Down,
    Open,
}

#[derive(Clone, Copy, Debug, PartialEq, Eq, Structural)]
pub enum ExplorerMessage {
    Up,
    Down,
    Open,
    Select,
    Sort,
    Toggle,
    ToggleOutline,
    ToggleInputRename,
    HidePane,
    ExpandPane,
    SwitchPaneNext,
    SwitchPanePrevious,
    ScrollUp(ScrollAmount),
    ScrollDown(ScrollAmount),
    ScrollToTop,
    ScrollToBottom,
}

#[derive(Clone, Copy, Debug, PartialEq, Eq, Structural)]
pub enum InputMessage {
    EditMode,
    Accept,
    Cancel,
    CursorLeft,
    CursorRight,
    CursorWordForward,
    CursorWordBackward,
}

#[derive(Clone, Copy, Debug, PartialEq, Eq, Structural)]
pub enum OutlineMessage {
    Up,
    Down,
    Select,
    Expand,
    Toggle,
    ToggleExplorer,
    SwitchPaneNext,
    SwitchPanePrevious,
    /// Highlight the heading of block `idx`.
    SelectAt(usize),
}

#[derive(Clone, Copy, Debug, PartialEq, Eq, Structural)]
pub enum HelpModalMessage {
    ScrollUp(ScrollAmount),
    ScrollDown(ScrollAmount),
    Toggle,
    Close,
}

#[derive(Clone, Copy, Debug, PartialEq, Eq, Structural)]
pub enum VaultSelectorModalMessage {
    Up,
    Down,
    Select,
    Toggle,
    Close,
}

#[derive(Clone, Copy, Debug, PartialEq, Eq, Structural)]
pub enum DebugLogMessage {
    Toggle,
    Close,
    Clear,
    CycleLevel,
    ScrollUp(ScrollAmount),
    ScrollDown(ScrollAmount),
}

#[derive(Clone, Copy, Debug, PartialEq, Eq, Structural)]
pub enum ToastLevel {
    Info,
    Success,
    Warning,
    Error,
}

/// A notification shown for `seconds` seconds.
#[derive(Clone, Debug, PartialEq, Eq)]
pub struct Toast {
    pub level: ToastLevel,
    pub message: String,
    pub seconds: u64,
}

#[derive(Clone, Debug, PartialEq, Eq)]
pub enum ToastMessage {
    Create(Toast),
    Tick,
}

/// What one component asks of the application.
#[derive(Debug, PartialEq, Eq)]
pub enum Message {
    Quit,
    Exec(String),
    Spawn(String),
    CopyToClipboard(String),
    /// The terminal's new width and height.
    Resize(u16, u16),
    SetActivePane(ActivePane),
    RefreshVault { rename: Option<(String, String)>, select: Option<String> },
    RescanVault,
    CreateUntitledNote,
    CreateUntitledFolder,
    /// Open the vault at this path.
    OpenVault(String),
    SelectNote(SelectedNote),
    /// The open note's new content; `true` when its outline must be rebuilt too.
    UpdateSelectedNoteContent(String, bool),
    /// Write `content` to the note file at `path`; the outcome goes back to
    /// the editor through `note_editor::save_finished`.
    WriteNote { path: String, content: String },
    Batch(Vec<Message>),
    Toast(ToastMessage),
    Input(InputMessage),
    Splash(SplashMessage),
    Explorer(ExplorerMessage),
    NoteEditor(note_editor::Message),
    Outline(OutlineMessage),
    HelpModal(HelpModalMessage),
    VaultSelectorModal(VaultSelectorModalMessage),
    DebugLog(DebugLogMessage),
}

/// The value of a decimal digit char, as `char::to_digit(10)` gives it.
pub open spec fn digit_value(c: char) -> Option<u8> {
    if '0' <= c && c <= '9' {
        Some((c as u32 - '0' as u32) as u8)
    } else {
        None
    }
}

fn to_digit(c: char) -> (r: Option<u8>)
    ensures
        r == digit_value(c),
{
    if '0' <= c && c <= '9' {
        Some((c as u32 - '0' as u32) as u8)
    } else {
        None
    }
}

/// The vim normal-mode message a raw char key stands for that no static
/// binding can express: the target of an armed replace, text object or
/// find, or a count digit (a lone `0` is the line-start motion, so only a
/// count in progress claims it). `None` falls through to the key bindings.
pub fn normal_mode_raw_key(editor: &NoteEditorState, key: &KeyEvent) -> (r: Option<
    note_editor::Message,
>)
    ensures
        r == normal_raw_key(editor@, *key),
{
    let character = match key.code {
        KeyCode::Char(c) => c,
        _ => {
            return None;
        },
    };
    if editor.awaiting_replace() {
        return Some(note_editor::Message::ReplaceTarget(character));
    }
    if editor.awaiting_text_object() {
        return Some(note_editor::Message::TextObjectTarget(character));
    }
    if editor.awaiting_find_target() {
        return Some(note_editor::Message::FindTarget(character));
    }
    match to_digit(character) {
        Some(digit) => {
            if digit != 0 || editor.has_pending_count() {
                Some(note_editor::Message::CountDigit(digit))
            } else {
                None
            }
        },
        None => None,
    }
}

/// The editor for a newly selected note: vim mode and the experimental
/// editor as configured, opened in source edit view when both are on and
/// in read view otherwise.
pub fn open_note(note: &SelectedNote, vim_mode: bool, experimental_editor: bool) -> (s:
    NoteEditorState)
    ensures
        s.wf(),
        s@.content == note.content@,
        s@.filename == note.name@,
        s@.filepath == note.path@,
        s@.vim_mode == vim_mode,
        s@.editor_enabled == experimental_editor,
        s@.cursor == 0,
        !s@.insert_mode,
        !s@.modified,
        s@.undo.len() == 0,
        s@.redo.len() == 0,
        (vim_mode && experimental_editor) <==> (s@.view is Edit),
        !(vim_mode && experimental_editor) ==> s@.buffer is None && s@.editing_block is None,
        (vim_mode && experimental_editor) ==> s@.editing_block == Some(0usize) && s@.buffer == (
        if 0 < block_count(note.content@) || note.content@.len() == 0 {
            Some((0usize, false, note.content@))
        } else {
            None
        }),
        !s@.active,
        s@.selection is None,
        s@.yank_flash is None,
        s@.pending_count is None,
        s@.pending_find is None,
        s@.last_find is None,
        s@.pending_text_object is None,
        !s@.pending_replace,
        s@.pending_operator is None,
        s@.register == (Seq::<char>::empty(), false),
{
    let mut state = NoteEditorState::new(note.content.as_str(), note.name.as_str(), note.path.as_str());
    state.set_vim_mode(vim_mode);
    state.set_editor_enabled(experimental_editor);
    if experimental_editor && vim_mode {
        proof {
            crate::text::lemma_bpos_zero(note.content@);
            crate::text::lemma_index_of(note.content@, 0);
            assert(crate::motion::start_of_line(note.content@, 0) == 0);
            assert(crate::state::block_starts_before(note.content@, 0) == 0);
            assert(crate::state::block_of(note.content@, 0) == 0);
        }
        state.set_view(EditorView::Edit(EditMode::Source));
    } else {
        state.set_view(EditorView::Read);
    }
    state
}

/// The help text: `template` with the version notice filled in.
pub fn help_text(template: &str, version: &str) -> (r: String)
    ensures
        r@ == replace_all(template@, "%version-notice"@, version@),
{
    proof {
        reveal_strlit("%version-notice");
    }
    crate::command::replace_var(template, "%version-notice", version)
}

/// Where a key press goes.
#[derive(Debug, PartialEq, Eq)]
pub enum KeyRoute {
    /// The message the key produced, if any.
    Handled(Option<Message>),
    /// The input modal is editing and takes the key as typed.
    InputModal,
}

/// Routes a key press: vim normal-mode raw keys (a pending target or a
/// count digit) and insert-mode typing go straight to the editor; typing
/// in the input modal goes there; anything else is fed, as `keystroke`, to
/// the key-sequence bindings of `active`. The first two clear the pending keys.
pub fn handle_key_event(
    config: &Config,
    active: ActivePane,
    editor: &NoteEditorState,
    input_editing: bool,
    key: KeyEvent,
    keystroke: String,
    pending_keys: &mut Vec<String>,
) -> (r: KeyRoute)
    ensures
        ({
            let normal = active == ActivePane::NoteEditor && editor@.view is Edit && editor@.vim_mode
                && !editor@.insert_mode;
            let raw = normal_raw_key(editor@, key);
            if normal && raw is Some {
                r == KeyRoute::Handled(Some(Message::NoteEditor(raw->0))) && final(pending_keys)@.len() == 0
            } else if active == ActivePane::NoteEditor && editor@.view is Edit && editor@.insert_mode {
                r == KeyRoute::Handled(Some(Message::NoteEditor(editing_message(key))))
                    && final(pending_keys)@.len() == 0
            } else if active == ActivePane::Input && input_editing {
                r == KeyRoute::InputModal && final(pending_keys)@.len() == 0
            } else {
                r matches KeyRoute::Handled(m) && fed_key(
                    config,
                    active,
                    old(pending_keys)@,
                    keystroke,
                    m,
                    final(pending_keys)@,
                )
            }
        }),
{
    if let ActivePane::NoteEditor = active {
        if editor.is_editing() && editor.vim_mode() && !editor.insert_mode() {
            if let Some(message) = normal_mode_raw_key(editor, &key) {
                pending_keys.clear();
                return KeyRoute::Handled(Some(Message::NoteEditor(message)));
            }
        }
    }
    match active {
        ActivePane::NoteEditor if editor.is_editing() && editor.insert_mode() => {
            pending_keys.clear();
            let message = match note_editor::handle_editing_event(key) {
                Some(m) => Some(Message::NoteEditor(m)),
                None => None,
            };
            KeyRoute::Handled(message)
        },
        ActivePane::Input if input_editing => {
            pending_keys.clear();
            KeyRoute::InputModal
        },
        _ => KeyRoute::Handled(handle_pending_keys(keystroke, config, active, pending_keys)),
    }
}

/// The editor message a key typed in insert mode stands for.
pub open spec fn editing_message(key: KeyEvent) -> note_editor::Message {
    match key.code {
        KeyCode::Up => note_editor::Message::CursorUp,
        KeyCode::Down => note_editor::Message::CursorDown,
        KeyCode::Char('f') if key.alt => note_editor::Message::CursorWordForward,
        KeyCode::Char('b') if key.alt => note_editor::Message::CursorWordBackward,
        KeyCode::Left => note_editor::Message::CursorLeft,
        KeyCode::Right => note_editor::Message::CursorRight,
        KeyCode::Esc => note_editor::Message::Exit,
        KeyCode::Backspace => note_editor::Message::Delete,
        KeyCode::Char('e') if key.control => note_editor::Message::ToggleView,
        _ => note_editor::Message::KeyEvent(key),
    }
}

/// The raw normal-mode key message for `key` in editor state `e`.
pub open spec fn normal_raw_key(e: EditorModel, key: KeyEvent) -> Option<note_editor::Message> {
    match key.code {
        KeyCode::Char(c) => if e.pending_replace {
            Some(note_editor::Message::ReplaceTarget(c))
        } else if e.pending_text_object is Some {
            Some(note_editor::Message::TextObjectTarget(c))
        } else if e.pending_find is Some {
            Some(note_editor::Message::FindTarget(c))
        } else {
            match digit_value(c) {
                Some(d) => if d != 0 || e.pending_count is Some {
                    Some(note_editor::Message::CountDigit(d))
                } else {
                    None
                },
                None => None,
            }
        },
        _ => None,
    }
}

} // verus!
