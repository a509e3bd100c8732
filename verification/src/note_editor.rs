//! The note editor's message handling: vim motions with counts, operators
//! over motions, text objects and selections, finds, replace, paste,
//! undo/redo, and the plain insert-mode editing keys.

use std::ops::Range;
use vstd::prelude::*;

use crate::app::{
    calc_scroll_amount, ActivePane, ExplorerMessage, Message as AppMessage, OutlineMessage,
    ScrollAmount, Toast, ToastLevel, ToastMessage,
};
use crate::motion::{
    doc_end_of, doc_start_of, find_char_of, first_nonblank_of, goto_line_of, last_of_line,
    line_down_of, line_up_of, next_line_start_of, nth_char_left_of, nth_char_right_of,
    paragraph_backward_of, paragraph_forward_of, start_of_line, word_backward_of, word_end_of,
    word_forward_of,
};
use crate::state::{
    block_of, byte_size, jumped_to, selection_bytes, spliced_into, EditMode, EditorModel,
    EditorView, FindKind, NoteEditorState, Operator, SelectionMode,
};
use crate::text::{bpos, index_of, is_boundary, lemma_bpos_mono, lemma_index_of, Text};

verus! {

/// A key as the editor reads it.
#[derive(Clone, Copy, Debug, PartialEq, Eq, Structural)]
pub enum KeyCode {
    Char(char),
    Enter,
    Up,
    Down,
    Left,
    Right,
    Esc,
    Backspace,
    /// Any other key.
    Other,
}

/// A key press with the modifiers the editor tells apart.
#[derive(Clone, Copy, Debug, PartialEq, Eq, Structural)]
pub struct KeyEvent {
    pub code: KeyCode,
    pub control: bool,
    pub alt: bool,
}

impl KeyEvent {
    pub fn new(code: KeyCode, control: bool, alt: bool) -> (k: KeyEvent)
        ensures
            k == (KeyEvent { code, control, alt }),
    {
        KeyEvent { code, control, alt }
    }
}

#[derive(Clone, Copy, Debug, PartialEq, Eq, Structural)]
pub enum Message {
    Save,
    SwitchPaneNext,
    SwitchPanePrevious,
    ToggleExplorer,
    ToggleOutline,
    ToggleView,
    EditView,
    ReadView,
    Exit,
    KeyEvent(KeyEvent),
    CursorUp,
    CursorLeft,
    CursorRight,
    CursorWordForward,
    CursorWordBackward,
    CursorDown,
    ScrollUp(ScrollAmount),
    ScrollDown(ScrollAmount),
    ScrollToTop,
    ScrollToBottom,
    JumpToBlock(usize),
    Delete,
    InsertMode,
    VisualMode,
    VisualLineMode,
    CursorLineStart,
    CursorLineEnd,
    CursorFirstNonblank,
    CursorWordEnd,
    CursorWordForwardBig,
    CursorWordBackwardBig,
    CursorWordEndBig,
    ParagraphForward,
    ParagraphBackward,
    MatchingPair,
    CursorDocStart,
    CursorDocEnd,
    /// `f`/`F`/`t`/`T`: arm a find awaiting its target character.
    FindChar { forward: bool, till: bool },
    /// `;`/`,`: repeat the last find, optionally in the opposite direction.
    RepeatFind { reverse: bool },
    /// A raw digit key accumulating into the pending count.
    CountDigit(u8),
    /// The character typed after an armed find.
    FindTarget(char),
    /// The object char typed after `i`/`a` while an operator is pending.
    TextObjectTarget(char),
    /// `r`: arm a single-character replace.
    ReplaceChar,
    /// The replacement character typed after `r`.
    ReplaceTarget(char),
    /// `a`: append — insert after the cursor (or, with an operator, an `a`round object).
    Append,
    /// `d`/`c`/`y`: arm an operator (doubled key = linewise on the current line).
    Operator(Operator),
    /// `x`: delete the character(s) under the cursor.
    DeleteUnderCursor,
    /// `D`: delete to end of line.
    DeleteToLineEnd,
    /// `C`: change to end of line.
    ChangeToLineEnd,
    /// `s`: substitute the character(s) under the cursor.
    SubstituteChar,
    /// `p`/`P`: paste the register after/before the cursor.
    PasteAfter,
    PasteBefore,
    /// `u`/`ctrl+r`: undo / redo.
    Undo,
    Redo,
}

/// A cursor motion, applied to the live content from a byte offset.
#[derive(Clone, Copy, Debug, PartialEq, Eq, Structural)]
pub enum Motion {
    CharLeft,
    CharRight,
    LinesUp(usize),
    LinesDown(usize),
    WordForward(bool),
    WordBackward(bool),
    WordEnd(bool),
    LineStart,
    LineEnd,
    FirstNonblank,
    ParagraphForward,
    ParagraphBackward,
    /// `gg`, or `{count}gg` to a 1-based line.
    DocStart(Option<usize>),
    /// `G`, or `{count}G` to a 1-based line.
    DocEnd(Option<usize>),
    /// `f`/`F`/`t`/`T` to a char; no move when the char is not found.
    Find(char, FindKind),
}

/// The char index motion `m` reaches from char `k`.
pub open spec fn motion_index(cs: Seq<char>, k: int, m: Motion) -> int {
    match m {
        Motion::CharLeft => nth_char_left_of(cs, k, 1),
        Motion::CharRight => nth_char_right_of(cs, k, 1),
        Motion::LinesUp(n) => line_up_of(cs, k, n as nat),
        Motion::LinesDown(n) => line_down_of(cs, k, n as nat),
        Motion::WordForward(big) => word_forward_of(cs, k, big),
        Motion::WordBackward(big) => word_backward_of(cs, k, big),
        Motion::WordEnd(big) => word_end_of(cs, k, big),
        Motion::LineStart => start_of_line(cs, k),
        Motion::LineEnd => last_of_line(cs, k),
        Motion::FirstNonblank => first_nonblank_of(cs, k),
        Motion::ParagraphForward => paragraph_forward_of(cs, k),
        Motion::ParagraphBackward => paragraph_backward_of(cs, k),
        Motion::DocStart(line) => match line {
            Some(n) => goto_line_of(cs, n as nat),
            None => doc_start_of(cs),
        },
        Motion::DocEnd(line) => match line {
            Some(n) => goto_line_of(cs, n as nat),
            None => doc_end_of(cs),
        },
        Motion::Find(target, kind) => match find_char_of(cs, k, target, kind.forward, kind.till) {
            Some(j) => j,
            None => k,
        },
    }
}

/// The byte offset motion `m` reaches from byte offset `from`.
pub open spec fn motion_offset(cs: Seq<char>, from: usize, m: Motion) -> usize {
    bpos(cs, motion_index(cs, index_of(cs, from as int), m)) as usize
}

/// Motion `m` applied `n` times from `from`.
pub open spec fn repeat_motion(cs: Seq<char>, from: usize, m: Motion, n: nat) -> usize
    decreases n,
{
    if n == 0 {
        from
    } else {
        motion_offset(cs, repeat_motion(cs, from, m, (n - 1) as nat), m)
    }
}

fn apply_motion(content: &str, from: usize, m: Motion) -> (r: usize)
    requires
        is_boundary(content@, from as int),
    ensures
        r == motion_offset(content@, from, m),
        is_boundary(content@, r as int),
{
    match m {
        Motion::CharLeft => crate::motion::nth_char_left(content, from, 1),
        Motion::CharRight => crate::motion::nth_char_right(content, from, 1),
        Motion::LinesUp(n) => crate::motion::line_up(content, from, n),
        Motion::LinesDown(n) => crate::motion::line_down(content, from, n),
        Motion::WordForward(big) => crate::motion::word_forward(content, from, big),
        Motion::WordBackward(big) => crate::motion::word_backward(content, from, big),
        Motion::WordEnd(big) => crate::motion::word_end(content, from, big),
        Motion::LineStart => crate::motion::line_start(content, from),
        Motion::LineEnd => crate::motion::line_end(content, from),
        Motion::FirstNonblank => crate::motion::first_nonblank(content, from),
        Motion::ParagraphForward => crate::motion::paragraph_forward(content, from),
        Motion::ParagraphBackward => crate::motion::paragraph_backward(content, from),
        Motion::DocStart(line) => match line {
            Some(n) => crate::motion::goto_line(content, n),
            None => crate::motion::doc_start(content),
        },
        Motion::DocEnd(line) => match line {
            Some(n) => crate::motion::goto_line(content, n),
            None => crate::motion::doc_end(content),
        },
        Motion::Find(target, kind) => {
            match crate::motion::find_char(content, from, target, kind.forward, kind.till) {
                Some(x) => x,
                None => from,
            }
        },
    }
}

fn repeat(content: &str, from: usize, m: Motion, count: usize) -> (r: usize)
    requires
        is_boundary(content@, from as int),
    ensures
        r == repeat_motion(content@, from, m, count as nat),
        is_boundary(content@, r as int),
{
    let mut pos = from;
    let mut i: usize = 0;
    while i < count
        invariant
            i <= count,
            is_boundary(content@, pos as int),
            pos == repeat_motion(content@, from, m, i as nat),
        decreases count - i,
    {
        pos = apply_motion(content, pos, m);
        i = i + 1;
    }
    pos
}

/// The outline highlight for the block the cursor is in.
pub open spec fn select_at(m: EditorModel) -> AppMessage {
    AppMessage::Outline(OutlineMessage::SelectAt(block_of(m.live(), m.cursor_index()) as usize))
}

/// The content update sent after an edit that changed the note's blocks.
pub open spec fn is_content_update(r: Option<AppMessage>, m: EditorModel, blocks: bool) -> bool {
    r matches Some(AppMessage::UpdateSelectedNoteContent(c, b)) && c@ == m.content && b == blocks
}

/// `b` is `a` after operator `op` was applied over the live bytes `[s, e)`:
/// the text goes to the register; a yank flashes the range, moves to its
/// start and asks to copy the text; a delete or change removes it, and a
/// change enters insert mode. An empty range is a no-op but for change.
pub open spec fn performed(
    a: EditorModel,
    b: EditorModel,
    op: Operator,
    s: int,
    e: int,
    linewise: bool,
    now: u64,
    r: Option<AppMessage>,
) -> bool {
    let cs = a.live();
    let text = cs.subrange(index_of(cs, s), index_of(cs, e));
    if text.len() == 0 && op != Operator::Change {
        r is None && b == a
    } else {
        let a1 = EditorModel { register: (text, linewise), ..a };
        match op {
            Operator::Yank => {
                &&& jumped_to(
                    EditorModel { yank_flash: Some((s as usize, e as usize, now)), ..a1 },
                    b,
                    s,
                )
                &&& r matches Some(AppMessage::CopyToClipboard(t)) && t@ == text
            },
            Operator::Delete => {
                &&& spliced_into(a1, b, s, e, Seq::empty())
                &&& is_content_update(r, b, true)
            },
            Operator::Change => {
                &&& spliced_into(a1, EditorModel { insert_mode: a.insert_mode, ..b }, s, e, Seq::empty())
                &&& b.insert_mode
                &&& is_content_update(r, b, true)
            },
        }
    }
}

/// The char span an operator covers from char `k` to char `j`: whole lines
/// when linewise, else from the lower end to the upper one, taking the char
/// at the upper end too when inclusive.
pub open spec fn operator_span(cs: Seq<char>, k: int, j: int, inclusive: bool, linewise: bool) -> (
    int,
    int,
) {
    let lo = if k <= j {
        k
    } else {
        j
    };
    let hi = if k <= j {
        j
    } else {
        k
    };
    if linewise {
        (start_of_line(cs, lo), next_line_start_of(cs, hi))
    } else {
        (lo, if inclusive && hi < cs.len() {
            hi + 1
        } else {
            hi
        })
    }
}

/// `b` is `a` after operator `op` swept from the cursor to byte offset `target`.
pub open spec fn operated(
    a: EditorModel,
    b: EditorModel,
    op: Operator,
    target: usize,
    inclusive: bool,
    linewise: bool,
    now: u64,
    r: Option<AppMessage>,
) -> bool {
    let cs = a.live();
    let span = operator_span(
        cs,
        a.cursor_index(),
        index_of(cs, target as int),
        inclusive,
        linewise,
    );
    performed(a, b, op, bpos(cs, span.0) as int, bpos(cs, span.1) as int, linewise, now, r)
}

/// `b` is `a` after motion `m` ran `count` times: a pending operator sweeps
/// over it, else the cursor moves there and the outline follows.
pub open spec fn ran_motion(
    a: EditorModel,
    b: EditorModel,
    count: usize,
    inclusive: bool,
    linewise: bool,
    m: Motion,
    now: u64,
    r: Option<AppMessage>,
) -> bool {
    let target = repeat_motion(a.live(), a.cursor, m, count as nat);
    let a1 = EditorModel { pending_operator: None, ..a };
    match a.pending_operator {
        Some(op) => operated(a1, b, op, target, inclusive, linewise, now, r),
        None => jumped_to(a1, b, target as int) && r == Some(select_at(b)),
    }
}

/// End of `count` lines from the line starting at char `start`.
pub open spec fn lines_end(cs: Seq<char>, start: int, count: nat) -> int
    decreases count,
{
    if count == 0 {
        start
    } else {
        next_line_start_of(cs, lines_end(cs, start, (count - 1) as nat))
    }
}

fn content_update(state: &NoteEditorState) -> (r: AppMessage)
    ensures
        is_content_update(Some(r), state@, true),
{
    AppMessage::UpdateSelectedNoteContent(state.content().clone(), true)
}

/// Moves the cursor to `offset` and reports the new block to the outline so
/// its highlight tracks cross-block motions.
fn motion_to(state: &mut NoteEditorState, offset: usize) -> (r: Option<AppMessage>)
    requires
        old(state).wf(),
    ensures
        final(state).wf(),
        jumped_to(old(state)@, final(state)@, offset as int),
        r == Some(select_at(final(state)@)),
{
    state.jump_to_offset(offset);
    Some(AppMessage::Outline(OutlineMessage::SelectAt(state.current_block_idx())))
}

/// Applies `operator` over `range`, capturing the text into the register.
fn perform(
    state: &mut NoteEditorState,
    operator: Operator,
    range: Range<usize>,
    linewise: bool,
    now_ms: u64,
) -> (r: Option<AppMessage>)
    requires
        old(state).wf(),
        range.start <= range.end,
        is_boundary(old(state)@.live(), range.start as int),
        is_boundary(old(state)@.live(), range.end as int),
    ensures
        final(state).wf(),
        performed(
            old(state)@,
            final(state)@,
            operator,
            range.start as int,
            range.end as int,
            linewise,
            now_ms,
            r,
        ),
{
    let t = Text::new(state.live_content());
    let a = t.index_at(range.start);
    let b = t.index_at(range.end);
    proof {
        if a > b {
            crate::text::lemma_bpos_strict(t.chars@, b as int, a as int);
        }
    }
    let text = t.substring(a, b);
    let empty = a == b;
    let is_change = match operator {
        Operator::Change => true,
        _ => false,
    };
    if empty && !is_change {
        return None;
    }
    match operator {
        Operator::Yank => {
            let copied = text.clone();
            state.set_register(text, linewise);
            state.flash_yank(Range { start: range.start, end: range.end }, now_ms);
            state.jump_to_offset(range.start);
            Some(AppMessage::CopyToClipboard(copied))
        },
        Operator::Delete => {
            state.set_register(text, linewise);
            state.splice(range, "");
            proof {
                reveal_strlit("");
            }
            Some(content_update(state))
        },
        Operator::Change => {
            state.set_register(text, linewise);
            state.splice(range, "");
            proof {
                reveal_strlit("");
            }
            state.set_insert_mode(true);
            Some(content_update(state))
        },
    }
}

/// Sweeps `operator` from the cursor to `target`.
fn operate(
    state: &mut NoteEditorState,
    operator: Operator,
    target: usize,
    inclusive: bool,
    linewise: bool,
    now_ms: u64,
) -> (r: Option<AppMessage>)
    requires
        old(state).wf(),
        is_boundary(old(state)@.live(), target as int),
    ensures
        final(state).wf(),
        operated(old(state)@, final(state)@, operator, target, inclusive, linewise, now_ms, r),
{
    let t = Text::new(state.live_content());
    let n = t.chars.len();
    let k = t.index_at(state.cursor_offset());
    let j = t.index_at(target);
    let lo = if k <= j {
        k
    } else {
        j
    };
    let hi = if k <= j {
        j
    } else {
        k
    };
    proof {
        crate::motion::lemma_start_of_line(t.chars@, lo as int);
        crate::motion::lemma_end_of_line(t.chars@, hi as int);
    }
    let (a, b) = if linewise {
        let e = crate::motion::line_end_idx(&t.chars, hi);
        (crate::motion::line_start_idx(&t.chars, lo), if e < n {
            e + 1
        } else {
            n
        })
    } else {
        (lo, if inclusive && hi < n {
            hi + 1
        } else {
            hi
        })
    };
    proof {
        lemma_index_of(t.chars@, a as int);
        lemma_index_of(t.chars@, b as int);
        lemma_bpos_mono(t.chars@, a as int, b as int);
    }
    perform(state, operator, Range { start: t.offset(a), end: t.offset(b) }, linewise, now_ms)
}

/// The single funnel for every motion: repeat it `count` times to find the
/// target, then either sweep a pending operator over the range or move there.
/// `inclusive` covers the character under the target for charwise operators;
/// `linewise` rounds the operator range out to whole lines.
fn run_motion(
    state: &mut NoteEditorState,
    count: usize,
    inclusive: bool,
    linewise: bool,
    motion: Motion,
    now_ms: u64,
) -> (r: Option<AppMessage>)
    requires
        old(state).wf(),
    ensures
        final(state).wf(),
        ran_motion(old(state)@, final(state)@, count, inclusive, linewise, motion, now_ms, r),
{
    let target = repeat(state.live_content(), state.cursor_offset(), motion, count);
    match state.take_operator() {
        Some(operator) => operate(state, operator, target, inclusive, linewise, now_ms),
        None => motion_to(state, target),
    }
}

/// Resolves a find (`f`/`t`/`;`/`,`) `count` times, sweeping any pending
/// operator; forward finds are inclusive of the target char.
fn apply_find(
    state: &mut NoteEditorState,
    target: char,
    kind: FindKind,
    count: usize,
    now_ms: u64,
) -> (r: Option<AppMessage>)
    requires
        old(state).wf(),
    ensures
        final(state).wf(),
        ran_motion(
            old(state)@,
            final(state)@,
            count,
            kind.forward,
            false,
            Motion::Find(target, kind),
            now_ms,
            r,
        ),
{
    run_motion(state, count, kind.forward, false, Motion::Find(target, kind), now_ms)
}

/// Applies an operator to the active visual selection (visual-mode `d`/`c`/`y`).
fn apply_to_selection(state: &mut NoteEditorState, operator: Operator, now_ms: u64) -> (r: Option<
    AppMessage,
>)
    requires
        old(state).wf(),
    ensures
        final(state).wf(),
        match selection_bytes(old(state)@) {
            Some((s, e)) => performed(
                EditorModel { selection: None, ..old(state)@ },
                final(state)@,
                operator,
                s,
                e,
                old(state)@.selection->0.mode == SelectionMode::Line,
                now_ms,
                r,
            ),
            None => r is None && final(state)@ == old(state)@,
        },
{
    let linewise = match state.selection() {
        Some(selection) => match selection.mode {
            SelectionMode::Line => true,
            SelectionMode::Char => false,
        },
        None => false,
    };
    let (a, b, t) = match state.selection_indices() {
        Some(span) => span,
        None => {
            return None;
        },
    };
    proof {
        lemma_index_of(t.chars@, a as int);
        lemma_index_of(t.chars@, b as int);
        lemma_bpos_mono(t.chars@, a as int, b as int);
    }
    let range = Range { start: t.offset(a), end: t.offset(b) };
    state.clear_selection();
    perform(state, operator, range, linewise, now_ms)
}

/// A doubled operator (`dd`/`yy`/`cc`): linewise over `count` lines.
fn operate_lines(state: &mut NoteEditorState, operator: Operator, count: usize, now_ms: u64) -> (r:
    Option<AppMessage>)
    requires
        old(state).wf(),
    ensures
        final(state).wf(),
        ({
            let cs = old(state)@.live();
            let start = start_of_line(cs, old(state)@.cursor_index());
            performed(
                old(state)@,
                final(state)@,
                operator,
                bpos(cs, start) as int,
                bpos(cs, lines_end(cs, start, count as nat)) as int,
                true,
                now_ms,
                r,
            )
        }),
{
    let t = Text::new(state.live_content());
    let n = t.chars.len();
    let k = t.index_at(state.cursor_offset());
    proof {
        crate::motion::lemma_start_of_line(t.chars@, k as int);
    }
    let start = crate::motion::line_start_idx(&t.chars, k);
    let mut end = start;
    let mut i: usize = 0;
    while i < count
        invariant
            n == t.chars@.len(),
            start <= end <= n,
            i <= count,
            end == lines_end(t.chars@, start as int, i as nat),
        decreases count - i,
    {
        proof {
            crate::motion::lemma_end_of_line(t.chars@, end as int);
        }
        let e = crate::motion::line_end_idx(&t.chars, end);
        end = if e < n {
            e + 1
        } else {
            n
        };
        i = i + 1;
    }
    proof {
        lemma_index_of(t.chars@, start as int);
        lemma_index_of(t.chars@, end as int);
        lemma_bpos_mono(t.chars@, start as int, end as int);
    }
    perform(state, operator, Range { start: t.offset(start), end: t.offset(end) }, true, now_ms)
}

// ---------------------------------------------------------------------------
// What each message does
// ---------------------------------------------------------------------------
/// The state a message starts from: an armed find, text object or replace
/// survives only into the key that completes it.
pub open spec fn prepared(a: EditorModel, msg: Message) -> EditorModel {
    EditorModel {
        pending_find: if msg is FindTarget {
            a.pending_find
        } else {
            None
        },
        pending_text_object: if msg is TextObjectTarget {
            a.pending_text_object
        } else {
            None
        },
        pending_replace: if msg is ReplaceTarget {
            a.pending_replace
        } else {
            false
        },
        ..a
    }
}

/// The pending count, or one.
pub open spec fn count_or_one(m: EditorModel) -> usize {
    match m.pending_count {
        Some(c) => c,
        None => 1,
    }
}

pub open spec fn without_count(m: EditorModel) -> EditorModel {
    EditorModel { pending_count: None, ..m }
}

pub open spec fn without_operator(m: EditorModel) -> EditorModel {
    EditorModel { pending_operator: None, ..m }
}

/// Rows one scroll of `amount` moves on a screen `height` rows tall.
pub open spec fn scroll_rows(amount: ScrollAmount, height: usize) -> usize {
    match amount {
        ScrollAmount::One => 1,
        ScrollAmount::HalfPage => height / 2,
    }
}

/// Leaving insert editing from edit view: pending edits committed, the
/// text buffer closed.
pub open spec fn exited(a: EditorModel) -> EditorModel {
    EditorModel {
        content: a.live(),
        modified: a.modified || a.live() != a.content,
        buffer: None,
        editing_block: None,
        ..a
    }
}

/// Switching to read view: the viewport follows the cursor.
pub open spec fn read_view(a: EditorModel) -> EditorModel {
    EditorModel {
        view: EditorView::Read,
        viewport: crate::state::follow(a.viewport, a.row() as int, a.column()),
        ..a
    }
}

/// `b` is `a` switched to the source edit view, with the cursor's block open.
pub open spec fn viewed_edit(a: EditorModel, b: EditorModel) -> bool {
    b == crate::state::opened(
        EditorModel { view: EditorView::Edit(EditMode::Source), ..a },
        block_of(a.live(), a.cursor_index()) as usize,
    )
}

/// Entering insert mode from normal mode: count, operator and selection
/// dropped and an undo point recorded.
pub open spec fn entered_insert(a: EditorModel) -> EditorModel {
    EditorModel {
        pending_count: None,
        pending_operator: None,
        selection: None,
        undo: a.undo.push(crate::state::snap_of(a.content, a.cursor)),
        redo: Seq::empty(),
        insert_mode: true,
        ..a
    }
}

/// Save asks for the committed content to be written when there are changes.
pub open spec fn save_requested(a: EditorModel, b: EditorModel, r: Option<AppMessage>) -> bool {
    &&& b == a
    &&& a.has_changes() ==> (r matches Some(AppMessage::WriteNote { path, content }) && path@
        == a.filepath && content@ == a.content)
    &&& !a.has_changes() ==> r is None
}

/// `b` is `a` after a visual-mode operator over the selection.
pub open spec fn applied_to_selection(
    a: EditorModel,
    b: EditorModel,
    op: Operator,
    now: u64,
    r: Option<AppMessage>,
) -> bool {
    match selection_bytes(a) {
        Some((s, e)) => performed(
            EditorModel { selection: None, ..a },
            b,
            op,
            s,
            e,
            a.selection->0.mode == SelectionMode::Line,
            now,
            r,
        ),
        None => r is None && b == a,
    }
}

/// `b` is `a` after a doubled operator over `count` lines from the cursor's.
pub open spec fn lines_performed(
    a: EditorModel,
    b: EditorModel,
    op: Operator,
    count: usize,
    now: u64,
    r: Option<AppMessage>,
) -> bool {
    let cs = a.live();
    let start = start_of_line(cs, a.cursor_index());
    performed(
        a,
        b,
        op,
        bpos(cs, start) as int,
        bpos(cs, lines_end(cs, start, count as nat)) as int,
        true,
        now,
        r,
    )
}

/// `b` is `a` after chars `[k, e)` were each replaced by `c`, the cursor
/// left on the last replaced char.
pub open spec fn replaced(a: EditorModel, b: EditorModel, c: char, k: int, e: int) -> bool {
    let cs = a.live();
    let rep = Seq::new((e - k) as nat, |i: int| c);
    let new = crate::state::spliced(cs, k, e, rep);
    exists|mid: EditorModel|
        #[trigger] spliced_into(a, mid, bpos(cs, k) as int, bpos(cs, e) as int, rep) && jumped_to(
            mid,
            b,
            bpos(new, e - 1) as int,
        )
}

/// The pane messages every non-insert mode answers alike.
pub open spec fn pane_step(p: EditorModel, b: EditorModel, msg: Message, r: Option<AppMessage>) -> bool {
    match msg {
        Message::ToggleExplorer => b == p && r == Some(AppMessage::Explorer(ExplorerMessage::Toggle)),
        Message::ToggleOutline => b == p && r == Some(AppMessage::Outline(OutlineMessage::Toggle)),
        Message::SwitchPaneNext => b == (EditorModel { active: false, ..p }) && r == Some(
            AppMessage::SetActivePane(ActivePane::Outline),
        ),
        Message::SwitchPanePrevious => b == (EditorModel { active: false, ..p }) && r == Some(
            AppMessage::SetActivePane(ActivePane::Explorer),
        ),
        Message::Save => save_requested(p, b, r),
        _ => b == p && r is None,
    }
}

pub open spec fn is_pane_message(msg: Message) -> bool {
    ||| msg is ToggleExplorer
    ||| msg is ToggleOutline
    ||| msg is SwitchPaneNext
    ||| msg is SwitchPanePrevious
    ||| msg is Save
}

/// What a message does in insert mode.
pub open spec fn insert_step(p: EditorModel, b: EditorModel, msg: Message, r: Option<AppMessage>) -> bool {
    let cs = p.live();
    let k = p.cursor_index();
    match msg {
        Message::CursorWordForward => crate::state::moved_to(p, b, word_forward_of(cs, k, false))
            && r is None,
        Message::CursorWordBackward => crate::state::moved_to(p, b, word_backward_of(cs, k, false))
            && r is None,
        Message::ToggleView | Message::ReadView => b == read_view(
            exited(EditorModel { insert_mode: false, ..p }),
        ) && is_content_update(r, b, true),
        Message::KeyEvent(key) => (match key.code {
            KeyCode::Char(c) => crate::state::inserted(p, b, c),
            KeyCode::Enter => crate::state::inserted(p, b, '\n'),
            _ => b == p,
        }) && is_content_update(r, b, false),
        Message::Delete => (if p.buffer is Some && k > 0 {
            crate::state::deleted_back(p, b)
        } else {
            b == p
        }) && r is None,
        Message::Exit => {
            let e = exited(EditorModel { insert_mode: false, ..p });
            (if p.vim_mode {
                b == e
            } else {
                b == read_view(e)
            }) && is_content_update(r, b, true)
        },
        _ => b == p && r is None,
    }
}

/// What a message does in read view.
pub open spec fn read_step(p: EditorModel, b: EditorModel, msg: Message, r: Option<AppMessage>) -> bool {
    match msg {
        Message::ToggleView => if p.editor_enabled {
            viewed_edit(p, b) && r is None
        } else {
            b == p && r is None
        },
        Message::EditView | Message::InsertMode => if p.editor_enabled {
            viewed_edit(p, EditorModel { insert_mode: p.insert_mode, ..b }) && b.insert_mode
                && r is None
        } else {
            b == p && r is None
        },
        Message::ReadView => b == read_view(p) && r is None,
        _ => pane_step(p, b, msg, r),
    }
}

/// What a motion message does in vim normal mode.
pub open spec fn normal_motion_step(
    p: EditorModel,
    b: EditorModel,
    msg: Message,
    now: u64,
    r: Option<AppMessage>,
) -> bool {
    let cnt = count_or_one(p);
    let p1 = without_count(p);
    let changing = p.pending_operator == Some(Operator::Change);
    match msg {
        Message::CursorWordForward => if changing {
            ran_motion(p1, b, cnt, true, false, Motion::WordEnd(false), now, r)
        } else {
            ran_motion(p1, b, cnt, false, false, Motion::WordForward(false), now, r)
        },
        Message::CursorWordForwardBig => if changing {
            ran_motion(p1, b, cnt, true, false, Motion::WordEnd(true), now, r)
        } else {
            ran_motion(p1, b, cnt, false, false, Motion::WordForward(true), now, r)
        },
        Message::CursorWordBackward => ran_motion(p1, b, cnt, false, false, Motion::WordBackward(false), now, r),
        Message::CursorWordBackwardBig => ran_motion(p1, b, cnt, false, false, Motion::WordBackward(true), now, r),
        Message::CursorWordEnd => ran_motion(p1, b, cnt, true, false, Motion::WordEnd(false), now, r),
        Message::CursorWordEndBig => ran_motion(p1, b, cnt, true, false, Motion::WordEnd(true), now, r),
        Message::CursorLineStart => ran_motion(p1, b, 1, false, false, Motion::LineStart, now, r),
        Message::CursorLineEnd => ran_motion(p1, b, 1, true, false, Motion::LineEnd, now, r),
        Message::CursorFirstNonblank => ran_motion(p1, b, 1, false, false, Motion::FirstNonblank, now, r),
        Message::ParagraphForward => ran_motion(p1, b, cnt, false, false, Motion::ParagraphForward, now, r),
        Message::ParagraphBackward => ran_motion(p1, b, cnt, false, false, Motion::ParagraphBackward, now, r),
        Message::CursorDocStart => ran_motion(p1, b, 1, false, true, Motion::DocStart(p.pending_count), now, r),
        Message::CursorDocEnd => ran_motion(p1, b, 1, false, true, Motion::DocEnd(p.pending_count), now, r),
        Message::FindTarget(c) => match p.pending_find {
            Some(kind) => ran_motion(
                EditorModel {
                    pending_find: None,
                    last_find: Some(crate::state::FindMotion { target: c, kind }),
                    ..p1
                },
                b,
                cnt,
                kind.forward,
                false,
                Motion::Find(c, kind),
                now,
                r,
            ),
            None => b == p1 && r is None,
        },
        Message::RepeatFind { reverse } => match p.last_find {
            Some(f) => {
                let kind = if reverse {
                    FindKind { forward: !f.kind.forward, till: f.kind.till }
                } else {
                    f.kind
                };
                ran_motion(p1, b, cnt, kind.forward, false, Motion::Find(f.target, kind), now, r)
            },
            None => b == p1 && r is None,
        },
        _ => false,
    }
}

pub open spec fn is_normal_motion(msg: Message) -> bool {
    ||| msg is CursorWordForward
    ||| msg is CursorWordForwardBig
    ||| msg is CursorWordBackward
    ||| msg is CursorWordBackwardBig
    ||| msg is CursorWordEnd
    ||| msg is CursorWordEndBig
    ||| msg is CursorLineStart
    ||| msg is CursorLineEnd
    ||| msg is CursorFirstNonblank
    ||| msg is ParagraphForward
    ||| msg is ParagraphBackward
    ||| msg is CursorDocStart
    ||| msg is CursorDocEnd
    ||| msg is FindTarget
    ||| msg is RepeatFind
}

/// What an operator or text-changing message does in vim normal mode.
pub open spec fn normal_edit_step(
    p: EditorModel,
    b: EditorModel,
    msg: Message,
    now: u64,
    r: Option<AppMessage>,
) -> bool {
    let cs = p.live();
    let k = p.cursor_index();
    let cnt = count_or_one(p);
    let p2 = without_operator(p);
    let p3 = without_operator(without_count(p));
    match msg {
        Message::MatchingPair => match (p.pending_operator, crate::motion::matching_pair_of(cs, k)) {
            (Some(op), Some(t)) => operated(p3, b, op, bpos(cs, t) as usize, true, false, now, r),
            (None, Some(t)) => jumped_to(p3, b, (bpos(cs, t) as usize) as int) && r == Some(
                select_at(b),
            ),
            _ => b == p3 && r is None,
        },
        Message::Operator(op) => if p.selection is Some {
            applied_to_selection(p, b, op, now, r)
        } else if p.pending_operator == Some(op) {
            lines_performed(p3, b, op, cnt, now, r)
        } else {
            b == (EditorModel { pending_operator: Some(op), ..p }) && r is None
        },
        Message::DeleteUnderCursor => performed(
            p3,
            b,
            Operator::Delete,
            p.cursor as int,
            bpos(cs, nth_char_right_of(cs, k, cnt as int)) as int,
            false,
            now,
            r,
        ),
        Message::SubstituteChar => performed(
            p3,
            b,
            Operator::Change,
            p.cursor as int,
            bpos(cs, nth_char_right_of(cs, k, cnt as int)) as int,
            false,
            now,
            r,
        ),
        Message::DeleteToLineEnd => performed(
            p2,
            b,
            Operator::Delete,
            p.cursor as int,
            bpos(cs, crate::motion::end_of_line(cs, k)) as int,
            false,
            now,
            r,
        ),
        Message::ChangeToLineEnd => performed(
            p2,
            b,
            Operator::Change,
            p.cursor as int,
            bpos(cs, crate::motion::end_of_line(cs, k)) as int,
            false,
            now,
            r,
        ),
        Message::TextObjectTarget(obj) => {
            let p6 = EditorModel { pending_text_object: None, pending_operator: None, ..p };
            match (p.pending_text_object, p.pending_operator) {
                (Some(around), Some(op)) => match crate::motion::text_object_of(cs, k, obj, around) {
                    Some((x, y)) => performed(
                        p6,
                        b,
                        op,
                        (bpos(cs, x) as usize) as int,
                        (bpos(cs, y) as usize) as int,
                        false,
                        now,
                        r,
                    ),
                    None => b == p6 && r is None,
                },
                _ => b == p6 && r is None,
            }
        },
        Message::PasteAfter => crate::state::pasted(p2, b, true) && is_content_update(r, b, true),
        Message::PasteBefore => crate::state::pasted(p2, b, false) && is_content_update(r, b, true),
        Message::Undo => if p2.undo.len() > 0 {
            crate::state::undid(p2, b) && is_content_update(r, b, true)
        } else {
            b == p2 && r is None
        },
        Message::Redo => if p2.redo.len() > 0 {
            crate::state::redid(p2, b) && is_content_update(r, b, true)
        } else {
            b == p2 && r is None
        },
        Message::ReplaceTarget(c) => {
            let p7 = EditorModel { pending_replace: false, pending_count: None, ..p };
            let e = nth_char_right_of(cs, k, cnt as int);
            if e > k {
                replaced(p7, b, c, k, e) && is_content_update(r, b, true)
            } else {
                b == p7 && r is None
            }
        },
        Message::Append => if p.pending_operator is Some {
            b == (EditorModel { pending_text_object: Some(true), ..p }) && r is None
        } else {
            let a1 = EditorModel {
                pending_count: None,
                selection: None,
                undo: p.undo.push(crate::state::snap_of(p.content, p.cursor)),
                redo: Seq::empty(),
                ..p
            };
            &&& jumped_to(
                a1,
                EditorModel { insert_mode: a1.insert_mode, ..b },
                (bpos(cs, nth_char_right_of(cs, k, 1)) as usize) as int,
            )
            &&& b.insert_mode
            &&& r is None
        },
        _ => false,
    }
}

pub open spec fn is_normal_edit(msg: Message) -> bool {
    ||| msg is MatchingPair
    ||| msg is Operator
    ||| msg is DeleteUnderCursor
    ||| msg is SubstituteChar
    ||| msg is DeleteToLineEnd
    ||| msg is ChangeToLineEnd
    ||| msg is TextObjectTarget
    ||| msg is PasteAfter
    ||| msg is PasteBefore
    ||| msg is Undo
    ||| msg is Redo
    ||| msg is ReplaceTarget
    ||| msg is Append
}

/// What a message does in vim normal mode.
pub open spec fn normal_step(p: EditorModel, b: EditorModel, msg: Message, now: u64, r: Option<AppMessage>) -> bool {
    if is_normal_motion(msg) {
        normal_motion_step(p, b, msg, now, r)
    } else if is_normal_edit(msg) {
        normal_edit_step(p, b, msg, now, r)
    } else {
        match msg {
            Message::FindChar { forward, till } => b == (EditorModel {
                pending_find: Some(FindKind { forward, till }),
                ..p
            }) && r is None,
            Message::CountDigit(d) => b == (EditorModel {
                pending_count: Some(crate::state::count_after_digit(p.pending_count, d)),
                ..p
            }) && r is None,
            Message::VisualMode => b == (EditorModel {
                selection: crate::state::toggled(p.selection, p.cursor, SelectionMode::Char),
                pending_operator: None,
                ..p
            }) && r is None,
            Message::VisualLineMode => b == (EditorModel {
                selection: crate::state::toggled(p.selection, p.cursor, SelectionMode::Line),
                pending_operator: None,
                ..p
            }) && r is None,
            Message::Exit => b == (EditorModel {
                pending_count: None,
                pending_operator: None,
                selection: None,
                ..p
            }) && r is None,
            Message::InsertMode => if p.pending_operator is Some {
                b == (EditorModel { pending_text_object: Some(false), ..p }) && r is None
            } else {
                b == entered_insert(p) && r is None
            },
            Message::EditView => b == entered_insert(p) && r is None,
            Message::ReplaceChar => b == (EditorModel {
                pending_operator: None,
                pending_replace: true,
                ..p
            }) && r is None,
            Message::ToggleView | Message::ReadView => b == read_view(
                exited(EditorModel { selection: None, ..p }),
            ) && is_content_update(r, b, true),
            _ => pane_step(p, b, msg, r),
        }
    }
}

/// What `update` does with `msg`, from state `a`, on a screen `height` rows
/// tall at time `now` (milliseconds).
pub open spec fn update_step(
    a: EditorModel,
    b: EditorModel,
    msg: Message,
    height: usize,
    now: u64,
    r: Option<AppMessage>,
) -> bool {
    let p = prepared(a, msg);
    let cs = p.live();
    let k = p.cursor_index();
    let cnt = count_or_one(p);
    let p1 = without_count(p);
    let operator_pending = p.pending_operator is Some;
    match msg {
        Message::CursorLeft => if operator_pending {
            ran_motion(p1, b, cnt, false, false, Motion::CharLeft, now, r)
        } else {
            crate::state::moved_to(p1, b, nth_char_left_of(cs, k, cnt as int)) && r is None
        },
        Message::CursorRight => if operator_pending {
            ran_motion(p1, b, cnt, false, false, Motion::CharRight, now, r)
        } else {
            crate::state::moved_to(p1, b, nth_char_right_of(cs, k, cnt as int)) && r is None
        },
        Message::JumpToBlock(idx) => crate::state::jumped(p, b, idx as nat) && r is None,
        Message::CursorUp => if operator_pending {
            ran_motion(p1, b, 1, false, true, Motion::LinesUp(cnt), now, r)
        } else {
            crate::state::went_up(p1, b, cnt as nat) && r == Some(select_at(b))
        },
        Message::CursorDown => if operator_pending {
            ran_motion(p1, b, 1, false, true, Motion::LinesDown(cnt), now, r)
        } else {
            crate::state::went_down(p1, b, cnt as nat) && r == Some(select_at(b))
        },
        Message::ScrollUp(amount) => crate::state::went_up(p, b, scroll_rows(amount, height) as nat)
            && r == Some(select_at(b)),
        Message::ScrollDown(amount) => crate::state::went_down(
            p,
            b,
            scroll_rows(amount, height) as nat,
        ) && r == Some(select_at(b)),
        Message::ScrollToTop => crate::state::went_up(p, b, usize::MAX as nat) && r == Some(
            select_at(b),
        ),
        Message::ScrollToBottom => (exists|mid: EditorModel|
            crate::state::jumped(
                p,
                mid,
                crate::state::sat_sub(crate::state::block_count(cs) as int, 1) as nat,
            ) && #[trigger] crate::state::went_down(mid, b, usize::MAX as nat)) && r == Some(
            select_at(b),
        ),
        _ => if p.view is Edit && p.insert_mode {
            insert_step(p, b, msg, r)
        } else if p.view is Edit {
            normal_step(p, b, msg, now, r)
        } else {
            read_step(p, b, msg, r)
        },
    }
}

// ---------------------------------------------------------------------------
// Handling messages
// ---------------------------------------------------------------------------
fn count_or_one_of(count: Option<usize>) -> (c: usize)
    ensures
        c == match count {
            Some(c) => c,
            None => 1usize,
        },
{
    match count {
        Some(c) => c,
        None => 1,
    }
}

/// Save: asks for the committed content to be written when there are changes.
fn save_request(state: &NoteEditorState) -> (r: Option<AppMessage>)
    ensures
        save_requested(state@, state@, r),
{
    if state.modified() {
        Some(
            AppMessage::WriteNote {
                path: state.filepath().clone(),
                content: state.content().clone(),
            },
        )
    } else {
        None
    }
}

/// The pane messages every non-insert mode answers alike.
fn pane_message(message: Message, state: &mut NoteEditorState) -> (r: Option<AppMessage>)
    requires
        old(state).wf(),
    ensures
        final(state).wf(),
        pane_step(old(state)@, final(state)@, message, r),
{
    match message {
        Message::ToggleExplorer => Some(AppMessage::Explorer(ExplorerMessage::Toggle)),
        Message::ToggleOutline => Some(AppMessage::Outline(OutlineMessage::Toggle)),
        Message::SwitchPaneNext => {
            state.set_active(false);
            Some(AppMessage::SetActivePane(ActivePane::Outline))
        },
        Message::SwitchPanePrevious => {
            state.set_active(false);
            Some(AppMessage::SetActivePane(ActivePane::Explorer))
        },
        Message::Save => save_request(state),
        _ => None,
    }
}

/// Insert mode: typing, backspace, word moves and leaving.
fn update_insert(message: Message, state: &mut NoteEditorState) -> (r: Option<AppMessage>)
    requires
        old(state).wf(),
        old(state)@.view is Edit,
        old(state)@.insert_mode,
    ensures
        final(state).wf(),
        insert_step(old(state)@, final(state)@, message, r),
{
    match message {
        Message::CursorWordForward => {
            state.cursor_word_forward();
            None
        },
        Message::CursorWordBackward => {
            state.cursor_word_backward();
            None
        },
        Message::ToggleView | Message::ReadView => {
            state.set_insert_mode(false);
            state.exit_insert();
            state.set_view(EditorView::Read);
            Some(content_update(state))
        },
        Message::KeyEvent(key) => {
            match key.code {
                KeyCode::Char(c) => state.insert_char(c),
                KeyCode::Enter => state.insert_char('\n'),
                _ => {},
            }
            Some(AppMessage::UpdateSelectedNoteContent(state.content().clone(), false))
        },
        Message::Delete => {
            state.delete_char();
            None
        },
        Message::Exit => {
            let vim_mode = state.vim_mode();
            state.set_insert_mode(false);
            state.exit_insert();
            if !vim_mode {
                state.set_view(EditorView::Read);
            }
            Some(content_update(state))
        },
        _ => None,
    }
}

/// Vim normal mode: the motions, each repeated by the pending count.
fn normal_motion(message: Message, state: &mut NoteEditorState, now_ms: u64) -> (r: Option<
    AppMessage,
>)
    requires
        old(state).wf(),
        is_normal_motion(message),
    ensures
        final(state).wf(),
        normal_motion_step(old(state)@, final(state)@, message, now_ms, r),
{
    match message {
        Message::CursorWordForward | Message::CursorWordForwardBig => {
            let big = match message {
                Message::CursorWordForwardBig => true,
                _ => false,
            };
            let changing = match state.pending_operator() {
                Some(Operator::Change) => true,
                _ => false,
            };
            let count = count_or_one_of(state.take_count());
            // vim quirk: `cw` acts like `ce`, changing to the word end
            // instead of swallowing the trailing whitespace.
            if changing {
                run_motion(state, count, true, false, Motion::WordEnd(big), now_ms)
            } else {
                run_motion(state, count, false, false, Motion::WordForward(big), now_ms)
            }
        },
        Message::CursorWordBackward => {
            let count = count_or_one_of(state.take_count());
            run_motion(state, count, false, false, Motion::WordBackward(false), now_ms)
        },
        Message::CursorWordBackwardBig => {
            let count = count_or_one_of(state.take_count());
            run_motion(state, count, false, false, Motion::WordBackward(true), now_ms)
        },
        Message::CursorWordEnd => {
            let count = count_or_one_of(state.take_count());
            run_motion(state, count, true, false, Motion::WordEnd(false), now_ms)
        },
        Message::CursorWordEndBig => {
            let count = count_or_one_of(state.take_count());
            run_motion(state, count, true, false, Motion::WordEnd(true), now_ms)
        },
        Message::CursorLineStart => {
            state.reset_count();
            run_motion(state, 1, false, false, Motion::LineStart, now_ms)
        },
        Message::CursorLineEnd => {
            state.reset_count();
            run_motion(state, 1, true, false, Motion::LineEnd, now_ms)
        },
        Message::CursorFirstNonblank => {
            state.reset_count();
            run_motion(state, 1, false, false, Motion::FirstNonblank, now_ms)
        },
        Message::ParagraphForward => {
            let count = count_or_one_of(state.take_count());
            run_motion(state, count, false, false, Motion::ParagraphForward, now_ms)
        },
        Message::ParagraphBackward => {
            let count = count_or_one_of(state.take_count());
            run_motion(state, count, false, false, Motion::ParagraphBackward, now_ms)
        },
        Message::CursorDocStart => {
            let count = state.take_count();
            run_motion(state, 1, false, true, Motion::DocStart(count), now_ms)
        },
        Message::CursorDocEnd => {
            let count = state.take_count();
            run_motion(state, 1, false, true, Motion::DocEnd(count), now_ms)
        },
        Message::FindTarget(character) => {
            let count = count_or_one_of(state.take_count());
            match state.take_pending_find() {
                Some(kind) => {
                    state.remember_find(character, kind);
                    apply_find(state, character, kind, count, now_ms)
                },
                None => None,
            }
        },
        Message::RepeatFind { reverse } => {
            let count = count_or_one_of(state.take_count());
            match state.last_find() {
                Some((target, kind)) => {
                    let kind = if reverse {
                        FindKind { forward: !kind.forward, till: kind.till }
                    } else {
                        kind
                    };
                    apply_find(state, target, kind, count, now_ms)
                },
                None => None,
            }
        },
        _ => None,
    }
}

/// The char index `count` chars right of the cursor, within its line.
fn chars_right(state: &NoteEditorState, count: usize) -> (r: (Text, usize, usize))
    requires
        state.wf(),
    ensures
        r.0.wf(),
        r.0.chars@ == state@.live(),
        r.1 as int == state@.cursor_index(),
        r.2 as int == nth_char_right_of(state@.live(), state@.cursor_index(), count as int),
        r.1 <= r.2 <= r.0.chars@.len(),
{
    let t = Text::new(state.live_content());
    let k = t.index_at(state.cursor_offset());
    proof {
        crate::motion::lemma_end_of_line(t.chars@, k as int);
    }
    let e = crate::motion::line_end_idx(&t.chars, k);
    let j = if e - k > count {
        k + count
    } else {
        e
    };
    (t, k, j)
}

/// `%`: jump to (or sweep an operator to) the matching bracket.
fn edit_matching_pair(message: Message, state: &mut NoteEditorState, now_ms: u64) -> (r: Option<
    AppMessage,
>)
    requires
        old(state).wf(),
        message is MatchingPair,
    ensures
        final(state).wf(),
        normal_edit_step(old(state)@, final(state)@, message, now_ms, r),
{
    state.reset_count();
    let target = crate::motion::matching_pair(state.live_content(), state.cursor_offset());
    match (state.take_operator(), target) {
        (Some(operator), Some(target)) => operate(state, operator, target, true, false, now_ms),
        (None, Some(target)) => motion_to(state, target),
        _ => None,
    }
}

/// `d`/`c`/`y`: over the selection, doubled over lines, or armed.
fn edit_operator(message: Message, state: &mut NoteEditorState, now_ms: u64) -> (r: Option<
    AppMessage,
>)
    requires
        old(state).wf(),
        message is Operator,
    ensures
        final(state).wf(),
        normal_edit_step(old(state)@, final(state)@, message, now_ms, r),
{
    let operator = match message {
        Message::Operator(operator) => operator,
        _ => Operator::Delete,
    };
    if state.is_selecting() {
        return apply_to_selection(state, operator, now_ms);
    }
    let doubled = match state.pending_operator() {
        Some(pending) => pending == operator,
        None => false,
    };
    if doubled {
        let count = count_or_one_of(state.take_count());
        state.clear_operator();
        operate_lines(state, operator, count, now_ms)
    } else {
        state.set_operator(operator);
        None
    }
}

/// `x` and `s`: delete or change the chars under the cursor.
fn edit_under_cursor(message: Message, state: &mut NoteEditorState, now_ms: u64) -> (r: Option<
    AppMessage,
>)
    requires
        old(state).wf(),
        message is DeleteUnderCursor || message is SubstituteChar,
    ensures
        final(state).wf(),
        normal_edit_step(old(state)@, final(state)@, message, now_ms, r),
{
    let operator = match message {
        Message::SubstituteChar => Operator::Change,
        _ => Operator::Delete,
    };
    let count = count_or_one_of(state.take_count());
    state.clear_operator();
    let (t, k, j) = chars_right(state, count);
    proof {
        lemma_index_of(t.chars@, k as int);
        lemma_index_of(t.chars@, j as int);
        lemma_bpos_mono(t.chars@, k as int, j as int);
    }
    let range = Range { start: state.cursor_offset(), end: t.offset(j) };
    perform(state, operator, range, false, now_ms)
}

/// `D` and `C`: delete or change to the end of the line.
fn edit_to_line_end(message: Message, state: &mut NoteEditorState, now_ms: u64) -> (r: Option<
    AppMessage,
>)
    requires
        old(state).wf(),
        message is DeleteToLineEnd || message is ChangeToLineEnd,
    ensures
        final(state).wf(),
        normal_edit_step(old(state)@, final(state)@, message, now_ms, r),
{
    let operator = match message {
        Message::ChangeToLineEnd => Operator::Change,
        _ => Operator::Delete,
    };
    state.clear_operator();
    let t = Text::new(state.live_content());
    let k = t.index_at(state.cursor_offset());
    proof {
        crate::motion::lemma_end_of_line(t.chars@, k as int);
    }
    let e = crate::motion::line_end_idx(&t.chars, k);
    proof {
        lemma_index_of(t.chars@, k as int);
        lemma_index_of(t.chars@, e as int);
        lemma_bpos_mono(t.chars@, k as int, e as int);
    }
    let range = Range { start: state.cursor_offset(), end: t.offset(e) };
    perform(state, operator, range, false, now_ms)
}

/// The object char after `i`/`a` with an operator pending.
fn edit_text_object(message: Message, state: &mut NoteEditorState, now_ms: u64) -> (r: Option<
    AppMessage,
>)
    requires
        old(state).wf(),
        message is TextObjectTarget,
    ensures
        final(state).wf(),
        normal_edit_step(old(state)@, final(state)@, message, now_ms, r),
{
    let object = match message {
        Message::TextObjectTarget(object) => object,
        _ => ' ',
    };
    let around = state.take_text_object();
    let operator = state.take_operator();
    match (around, operator) {
        (Some(around), Some(operator)) => {
            match crate::motion::text_object(
                state.live_content(),
                state.cursor_offset(),
                object,
                around,
            ) {
                Some(range) => perform(state, operator, range, false, now_ms),
                None => None,
            }
        },
        _ => None,
    }
}

/// `p`/`P`, `u` and `ctrl+r`.
fn edit_history(message: Message, state: &mut NoteEditorState, now_ms: u64) -> (r: Option<
    AppMessage,
>)
    requires
        old(state).wf(),
        message is PasteAfter || message is PasteBefore || message is Undo || message is Redo,
    ensures
        final(state).wf(),
        normal_edit_step(old(state)@, final(state)@, message, now_ms, r),
{
    state.clear_operator();
    match message {
        Message::PasteAfter => {
            state.paste(true);
            Some(content_update(state))
        },
        Message::PasteBefore => {
            state.paste(false);
            Some(content_update(state))
        },
        Message::Undo => {
            if state.undo() {
                Some(content_update(state))
            } else {
                None
            }
        },
        _ => {
            if state.redo() {
                Some(content_update(state))
            } else {
                None
            }
        },
    }
}

/// The char after `r`: replaces the chars under the cursor.
fn edit_replace(message: Message, state: &mut NoteEditorState, now_ms: u64) -> (r: Option<
    AppMessage,
>)
    requires
        old(state).wf(),
        message is ReplaceTarget,
    ensures
        final(state).wf(),
        normal_edit_step(old(state)@, final(state)@, message, now_ms, r),
{
    let character = match message {
        Message::ReplaceTarget(character) => character,
        _ => ' ',
    };
    state.clear_pending_replace();
    let count = count_or_one_of(state.take_count());
    let (t, k, j) = chars_right(state, count);
    if j > k {
        replace_chars(state, character, t, k, j);
        Some(content_update(state))
    } else {
        None
    }
}

/// `a`: an `a`round text object with an operator pending, else append.
fn edit_append(message: Message, state: &mut NoteEditorState, now_ms: u64) -> (r: Option<
    AppMessage,
>)
    requires
        old(state).wf(),
        message is Append,
    ensures
        final(state).wf(),
        normal_edit_step(old(state)@, final(state)@, message, now_ms, r),
{
    if state.pending_operator().is_some() {
        state.arm_text_object(true);
    } else {
        state.reset_count();
        state.clear_selection();
        state.mark_undo_point();
        let target = crate::motion::nth_char_right(state.live_content(), state.cursor_offset(), 1);
        state.jump_to_offset(target);
        state.set_insert_mode(true);
    }
    None
}

/// Vim normal mode: operators, text objects, paste, undo/redo, replace, append.
fn normal_edit(message: Message, state: &mut NoteEditorState, now_ms: u64) -> (r: Option<
    AppMessage,
>)
    requires
        old(state).wf(),
        is_normal_edit(message),
    ensures
        final(state).wf(),
        normal_edit_step(old(state)@, final(state)@, message, now_ms, r),
{
    match message {
        Message::MatchingPair => edit_matching_pair(message, state, now_ms),
        Message::Operator(_) => edit_operator(message, state, now_ms),
        Message::DeleteUnderCursor | Message::SubstituteChar => edit_under_cursor(
            message,
            state,
            now_ms,
        ),
        Message::DeleteToLineEnd | Message::ChangeToLineEnd => edit_to_line_end(
            message,
            state,
            now_ms,
        ),
        Message::TextObjectTarget(_) => edit_text_object(message, state, now_ms),
        Message::ReplaceTarget(_) => edit_replace(message, state, now_ms),
        Message::Append => edit_append(message, state, now_ms),
        _ => edit_history(message, state, now_ms),
    }
}

/// Replaces chars `[k, j)` of the live content `t` with `character` each,
/// leaving the cursor on the last of them.
fn replace_chars(state: &mut NoteEditorState, character: char, t: Text, k: usize, j: usize)
    requires
        old(state).wf(),
        t.wf(),
        t.chars@ == old(state)@.live(),
        k < j <= t.chars@.len(),
    ensures
        final(state).wf(),
        replaced(old(state)@, final(state)@, character, k as int, j as int),
{
    let ghost cs = t.chars@;
    let mut replacement = String::new();
    let mut i = k;
    while i < j
        invariant
            k <= i <= j,
            replacement@ == Seq::new((i - k) as nat, |n: int| character),
        decreases j - i,
    {
        crate::text::push_char(&mut replacement, character);
        i = i + 1;
        assert(replacement@ =~= Seq::new((i - k) as nat, |n: int| character));
    }
    proof {
        lemma_index_of(cs, k as int);
        lemma_index_of(cs, j as int);
        lemma_bpos_mono(cs, k as int, j as int);
    }
    let range = Range { start: t.offset(k), end: t.offset(j) };
    state.splice(range, replacement.as_str());
    let ghost mid = state@;
    let nt = Text::new(state.content().as_str());
    let ghost new = crate::state::spliced(cs, k as int, j as int, replacement@);
    assert(nt.chars@ == new);
    let landing = nt.offset(j - 1);
    state.jump_to_offset(landing);
    assert(spliced_into(
        old(state)@,
        mid,
        bpos(cs, k as int) as int,
        bpos(cs, j as int) as int,
        replacement@,
    ));
}

/// Vim normal mode: the keys that arm, count, select or leave.
fn normal_other(message: Message, state: &mut NoteEditorState) -> (r: Option<AppMessage>)
    requires
        old(state).wf(),
        old(state)@.view is Edit,
        !is_normal_motion(message),
        !is_normal_edit(message),
    ensures
        final(state).wf(),
        normal_step(old(state)@, final(state)@, message, 0, r),
{
    match message {
        Message::FindChar { forward, till } => {
            state.arm_find(forward, till);
            None
        },
        Message::CountDigit(digit) => {
            state.push_count_digit(digit);
            None
        },
        Message::VisualMode => {
            state.clear_operator();
            state.toggle_selection(SelectionMode::Char);
            None
        },
        Message::VisualLineMode => {
            state.clear_operator();
            state.toggle_selection(SelectionMode::Line);
            None
        },
        Message::Exit => {
            state.reset_count();
            state.clear_operator();
            state.clear_selection();
            None
        },
        Message::InsertMode | Message::EditView => {
            let arm = match message {
                Message::InsertMode => state.pending_operator().is_some(),
                _ => false,
            };
            if arm {
                state.arm_text_object(false);
            } else {
                state.reset_count();
                state.clear_operator();
                state.clear_selection();
                state.mark_undo_point();
                state.set_insert_mode(true);
            }
            None
        },
        Message::ReplaceChar => {
            state.clear_operator();
            state.arm_replace();
            None
        },
        Message::ToggleView | Message::ReadView => {
            state.clear_selection();
            state.exit_insert();
            state.set_view(EditorView::Read);
            Some(content_update(state))
        },
        _ => pane_message(message, state),
    }
}

/// Vim normal mode.
fn update_normal(message: Message, state: &mut NoteEditorState, now_ms: u64) -> (r: Option<
    AppMessage,
>)
    requires
        old(state).wf(),
        old(state)@.view is Edit,
    ensures
        final(state).wf(),
        normal_step(old(state)@, final(state)@, message, now_ms, r),
{
    if is_motion_message(message) {
        normal_motion(message, state, now_ms)
    } else if is_edit_message(message) {
        normal_edit(message, state, now_ms)
    } else {
        normal_other(message, state)
    }
}

fn is_motion_message(message: Message) -> (b: bool)
    ensures
        b == is_normal_motion(message),
{
    match message {
        Message::CursorWordForward | Message::CursorWordForwardBig | Message::CursorWordBackward
        | Message::CursorWordBackwardBig | Message::CursorWordEnd | Message::CursorWordEndBig
        | Message::CursorLineStart | Message::CursorLineEnd | Message::CursorFirstNonblank
        | Message::ParagraphForward | Message::ParagraphBackward | Message::CursorDocStart
        | Message::CursorDocEnd | Message::FindTarget(_) | Message::RepeatFind { .. } => true,
        _ => false,
    }
}

fn is_edit_message(message: Message) -> (b: bool)
    ensures
        b == is_normal_edit(message),
{
    match message {
        Message::MatchingPair | Message::Operator(_) | Message::DeleteUnderCursor
        | Message::SubstituteChar | Message::DeleteToLineEnd | Message::ChangeToLineEnd
        | Message::TextObjectTarget(_) | Message::PasteAfter | Message::PasteBefore
        | Message::Undo | Message::Redo | Message::ReplaceTarget(_) | Message::Append => true,
        _ => false,
    }
}

/// Read view.
fn update_read(message: Message, state: &mut NoteEditorState) -> (r: Option<AppMessage>)
    requires
        old(state).wf(),
        old(state)@.view is Read,
    ensures
        final(state).wf(),
        read_step(old(state)@, final(state)@, message, r),
{
    match message {
        Message::ToggleView => {
            if state.editor_enabled() {
                state.set_view(EditorView::Edit(EditMode::Source));
            }
            None
        },
        Message::EditView | Message::InsertMode => {
            if state.editor_enabled() {
                state.set_view(EditorView::Edit(EditMode::Source));
                state.set_insert_mode(true);
            }
            None
        },
        Message::ReadView => {
            state.set_view(EditorView::Read);
            None
        },
        _ => pane_message(message, state),
    }
}

/// Handles one editor message on a screen `screen_height` rows tall at
/// time `now_ms` (milliseconds), returning what the application should do next.
pub fn update(message: Message, screen_height: usize, state: &mut NoteEditorState, now_ms: u64) -> (r:
    Option<AppMessage>)
    requires
        old(state).wf(),
    ensures
        final(state).wf(),
        update_step(old(state)@, final(state)@, message, screen_height, now_ms, r),
{
    // An armed find, text object or replace only survives to the very next key.
    match message {
        Message::FindTarget(_) => {},
        _ => state.clear_pending_find(),
    }
    match message {
        Message::TextObjectTarget(_) => {},
        _ => state.clear_pending_text_object(),
    }
    match message {
        Message::ReplaceTarget(_) => {},
        _ => state.clear_pending_replace(),
    }
    match message {
        Message::CursorLeft => {
            let count = count_or_one_of(state.take_count());
            if state.pending_operator().is_some() {
                return run_motion(state, count, false, false, Motion::CharLeft, now_ms);
            }
            state.cursor_left(count);
            return None;
        },
        Message::CursorRight => {
            let count = count_or_one_of(state.take_count());
            if state.pending_operator().is_some() {
                return run_motion(state, count, false, false, Motion::CharRight, now_ms);
            }
            state.cursor_right(count);
            return None;
        },
        Message::JumpToBlock(idx) => {
            state.cursor_jump(idx);
            return None;
        },
        Message::CursorUp => {
            let count = count_or_one_of(state.take_count());
            if state.pending_operator().is_some() {
                return run_motion(state, 1, false, true, Motion::LinesUp(count), now_ms);
            }
            state.cursor_up(count);
            return Some(select_block(state));
        },
        Message::CursorDown => {
            let count = count_or_one_of(state.take_count());
            if state.pending_operator().is_some() {
                return run_motion(state, 1, false, true, Motion::LinesDown(count), now_ms);
            }
            state.cursor_down(count);
            return Some(select_block(state));
        },
        Message::ScrollUp(scroll_amount) => {
            state.cursor_up(calc_scroll_amount(&scroll_amount, screen_height));
            return Some(select_block(state));
        },
        Message::ScrollDown(scroll_amount) => {
            state.cursor_down(calc_scroll_amount(&scroll_amount, screen_height));
            return Some(select_block(state));
        },
        Message::ScrollToTop => {
            state.cursor_up(usize::MAX);
            return Some(select_block(state));
        },
        Message::ScrollToBottom => {
            state.cursor_to_end();
            return Some(select_block(state));
        },
        _ => {},
    }
    if state.is_editing() {
        if state.insert_mode() {
            update_insert(message, state)
        } else {
            update_normal(message, state, now_ms)
        }
    } else {
        update_read(message, state)
    }
}

fn select_block(state: &NoteEditorState) -> (r: AppMessage)
    requires
        state.wf(),
    ensures
        r == select_at(state@),
{
    AppMessage::Outline(OutlineMessage::SelectAt(state.current_block_idx()))
}

/// A toast of `level` showing `text` for two seconds.
pub open spec fn is_toast(m: AppMessage, level: ToastLevel, text: Seq<char>) -> bool {
    m matches AppMessage::Toast(ToastMessage::Create(t)) && t.level == level && t.message@ == text
        && t.seconds == 2
}

/// After the application tried to write the note (`written` tells whether it
/// could): a successful write clears the unsaved flag and reports the new
/// content with a toast; a failed one reports the error.
pub fn save_finished(state: &mut NoteEditorState, written: bool) -> (r: Option<AppMessage>)
    ensures
        written ==> final(state)@ == (EditorModel { modified: false, ..old(state)@ }),
        !written ==> final(state)@ == old(state)@,
        written ==> (r matches Some(AppMessage::Batch(v)) && v@.len() == 2 && is_content_update(
            Some(v@[0]),
            old(state)@,
            false,
        ) && is_toast(v@[1], ToastLevel::Success, "File saved"@)),
        !written ==> (r matches Some(m) && is_toast(m, ToastLevel::Error, "Failed to save file"@)),
{
    if written {
        state.mark_saved();
        let mut batch: Vec<AppMessage> = Vec::new();
        batch.push(AppMessage::UpdateSelectedNoteContent(state.content().clone(), false));
        batch.push(
            AppMessage::Toast(
                ToastMessage::Create(
                    Toast {
                        level: ToastLevel::Success,
                        message: crate::state::to_string("File saved"),
                        seconds: 2,
                    },
                ),
            ),
        );
        Some(AppMessage::Batch(batch))
    } else {
        Some(
            AppMessage::Toast(
                ToastMessage::Create(
                    Toast {
                        level: ToastLevel::Error,
                        message: crate::state::to_string("Failed to save file"),
                        seconds: 2,
                    },
                ),
            ),
        )
    }
}

/// Maps a key typed in insert mode to the editor message it stands for.
pub fn handle_editing_event(key: KeyEvent) -> (r: Option<Message>)
    ensures
        r == Some(
            match key.code {
                KeyCode::Up => Message::CursorUp,
                KeyCode::Down => Message::CursorDown,
                KeyCode::Char('f') if key.alt => Message::CursorWordForward,
                KeyCode::Char('b') if key.alt => Message::CursorWordBackward,
                KeyCode::Left => Message::CursorLeft,
                KeyCode::Right => Message::CursorRight,
                KeyCode::Esc => Message::Exit,
                KeyCode::Backspace => Message::Delete,
                KeyCode::Char('e') if key.control => Message::ToggleView,
                _ => Message::KeyEvent(key),
            },
        ),
{
    match key.code {
        KeyCode::Up => Some(Message::CursorUp),
        KeyCode::Down => Some(Message::CursorDown),
        KeyCode::Char('f') if key.alt => Some(Message::CursorWordForward),
        KeyCode::Char('b') if key.alt => Some(Message::CursorWordBackward),
        KeyCode::Left => Some(Message::CursorLeft),
        KeyCode::Right => Some(Message::CursorRight),
        KeyCode::Esc => Some(Message::Exit),
        KeyCode::Backspace => Some(Message::Delete),
        KeyCode::Char('e') if key.control => Some(Message::ToggleView),
        _ => Some(Message::KeyEvent(key)),
    }
}

} // verus!
