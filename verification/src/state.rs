//! State of the note editor: the note's content, the cursor, the vim
//! command state (counts, pending operators, finds, text objects, replace),
//! the unnamed register, undo/redo history, the visual selection and the
//! viewport that follows the cursor.
//!
//! Offsets are UTF-8 byte offsets into the content, always on a char
//! boundary. While a block is being edited in insert mode its edits live in
//! the text buffer; `content` holds the last committed text.

use std::ops::Range;
use vstd::prelude::*;

use crate::motion::{
    line_end_idx, line_start_idx, step_down_idx, step_up_idx, at, end_of_line, first_nonblank, lemma_end_of_line, lemma_start_of_line,
    lemma_start_of_line_same, line_down, line_up, nth_char_left, nth_char_right, off,
    start_of_line, word_backward, word_forward,
};
use crate::text::{
    bpos, index_of, is_boundary, is_whitespace, lemma_bpos_mono, lemma_bpos_strict,
    lemma_index_of, push_char, unicode_white_space, Text,
};

verus! {

#[derive(Clone, Copy, Debug, PartialEq, Eq, Structural)]
pub enum EditMode {
    /// Shows the markdown exactly as written
    Source,
}

#[derive(Clone, Copy, Debug, PartialEq, Eq, Structural)]
pub enum EditorView {
    Read,
    Edit(EditMode),
}

impl EditorView {
    /// The label the mode indicator shows for this view.
    pub fn label(&self) -> (s: &'static str)
        ensures
            s@ == (match self {
                EditorView::Read => "READ"@,
                EditorView::Edit(..) => "EDIT"@,
            }),
    {
        match self {
            EditorView::Read => "READ",
            EditorView::Edit(..) => "EDIT",
        }
    }
}

#[derive(Clone, Copy, Debug, PartialEq, Eq, Structural)]
pub enum SelectionMode {
    Char,
    Line,
}

/// `anchor` is the source byte offset where selection began; the moving end is
/// the cursor's current source offset.
#[derive(Clone, Copy, Debug, PartialEq, Eq, Structural)]
pub struct Selection {
    pub anchor: usize,
    pub mode: SelectionMode,
}

/// An armed find (`f`/`F`/`t`/`T`) waiting for its target character.
#[derive(Clone, Copy, Debug, PartialEq, Eq, Structural)]
pub struct FindKind {
    pub forward: bool,
    pub till: bool,
}

/// The last completed find, replayed by `;` and `,`.
#[derive(Clone, Copy, Debug, PartialEq, Eq, Structural)]
pub struct FindMotion {
    pub target: char,
    pub kind: FindKind,
}

/// A pending vim operator awaiting a motion (or a doubled key for linewise).
#[derive(Clone, Copy, Debug, PartialEq, Eq, Structural)]
pub enum Operator {
    Delete,
    Change,
    Yank,
}

/// The unnamed register: text captured by `d`/`c`/`y`/`x`, pasted by `p`/`P`.
#[derive(Clone, Debug)]
pub struct Register {
    pub text: String,
    pub linewise: bool,
}

/// A full-content undo point.
#[derive(Clone, Debug)]
pub struct Snapshot {
    pub content: String,
    pub offset: usize,
}

/// The visible window over the laid-out document: rows `top..bottom` and
/// columns `left..right`.
#[derive(Clone, Copy, Debug, PartialEq, Eq, Structural)]
pub struct Viewport {
    pub top: usize,
    pub left: usize,
    pub width: usize,
    pub height: usize,
}

impl Viewport {
    pub fn top(&self) -> (r: usize)
        ensures
            r == self.top,
    {
        self.top
    }

    pub fn left(&self) -> (r: usize)
        ensures
            r == self.left,
    {
        self.left
    }

    /// One past the last visible row.
    pub fn bottom(&self) -> (r: usize)
        ensures
            r == if self.top + self.height <= usize::MAX {
                (self.top + self.height) as usize
            } else {
                usize::MAX
            },
    {
        self.top.saturating_add(self.height)
    }

    /// One past the last visible column.
    pub fn right(&self) -> (r: usize)
        ensures
            r == if self.left + self.width <= usize::MAX {
                (self.left + self.width) as usize
            } else {
                usize::MAX
            },
    {
        self.left.saturating_add(self.width)
    }
}

/// The block being edited in insert mode: its index, whether it has
/// uncommitted edits, and the document text with those edits applied.
#[derive(Clone, Debug)]
pub struct TextBuffer {
    pub block: usize,
    pub modified: bool,
    pub text: String,
}

// ---------------------------------------------------------------------------
// Blocks and rows of the document
// ---------------------------------------------------------------------------
/// Char `i` starts a block: a non-empty line whose previous line is empty or absent.
pub open spec fn starts_block(cs: Seq<char>, i: int) -> bool {
    &&& 0 <= i < cs.len()
    &&& cs[i] != '\n'
    &&& (i == 0 || (cs[i - 1] == '\n' && (i == 1 || cs[i - 2] == '\n')))
}

/// Number of block starts among chars `[0, j)`.
pub open spec fn block_starts_before(cs: Seq<char>, j: int) -> nat
    decreases j,
{
    if j <= 0 {
        0
    } else {
        block_starts_before(cs, j - 1) + if starts_block(cs, j - 1) {
            1nat
        } else {
            0nat
        }
    }
}

/// Number of blocks in the document.
pub open spec fn block_count(cs: Seq<char>) -> nat {
    block_starts_before(cs, cs.len() as int)
}

/// Index of the block holding char `k`; blank lines belong to the block above them.
pub open spec fn block_of(cs: Seq<char>, k: int) -> nat {
    let n = block_starts_before(cs, start_of_line(cs, k) + 1);
    if n > 0 {
        (n - 1) as nat
    } else {
        0
    }
}

/// The char index where block number `remaining` (counting from `i`) starts.
pub open spec fn find_block_start(cs: Seq<char>, i: int, remaining: nat) -> Option<int>
    decreases cs.len() - i,
{
    if i >= cs.len() || i < 0 {
        None
    } else if starts_block(cs, i) {
        if remaining == 0 {
            Some(i)
        } else {
            find_block_start(cs, i + 1, (remaining - 1) as nat)
        }
    } else {
        find_block_start(cs, i + 1, remaining)
    }
}

/// Number of newlines among chars `[0, k)`: the row of char `k`.
pub open spec fn row_of(cs: Seq<char>, k: int) -> nat
    decreases k,
{
    if k <= 0 {
        0
    } else {
        row_of(cs, k - 1) + if cs[k - 1] == '\n' {
            1nat
        } else {
            0nat
        }
    }
}

/// Display columns a char takes: a tab two, any other char one.
pub open spec fn cell_width(c: char) -> int {
    if c == '\t' {
        2
    } else {
        1
    }
}

/// Display columns taken by chars `[line, k)`, capped at `usize::MAX`.
pub open spec fn columns_between(cs: Seq<char>, line: int, k: int) -> int
    decreases k - line,
{
    if k <= line {
        0
    } else {
        sat_add(columns_between(cs, line, k - 1), cell_width(cs[k - 1]))
    }
}

/// Display column of char `k`: the columns its line takes before it.
pub open spec fn column_of(cs: Seq<char>, k: int) -> int {
    columns_between(cs, start_of_line(cs, k), k)
}

/// Among chars `[i, e)` of the line starting at `line`, the first one whose
/// cells reach past display column `col`, or `e` when none does.
pub open spec fn char_at_column(cs: Seq<char>, line: int, i: int, e: int, col: int) -> int
    decreases e - i,
{
    if i >= e {
        e
    } else if columns_between(cs, line, i + 1) > col {
        i
    } else {
        char_at_column(cs, line, i + 1, e, col)
    }
}

/// Where the text of a list item starts on the line at `line`: past its
/// indentation and its bullet (`-`, `*` or `+`) with the blank after it.
/// On any other line, `line` itself.
pub open spec fn item_text_start(cs: Seq<char>, line: int) -> int {
    let e = end_of_line(cs, line);
    let m = crate::motion::skip_blank(cs, line, e);
    if m < e && e - m > 1 && (cs[m] == '-' || cs[m] == '*' || cs[m] == '+') && (cs[m + 1] == ' '
        || cs[m + 1] == '\t') {
        m + 2
    } else {
        line
    }
}

/// The char index of the last boundary at or before byte offset `off`.
pub open spec fn floor_index(cs: Seq<char>, k: int, off: int) -> int
    decreases k,
{
    if k <= 0 || bpos(cs, k) <= off {
        if k <= 0 {
            0
        } else {
            k
        }
    } else {
        floor_index(cs, k - 1, off)
    }
}

/// The char boundary at or before `off` (the end when `off` is past it).
pub open spec fn snap(cs: Seq<char>, off: int) -> int {
    bpos(cs, floor_index(cs, cs.len() as int, off)) as int
}

proof fn lemma_row_of_mono(cs: Seq<char>, i: int, j: int)
    requires
        0 <= i <= j <= cs.len(),
    ensures
        row_of(cs, i) <= row_of(cs, j),
    decreases j - i,
{
    if i < j {
        lemma_row_of_mono(cs, i, j - 1);
    }
}

proof fn lemma_row_of_bound(cs: Seq<char>, k: int)
    requires
        0 <= k <= cs.len(),
    ensures
        row_of(cs, k) <= k,
    decreases k,
{
    if k > 0 {
        lemma_row_of_bound(cs, k - 1);
    }
}

proof fn lemma_block_starts_bound(cs: Seq<char>, j: int)
    requires
        0 <= j <= cs.len(),
    ensures
        block_starts_before(cs, j) <= j,
    decreases j,
{
    if j > 0 {
        lemma_block_starts_bound(cs, j - 1);
    }
}

proof fn lemma_floor_index(cs: Seq<char>, k: int, off: int)
    requires
        0 <= k <= cs.len(),
    ensures
        0 <= floor_index(cs, k, off) <= k,
        floor_index(cs, k, off) > 0 ==> bpos(cs, floor_index(cs, k, off)) <= off,
    decreases k,
{
    if !(k <= 0 || bpos(cs, k) <= off) {
        lemma_floor_index(cs, k - 1, off);
    }
}

/// A snapped offset is a boundary, and a boundary snaps to itself.
pub proof fn lemma_snap(cs: Seq<char>, off: int)
    ensures
        is_boundary(cs, snap(cs, off)),
        0 <= index_of(cs, snap(cs, off)) <= cs.len(),
        is_boundary(cs, off) ==> snap(cs, off) == off,
{
    lemma_floor_index(cs, cs.len() as int, off);
    let f = floor_index(cs, cs.len() as int, off);
    lemma_index_of(cs, f);
    if is_boundary(cs, off) {
        let k = index_of(cs, off);
        assert(0 <= k <= cs.len() && bpos(cs, k) == off);
        lemma_floor_exact(cs, cs.len() as int, k);
    }
}

proof fn lemma_floor_exact(cs: Seq<char>, j: int, k: int)
    requires
        0 <= k <= j <= cs.len(),
    ensures
        floor_index(cs, j, bpos(cs, k) as int) == k,
    decreases j,
{
    if j > k {
        lemma_bpos_strict(cs, k, j);
        lemma_floor_exact(cs, j - 1, k);
    } else if j > 0 {
    } else {
    }
}

fn row_idx(cs: &Vec<char>, k: usize) -> (r: usize)
    requires
        k <= cs@.len(),
    ensures
        r == row_of(cs@, k as int),
{
    let mut i: usize = 0;
    let mut row: usize = 0;
    while i < k
        invariant
            i <= k <= cs@.len(),
            row == row_of(cs@, i as int),
            row <= i,
        decreases k - i,
    {
        if cs[i] == '\n' {
            row = row + 1;
        }
        i = i + 1;
    }
    row
}

/// Display columns taken by chars `[line, k)`.
fn columns_idx(cs: &Vec<char>, line: usize, k: usize) -> (r: usize)
    requires
        line <= k <= cs@.len(),
    ensures
        r == columns_between(cs@, line as int, k as int),
{
    let mut i = line;
    let mut c: usize = 0;
    while i < k
        invariant
            line <= i <= k <= cs@.len(),
            c == columns_between(cs@, line as int, i as int),
        decreases k - i,
    {
        let w: usize = if cs[i] == '\t' {
            2
        } else {
            1
        };
        c = c.saturating_add(w);
        i = i + 1;
    }
    c
}

/// The char of the line `[line, e)` under display column `col`.
fn char_at_column_idx(cs: &Vec<char>, line: usize, e: usize, col: usize) -> (r: usize)
    requires
        line <= e <= cs@.len(),
    ensures
        r == char_at_column(cs@, line as int, line as int, e as int, col as int),
        line <= r <= e,
{
    let mut i = line;
    let mut c: usize = 0;
    while i < e
        invariant
            line <= i <= e <= cs@.len(),
            c == columns_between(cs@, line as int, i as int),
            char_at_column(cs@, line as int, i as int, e as int, col as int) == char_at_column(
                cs@,
                line as int,
                line as int,
                e as int,
                col as int,
            ),
        decreases e - i,
    {
        let w: usize = if cs[i] == '\t' {
            2
        } else {
            1
        };
        let next = c.saturating_add(w);
        if next > col {
            return i;
        }
        c = next;
        i = i + 1;
    }
    e
}

/// Where a list item's text starts on the line at `line`.
fn item_text_start_idx(cs: &Vec<char>, line: usize) -> (r: usize)
    requires
        line <= cs@.len(),
    ensures
        r == item_text_start(cs@, line as int),
        line <= r <= end_of_line(cs@, line as int),
{
    proof {
        lemma_end_of_line(cs@, line as int);
    }
    let e = line_end_idx(cs, line);
    let m = crate::motion::skip_blank_idx(cs, line, e);
    if m < e && e - m > 1 && (cs[m] == '-' || cs[m] == '*' || cs[m] == '+') && (cs[m + 1] == ' '
        || cs[m + 1] == '\t') {
        m + 2
    } else {
        line
    }
}

/// Char index a vertical move from char `k` lands on, on the line at `line`.
fn vertical_target_idx(cs: &Vec<char>, k: usize, line: usize) -> (r: usize)
    requires
        k <= cs@.len(),
        line <= cs@.len(),
    ensures
        r == vertical_target(cs@, k as int, line as int),
        line <= r <= end_of_line(cs@, line as int),
{
    proof {
        lemma_start_of_line(cs@, k as int);
        lemma_end_of_line(cs@, line as int);
    }
    let s = line_start_idx(cs, k);
    let col = columns_idx(cs, s, k);
    let e = line_end_idx(cs, line);
    let j = char_at_column_idx(cs, line, e, col);
    let t = item_text_start_idx(cs, line);
    if line != s && j < t {
        t
    } else {
        j
    }
}

fn block_starts_before_idx(cs: &Vec<char>, j: usize) -> (r: usize)
    requires
        j <= cs@.len(),
    ensures
        r == block_starts_before(cs@, j as int),
{
    let mut i: usize = 0;
    let mut count: usize = 0;
    while i < j
        invariant
            i <= j <= cs@.len(),
            count == block_starts_before(cs@, i as int),
            count <= i,
        decreases j - i,
    {
        let starts = cs[i] != '\n' && (i == 0 || (cs[i - 1] == '\n' && (i == 1 || cs[i - 2]
            == '\n')));
        if starts {
            count = count + 1;
        }
        i = i + 1;
    }
    count
}

fn block_of_idx(cs: &Vec<char>, k: usize) -> (r: usize)
    requires
        k <= cs@.len(),
    ensures
        r == block_of(cs@, k as int),
{
    proof {
        lemma_start_of_line(cs@, k as int);
    }
    let s = line_start_idx(cs, k);
    let upto = if s < cs.len() {
        s + 1
    } else {
        s
    };
    proof {
        if s >= cs@.len() {
            assert(s == k && k == cs@.len());
            assert(!starts_block(cs@, s as int));
        }
    }
    let n = block_starts_before_idx(cs, upto);
    if n > 0 {
        n - 1
    } else {
        0
    }
}


fn find_block_start_idx(cs: &Vec<char>, idx: usize) -> (r: Option<usize>)
    ensures
        r matches Some(j) ==> find_block_start(cs@, 0, idx as nat) == Some(j as int) && j
            < cs@.len(),
        r is None ==> find_block_start(cs@, 0, idx as nat) is None,
{
    let n = cs.len();
    let mut i: usize = 0;
    let mut remaining = idx;
    while i < n
        invariant
            i <= n,
            n == cs@.len(),
            find_block_start(cs@, i as int, remaining as nat) == find_block_start(
                cs@,
                0,
                idx as nat,
            ),
        decreases n - i,
    {
        let starts = cs[i] != '\n' && (i == 0 || (cs[i - 1] == '\n' && (i == 1 || cs[i - 2]
            == '\n')));
        if starts {
            if remaining == 0 {
                return Some(i);
            }
            remaining = remaining - 1;
        }
        i = i + 1;
    }
    None
}

/// The last char boundary of `t` at or before byte offset `off`.
fn snap_idx(t: &Text, off: usize) -> (k: usize)
    requires
        t.wf(),
    ensures
        k == floor_index(t.chars@, t.chars@.len() as int, off as int),
        k <= t.chars@.len(),
{
    proof {
        lemma_floor_index(t.chars@, t.chars@.len() as int, off as int);
    }
    let mut k = t.chars.len();
    while k > 0 && t.offs[k] > off
        invariant
            t.wf(),
            k <= t.chars@.len(),
            floor_index(t.chars@, k as int, off as int) == floor_index(
                t.chars@,
                t.chars@.len() as int,
                off as int,
            ),
        decreases k,
    {
        k = k - 1;
    }
    k
}

} // verus!

verus! {

/// The abstract state of a note editor, as its contracts speak of it.
pub struct EditorModel {
    pub view: EditorView,
    /// The committed content.
    pub content: Seq<char>,
    /// The cursor's byte offset into the live content.
    pub cursor: usize,
    pub filename: Seq<char>,
    pub filepath: Seq<char>,
    pub active: bool,
    pub insert_mode: bool,
    pub vim_mode: bool,
    pub editor_enabled: bool,
    pub modified: bool,
    pub viewport: Viewport,
    pub selection: Option<Selection>,
    /// The flashed byte range and the millisecond time the flash started.
    pub yank_flash: Option<(usize, usize, u64)>,
    pub pending_count: Option<usize>,
    pub pending_find: Option<FindKind>,
    pub last_find: Option<FindMotion>,
    pub pending_text_object: Option<bool>,
    pub pending_replace: bool,
    pub pending_operator: Option<Operator>,
    /// The register's text and whether it is linewise.
    pub register: (Seq<char>, bool),
    /// Undo points, oldest first: content and cursor offset.
    pub undo: Seq<(Seq<char>, usize)>,
    /// Redo points, oldest first.
    pub redo: Seq<(Seq<char>, usize)>,
    /// The text buffer: block index, uncommitted edits, and the live text.
    pub buffer: Option<(usize, bool, Seq<char>)>,
    pub editing_block: Option<usize>,
}

impl EditorModel {
    /// The content as displayed, with uncommitted edits.
    pub open spec fn live(self) -> Seq<char> {
        match self.buffer {
            Some(b) => b.2,
            None => self.content,
        }
    }

    /// The cursor sits on a char boundary of the live content, and an
    /// unmodified text buffer holds exactly the committed content.
    pub open spec fn wf(self) -> bool {
        &&& is_boundary(self.live(), self.cursor as int)
        &&& (self.buffer matches Some(b) ==> (!b.1 ==> b.2 == self.content))
    }

    /// Char index of the cursor in the live content.
    pub open spec fn cursor_index(self) -> int {
        index_of(self.live(), self.cursor as int)
    }

    /// Row of the cursor: its line number in the live content.
    pub open spec fn row(self) -> nat {
        row_of(self.live(), self.cursor_index())
    }

    /// Column of the cursor: the display columns before it on its line, a
    /// tab taking two.
    pub open spec fn column(self) -> int {
        column_of(self.live(), self.cursor_index())
    }

    /// The cursor's row and column lie inside the viewport (for each
    /// dimension the viewport has room in).
    pub open spec fn cursor_visible(self) -> bool {
        &&& (self.viewport.height > 0 ==> self.viewport.top <= self.row() < self.viewport.top
            + self.viewport.height)
        &&& (self.viewport.width > 0 ==> self.viewport.left <= self.column()
            < self.viewport.left + self.viewport.width)
    }

    /// `modified()`: unsaved changes, committed or still in the text buffer.
    pub open spec fn has_changes(self) -> bool {
        self.modified || (self.buffer matches Some(b) && b.1)
    }
}

/// The selection after toggling `mode` with the cursor at `cursor`: off if
/// that mode was on, else a new selection anchored at the cursor.
pub open spec fn toggled(sel: Option<Selection>, cursor: usize, mode: SelectionMode) -> Option<
    Selection,
> {
    match sel {
        Some(s) if s.mode == mode => None,
        _ => Some(Selection { anchor: cursor, mode }),
    }
}

/// Opening block `idx` for editing: pending edits committed, and a text
/// buffer over the live text when the block exists (or the note is empty).
pub open spec fn opened(a: EditorModel, idx: usize) -> EditorModel {
    EditorModel {
        content: a.live(),
        modified: a.modified || a.live() != a.content,
        editing_block: Some(idx),
        buffer: if idx < block_count(a.live()) || a.live().len() == 0 {
            Some((idx, false, a.live()))
        } else {
            a.buffer
        },
        ..a
    }
}

/// The undo point for content `c` and cursor offset `o`.
pub open spec fn snap_of(c: Seq<char>, o: usize) -> (Seq<char>, usize) {
    (c, o)
}

/// Decimal digits of `n`.
pub open spec fn decimal(n: nat) -> Seq<char>
    decreases n,
{
    if n < 10 {
        seq![digit_char(n)]
    } else {
        decimal(n / 10).push(digit_char(n % 10))
    }
}

pub open spec fn digit_char(d: nat) -> char {
    if d == 0 {
        '0'
    } else if d == 1 {
        '1'
    } else if d == 2 {
        '2'
    } else if d == 3 {
        '3'
    } else if d == 4 {
        '4'
    } else if d == 5 {
        '5'
    } else if d == 6 {
        '6'
    } else if d == 7 {
        '7'
    } else if d == 8 {
        '8'
    } else {
        '9'
    }
}

/// The hint of the in-flight command: the count in decimal, then the operator key.
pub open spec fn hint_of(count: Option<usize>, op: Option<Operator>) -> Seq<char> {
    (match count {
        Some(c) => decimal(c as nat),
        None => Seq::empty(),
    }) + (match op {
        Some(Operator::Delete) => seq!['d'],
        Some(Operator::Change) => seq!['c'],
        Some(Operator::Yank) => seq!['y'],
        None => Seq::empty(),
    })
}

/// The count after typing digit `d`: ten times the count so far plus `d`, saturating.
pub open spec fn count_after_digit(count: Option<usize>, d: u8) -> usize {
    let base = match count {
        Some(c) => c as int,
        None => 0,
    };
    let times_ten = if base * 10 <= usize::MAX {
        base * 10
    } else {
        usize::MAX as int
    };
    if times_ten + d <= usize::MAX {
        (times_ten + d) as usize
    } else {
        usize::MAX
    }
}

fn digit_of(d: usize) -> (c: char)
    requires
        d < 10,
    ensures
        c == digit_char(d as nat),
{
    if d == 0 {
        '0'
    } else if d == 1 {
        '1'
    } else if d == 2 {
        '2'
    } else if d == 3 {
        '3'
    } else if d == 4 {
        '4'
    } else if d == 5 {
        '5'
    } else if d == 6 {
        '6'
    } else if d == 7 {
        '7'
    } else if d == 8 {
        '8'
    } else {
        '9'
    }
}

/// Appends the decimal digits of `n`.
fn push_decimal(s: &mut String, n: usize)
    ensures
        final(s)@ == old(s)@ + decimal(n as nat),
    decreases n,
{
    if n >= 10 {
        push_decimal(s, n / 10);
        push_char(s, digit_of(n % 10));
        assert(decimal(n as nat) == decimal((n / 10) as nat).push(digit_char((n % 10) as nat)));
        assert(old(s)@ + decimal(n as nat) =~= old(s)@ + decimal((n / 10) as nat) + seq![
            digit_char((n % 10) as nat),
        ]);
    } else {
        push_char(s, digit_of(n));
        assert(old(s)@ + decimal(n as nat) =~= old(s)@.push(digit_char(n as nat)));
    }
}

/// Appends chars `[a, b)` of `t`.
fn push_range(s: &mut String, t: &Text, a: usize, b: usize)
    requires
        a <= b <= t.chars@.len(),
    ensures
        final(s)@ == old(s)@ + t.chars@.subrange(a as int, b as int),
{
    let mut i = a;
    while i < b
        invariant
            a <= i <= b <= t.chars@.len(),
            s@ == old(s)@ + t.chars@.subrange(a as int, i as int),
        decreases b - i,
    {
        push_char(s, t.chars[i]);
        i = i + 1;
        assert(s@ =~= old(s)@ + t.chars@.subrange(a as int, i as int));
    }
}

/// A copy of `s` as a `String`.
pub(crate) fn to_string(s: &str) -> (r: String)
    ensures
        r@ == s@,
{
    let t = Text::new(s);
    let mut r = String::new();
    push_range(&mut r, &t, 0, t.chars.len());
    assert(t.chars@.subrange(0, t.chars@.len() as int) =~= t.chars@);
    r
}

#[derive(Clone, Debug)]
pub struct NoteEditorState {
    pub view: EditorView,
    content: String,
    cursor: usize,
    filepath: String,
    filename: String,
    active: bool,
    insert_mode: bool,
    vim_mode: bool,
    editor_enabled: bool,
    modified: bool,
    viewport: Viewport,
    selection: Option<Selection>,
    yank_flash: Option<(usize, usize, u64)>,
    pending_count: Option<usize>,
    pending_find: Option<FindKind>,
    last_find: Option<FindMotion>,
    /// An armed text object waiting for its object char; `true` = around (`a`).
    pending_text_object: Option<bool>,
    /// `r` is armed and waiting for its replacement character.
    pending_replace: bool,
    pending_operator: Option<Operator>,
    register: Register,
    undo_stack: Vec<Snapshot>,
    redo_stack: Vec<Snapshot>,
    text_buffer: Option<TextBuffer>,
    /// Which block is currently in raw/edit mode.
    editing_block: Option<usize>,
}

pub open spec fn snapshot_view(s: Snapshot) -> (Seq<char>, usize) {
    (s.content@, s.offset)
}

impl View for NoteEditorState {
    type V = EditorModel;

    closed spec fn view(&self) -> EditorModel {
        EditorModel {
            view: self.view,
            content: self.content@,
            cursor: self.cursor,
            filename: self.filename@,
            filepath: self.filepath@,
            active: self.active,
            insert_mode: self.insert_mode,
            vim_mode: self.vim_mode,
            editor_enabled: self.editor_enabled,
            modified: self.modified,
            viewport: self.viewport,
            selection: self.selection,
            yank_flash: self.yank_flash,
            pending_count: self.pending_count,
            pending_find: self.pending_find,
            last_find: self.last_find,
            pending_text_object: self.pending_text_object,
            pending_replace: self.pending_replace,
            pending_operator: self.pending_operator,
            register: (self.register.text@, self.register.linewise),
            undo: self.undo_stack@.map_values(|s: Snapshot| snapshot_view(s)),
            redo: self.redo_stack@.map_values(|s: Snapshot| snapshot_view(s)),
            buffer: match self.text_buffer {
                Some(b) => Some((b.block, b.modified, b.text@)),
                None => None,
            },
            editing_block: self.editing_block,
        }
    }
}

impl NoteEditorState {
    pub open spec fn wf(&self) -> bool {
        self@.wf()
    }

    pub fn new(content: &str, filename: &str, filepath: &str) -> (s: Self)
        ensures
            s.wf(),
            s@ == (EditorModel {
                view: EditorView::Read,
                content: content@,
                cursor: 0,
                filename: filename@,
                filepath: filepath@,
                active: false,
                insert_mode: false,
                vim_mode: false,
                editor_enabled: false,
                modified: false,
                viewport: Viewport { top: 0, left: 0, width: 0, height: 0 },
                selection: None,
                yank_flash: None,
                pending_count: None,
                pending_find: None,
                last_find: None,
                pending_text_object: None,
                pending_replace: false,
                pending_operator: None,
                register: (Seq::empty(), false),
                undo: Seq::empty(),
                redo: Seq::empty(),
                buffer: None,
                editing_block: None,
            }),
    {
        proof {
            crate::text::lemma_bpos_zero(content@);
            lemma_index_of(content@, 0);
        }
        let s = NoteEditorState {
            view: EditorView::Read,
            content: to_string(content),
            cursor: 0,
            filepath: to_string(filepath),
            filename: to_string(filename),
            active: false,
            insert_mode: false,
            vim_mode: false,
            editor_enabled: false,
            modified: false,
            viewport: Viewport { top: 0, left: 0, width: 0, height: 0 },
            selection: None,
            yank_flash: None,
            pending_count: None,
            pending_find: None,
            last_find: None,
            pending_text_object: None,
            pending_replace: false,
            pending_operator: None,
            register: Register { text: String::new(), linewise: false },
            undo_stack: Vec::new(),
            redo_stack: Vec::new(),
            text_buffer: None,
            editing_block: None,
        };
        assert(s@.undo =~= Seq::<(Seq<char>, usize)>::empty());
        assert(s@.redo =~= Seq::<(Seq<char>, usize)>::empty());
        s
    }

    /// The committed content.
    pub fn content(&self) -> (r: &String)
        ensures
            r@ == self@.content,
    {
        &self.content
    }

    /// The cursor's byte offset into the live content.
    pub fn cursor_offset(&self) -> (r: usize)
        ensures
            r == self@.cursor,
    {
        self.cursor
    }

    /// The cursor's display column: the columns before it on its line, a
    /// tab taking two.
    pub fn cursor_column(&self) -> (r: usize)
        requires
            self.wf(),
        ensures
            r == self@.column(),
    {
        let t = Text::new(self.live_str());
        let k = t.index_at(self.cursor);
        proof {
            lemma_start_of_line(t.chars@, k as int);
        }
        columns_idx(&t.chars, line_start_idx(&t.chars, k), k)
    }

    pub fn viewport(&self) -> (r: &Viewport)
        ensures
            *r == self@.viewport,
    {
        &self.viewport
    }

    pub fn is_editing(&self) -> (r: bool)
        ensures
            r == (self@.view is Edit),
    {
        match self.view {
            EditorView::Edit(..) => true,
            EditorView::Read => false,
        }
    }

    pub fn insert_mode(&self) -> (r: bool)
        ensures
            r == self@.insert_mode,
    {
        self.insert_mode
    }

    pub fn set_insert_mode(&mut self, mode: bool)
        ensures
            final(self)@ == (EditorModel { insert_mode: mode, ..old(self)@ }),
    {
        self.insert_mode = mode;
    }

    pub fn vim_mode(&self) -> (r: bool)
        ensures
            r == self@.vim_mode,
    {
        self.vim_mode
    }

    pub fn set_vim_mode(&mut self, mode: bool)
        ensures
            final(self)@ == (EditorModel { vim_mode: mode, ..old(self)@ }),
    {
        self.vim_mode = mode;
    }

    pub fn editor_enabled(&self) -> (r: bool)
        ensures
            r == self@.editor_enabled,
    {
        self.editor_enabled
    }

    pub fn set_editor_enabled(&mut self, enabled: bool)
        ensures
            final(self)@ == (EditorModel { editor_enabled: enabled, ..old(self)@ }),
    {
        self.editor_enabled = enabled;
    }

    pub fn text_buffer(&self) -> (r: Option<&TextBuffer>)
        ensures
            match r {
                Some(b) => self@.buffer == Some((b.block, b.modified, b.text@)),
                None => self@.buffer is None,
            },
    {
        match &self.text_buffer {
            Some(b) => Some(b),
            None => None,
        }
    }

    pub fn set_filename(&mut self, name: &str)
        ensures
            final(self)@ == (EditorModel { filename: name@, ..old(self)@ }),
    {
        self.filename = to_string(name);
    }

    pub fn set_filepath(&mut self, path: &str)
        ensures
            final(self)@ == (EditorModel { filepath: path@, ..old(self)@ }),
    {
        self.filepath = to_string(path);
    }

    pub fn filename(&self) -> (r: &String)
        ensures
            r@ == self@.filename,
    {
        &self.filename
    }

    pub fn filepath(&self) -> (r: &String)
        ensures
            r@ == self@.filepath,
    {
        &self.filepath
    }

    pub fn active(&self) -> (r: bool)
        ensures
            r == self@.active,
    {
        self.active
    }

    pub fn set_active(&mut self, active: bool)
        ensures
            final(self)@ == (EditorModel { active: active, ..old(self)@ }),
    {
        self.active = active;
    }

    pub fn modified(&self) -> (r: bool)
        ensures
            r == self@.has_changes(),
    {
        self.modified || match &self.text_buffer {
            Some(b) => b.modified,
            None => false,
        }
    }

    /// Records that the content was written out: nothing committed is unsaved.
    pub fn mark_saved(&mut self)
        ensures
            final(self)@ == (EditorModel { modified: false, ..old(self)@ }),
    {
        self.modified = false;
    }

    pub fn selection(&self) -> (r: Option<Selection>)
        ensures
            r == self@.selection,
    {
        self.selection
    }

    pub fn is_selecting(&self) -> (r: bool)
        ensures
            r == (self@.selection is Some),
    {
        self.selection.is_some()
    }

    /// Enters visual selection in `mode`, or exits if that mode is already active.
    pub fn toggle_selection(&mut self, mode: SelectionMode)
        ensures
            final(self)@ == (EditorModel {
                selection: toggled(old(self)@.selection, old(self)@.cursor, mode),
                ..old(self)@
            }),
    {
        self.selection = match self.selection {
            Some(selection) if selection.mode == mode => None,
            _ => Some(Selection { anchor: self.cursor, mode }),
        };
    }

    pub fn clear_selection(&mut self)
        ensures
            final(self)@ == (EditorModel { selection: None, ..old(self)@ }),
    {
        self.selection = None;
    }

    pub fn has_pending_count(&self) -> (r: bool)
        ensures
            r == (self@.pending_count is Some),
    {
        self.pending_count.is_some()
    }

    pub fn push_count_digit(&mut self, digit: u8)
        ensures
            final(self)@ == (EditorModel {
                pending_count: Some(count_after_digit(old(self)@.pending_count, digit)),
                ..old(self)@
            }),
    {
        let base = match self.pending_count {
            Some(c) => c,
            None => 0,
        };
        let times_ten = if base > usize::MAX / 10 {
            usize::MAX
        } else {
            base * 10
        };
        self.pending_count = Some(times_ten.saturating_add(digit as usize));
    }

    /// Consumes the pending count. `None` means no explicit count was given.
    pub fn take_count(&mut self) -> (r: Option<usize>)
        ensures
            r == old(self)@.pending_count,
            final(self)@ == (EditorModel { pending_count: None, ..old(self)@ }),
    {
        let r = self.pending_count;
        self.pending_count = None;
        r
    }

    pub fn reset_count(&mut self)
        ensures
            final(self)@ == (EditorModel { pending_count: None, ..old(self)@ }),
    {
        self.pending_count = None;
    }

    pub fn awaiting_find_target(&self) -> (r: bool)
        ensures
            r == (self@.pending_find is Some),
    {
        self.pending_find.is_some()
    }

    pub fn arm_find(&mut self, forward: bool, till: bool)
        ensures
            final(self)@ == (EditorModel {
                pending_find: Some(FindKind { forward, till }),
                ..old(self)@
            }),
    {
        self.pending_find = Some(FindKind { forward, till });
    }

    pub fn clear_pending_find(&mut self)
        ensures
            final(self)@ == (EditorModel { pending_find: None, ..old(self)@ }),
    {
        self.pending_find = None;
    }

    pub fn take_pending_find(&mut self) -> (r: Option<FindKind>)
        ensures
            r == old(self)@.pending_find,
            final(self)@ == (EditorModel { pending_find: None, ..old(self)@ }),
    {
        let r = self.pending_find;
        self.pending_find = None;
        r
    }

    /// Records a completed find so `;` and `,` can replay it.
    pub fn remember_find(&mut self, target: char, kind: FindKind)
        ensures
            final(self)@ == (EditorModel {
                last_find: Some(FindMotion { target, kind }),
                ..old(self)@
            }),
    {
        self.last_find = Some(FindMotion { target, kind });
    }

    pub fn last_find(&self) -> (r: Option<(char, FindKind)>)
        ensures
            r == (match self@.last_find {
                Some(f) => Some((f.target, f.kind)),
                None => None,
            }),
    {
        match self.last_find {
            Some(find) => Some((find.target, find.kind)),
            None => None,
        }
    }

    pub fn awaiting_text_object(&self) -> (r: bool)
        ensures
            r == (self@.pending_text_object is Some),
    {
        self.pending_text_object.is_some()
    }

    pub fn arm_text_object(&mut self, around: bool)
        ensures
            final(self)@ == (EditorModel { pending_text_object: Some(around), ..old(self)@ }),
    {
        self.pending_text_object = Some(around);
    }

    pub fn take_text_object(&mut self) -> (r: Option<bool>)
        ensures
            r == old(self)@.pending_text_object,
            final(self)@ == (EditorModel { pending_text_object: None, ..old(self)@ }),
    {
        let r = self.pending_text_object;
        self.pending_text_object = None;
        r
    }

    pub fn clear_pending_text_object(&mut self)
        ensures
            final(self)@ == (EditorModel { pending_text_object: None, ..old(self)@ }),
    {
        self.pending_text_object = None;
    }

    pub fn awaiting_replace(&self) -> (r: bool)
        ensures
            r == self@.pending_replace,
    {
        self.pending_replace
    }

    pub fn arm_replace(&mut self)
        ensures
            final(self)@ == (EditorModel { pending_replace: true, ..old(self)@ }),
    {
        self.pending_replace = true;
    }

    pub fn clear_pending_replace(&mut self)
        ensures
            final(self)@ == (EditorModel { pending_replace: false, ..old(self)@ }),
    {
        self.pending_replace = false;
    }

    pub fn pending_operator(&self) -> (r: Option<Operator>)
        ensures
            r == self@.pending_operator,
    {
        self.pending_operator
    }

    /// A short hint of the in-flight command (e.g. `3d`) for the mode indicator.
    pub fn pending_hint(&self) -> (r: String)
        ensures
            r@ == hint_of(self@.pending_count, self@.pending_operator),
    {
        let mut s = String::new();
        match self.pending_count {
            Some(c) => push_decimal(&mut s, c),
            None => {},
        }
        match self.pending_operator {
            Some(Operator::Delete) => push_char(&mut s, 'd'),
            Some(Operator::Change) => push_char(&mut s, 'c'),
            Some(Operator::Yank) => push_char(&mut s, 'y'),
            None => {},
        }
        assert(s@ =~= hint_of(self@.pending_count, self@.pending_operator));
        s
    }

    pub fn set_operator(&mut self, operator: Operator)
        ensures
            final(self)@ == (EditorModel { pending_operator: Some(operator), ..old(self)@ }),
    {
        self.pending_operator = Some(operator);
    }

    pub fn take_operator(&mut self) -> (r: Option<Operator>)
        ensures
            r == old(self)@.pending_operator,
            final(self)@ == (EditorModel { pending_operator: None, ..old(self)@ }),
    {
        let r = self.pending_operator;
        self.pending_operator = None;
        r
    }

    pub fn clear_operator(&mut self)
        ensures
            final(self)@ == (EditorModel { pending_operator: None, ..old(self)@ }),
    {
        self.pending_operator = None;
    }

    pub fn register(&self) -> (r: &Register)
        ensures
            (r.text@, r.linewise) == self@.register,
    {
        &self.register
    }

    pub fn set_register(&mut self, text: String, linewise: bool)
        ensures
            final(self)@ == (EditorModel { register: (text@, linewise), ..old(self)@ }),
    {
        self.register = Register { text, linewise };
    }

    /// Flashes `range` to acknowledge a yank, from time `now_ms` (milliseconds).
    pub fn flash_yank(&mut self, range: Range<usize>, now_ms: u64)
        ensures
            final(self)@ == (EditorModel {
                yank_flash: Some((range.start, range.end, now_ms)),
                ..old(self)@
            }),
    {
        self.yank_flash = Some((range.start, range.end, now_ms));
    }

    /// The range to flash at time `now_ms`, or `None` once the flash has
    /// lasted its 150 milliseconds.
    pub fn yank_flash_range(&self, now_ms: u64) -> (r: Option<Range<usize>>)
        ensures
            r == (match self@.yank_flash {
                Some((a, b, started)) => if now_ms < started + YANK_FLASH_MS {
                    Some(Range { start: a, end: b })
                } else {
                    None
                },
                None => None,
            }),
    {
        match self.yank_flash {
            Some((a, b, started)) => {
                if now_ms < started || now_ms - started < YANK_FLASH_MS {
                    Some(Range { start: a, end: b })
                } else {
                    None
                }
            },
            None => None,
        }
    }
}

/// `a + b`, capped at `usize::MAX`.
pub open spec fn sat_add(a: int, b: int) -> int {
    if a + b <= usize::MAX {
        a + b
    } else {
        usize::MAX as int
    }
}

/// The start of a window `size` wide at `start` moved the least so that it
/// covers `pos` (a window of no size is moved just past `pos`).
pub open spec fn follow_axis(start: int, size: int, pos: int) -> int {
    if pos < start {
        pos
    } else if pos >= start + size {
        sat_add(pos - size, 1)
    } else {
        start
    }
}

/// The viewport scrolled the least so that it shows `row` and `col`.
pub open spec fn follow(vp: Viewport, row: int, col: int) -> Viewport {
    Viewport {
        top: follow_axis(vp.top as int, vp.height as int, row) as usize,
        left: follow_axis(vp.left as int, vp.width as int, col) as usize,
        ..vp
    }
}

/// The vim command state, register, history, view and flags agree.
pub open spec fn keeps_commands(a: EditorModel, b: EditorModel) -> bool {
    &&& keeps_session(a, b)
    &&& a.undo == b.undo
    &&& a.redo == b.redo
}

/// The vim command state, register, view and flags agree (history aside).
pub open spec fn keeps_session(a: EditorModel, b: EditorModel) -> bool {
    &&& a.view == b.view
    &&& a.filename == b.filename
    &&& a.filepath == b.filepath
    &&& a.active == b.active
    &&& a.insert_mode == b.insert_mode
    &&& a.vim_mode == b.vim_mode
    &&& a.editor_enabled == b.editor_enabled
    &&& a.selection == b.selection
    &&& a.yank_flash == b.yank_flash
    &&& a.pending_count == b.pending_count
    &&& a.pending_find == b.pending_find
    &&& a.last_find == b.last_find
    &&& a.pending_text_object == b.pending_text_object
    &&& a.pending_replace == b.pending_replace
    &&& a.pending_operator == b.pending_operator
    &&& a.register == b.register
}

/// After an editing step the committed content is the old committed or the
/// old live content, and `modified` records whether a commit changed it.
pub open spec fn commits_at_most(a: EditorModel, b: EditorModel) -> bool {
    &&& (b.content == a.content || b.content == a.live())
    &&& b.modified == (a.modified || b.content != a.content)
}

fn follow_axis_exec(start: usize, size: usize, pos: usize) -> (r: usize)
    ensures
        r == follow_axis(start as int, size as int, pos as int),
{
    if pos < start {
        pos
    } else if pos - start >= size {
        (pos - size).saturating_add(1)
    } else {
        start
    }
}

impl NoteEditorState {
    /// The live content as a `&str`.
    fn live_str(&self) -> (r: &str)
        ensures
            r@ == self@.live(),
    {
        match &self.text_buffer {
            Some(b) => b.text.as_str(),
            None => self.content.as_str(),
        }
    }

    /// Write the text buffer back to the content if it was modified. Returns
    /// `Some` if there were edits to commit.
    pub fn commit_text_buffer(&mut self) -> (r: Option<()>)
        requires
            old(self).wf(),
        ensures
            final(self).wf(),
            r is Some <==> (old(self)@.buffer matches Some(b) && b.1),
            final(self)@ == (EditorModel {
                content: old(self)@.live(),
                modified: old(self)@.modified || old(self)@.live() != old(self)@.content,
                ..old(self)@
            }),
    {
        let (text, modified) = match &self.text_buffer {
            Some(b) => (b.text.clone(), b.modified),
            None => {
                return None;
            },
        };
        if modified {
            let changed = self.content != text;
            self.content = text;
            self.modified = self.modified || changed;
            Some(())
        } else {
            None
        }
    }

    /// Opens block `block_idx` for editing, first committing pending edits.
    pub fn enter_insert(&mut self, block_idx: usize)
        requires
            old(self).wf(),
        ensures
            final(self).wf(),
            final(self)@ == opened(old(self)@, block_idx),
    {
        self.commit_text_buffer();
        self.editing_block = Some(block_idx);
        let t = Text::new(self.content.as_str());
        let count = block_starts_before_idx(&t.chars, t.chars.len());
        if block_idx < count || t.chars.len() == 0 {
            self.text_buffer = Some(
                TextBuffer { block: block_idx, modified: false, text: self.content.clone() },
            );
        }
    }

    /// Leaves insert editing: commits and closes the text buffer (not in read view).
    pub fn exit_insert(&mut self)
        requires
            old(self).wf(),
        ensures
            final(self).wf(),
            old(self)@.view is Read ==> final(self)@ == old(self)@,
            old(self)@.view is Edit ==> final(self)@ == (EditorModel {
                content: old(self)@.live(),
                modified: old(self)@.modified || old(self)@.live() != old(self)@.content,
                buffer: None,
                editing_block: None,
                ..old(self)@
            }),
    {
        if let EditorView::Read = self.view {
            return ;
        }
        self.commit_text_buffer();
        self.text_buffer = None;
        self.editing_block = None;
    }

    /// Scrolls the viewport the least so that the cursor is visible.
    fn ensure_cursor_visible(&mut self)
        requires
            old(self).wf(),
        ensures
            final(self).wf(),
            final(self)@ == (EditorModel {
                viewport: follow(old(self)@.viewport, old(self)@.row() as int, old(self)@.column()),
                ..old(self)@
            }),
            final(self)@.cursor_visible(),
    {
        let t = Text::new(self.live_str());
        let k = t.index_at(self.cursor);
        proof {
            lemma_start_of_line(t.chars@, k as int);
            lemma_row_of_bound(t.chars@, k as int);
        }
        let row = row_idx(&t.chars, k);
        let col = columns_idx(&t.chars, line_start_idx(&t.chars, k), k);
        let top = follow_axis_exec(self.viewport.top, self.viewport.height, row);
        let left = follow_axis_exec(self.viewport.left, self.viewport.width, col);
        self.viewport = Viewport { top, left, ..self.viewport };
    }

    /// Opens the block under the cursor when in edit view without a text buffer.
    pub fn update_layout(&mut self)
        requires
            old(self).wf(),
        ensures
            final(self).wf(),
            keeps_commands(old(self)@, final(self)@),
            commits_at_most(old(self)@, final(self)@),
            final(self)@.live() == old(self)@.live(),
            final(self)@.cursor == old(self)@.cursor,
            final(self)@.viewport == old(self)@.viewport,
            (old(self)@.view is Read || old(self)@.buffer is Some) ==> final(self)@ == old(self)@,
            (old(self)@.view is Edit && old(self)@.buffer is None) ==> final(self)@ == opened(
                old(self)@,
                block_of(old(self)@.live(), old(self)@.cursor_index()) as usize,
            ),
    {
        if let EditorView::Edit(..) = self.view {
            if self.text_buffer.is_none() {
                let t = Text::new(self.content.as_str());
                let k = t.index_at(self.cursor);
                let block = block_of_idx(&t.chars, k);
                self.enter_insert(block);
            }
        }
    }

    pub fn current_block_idx(&self) -> (r: usize)
        requires
            self.wf(),
        ensures
            r == block_of(self@.live(), self@.cursor_index()),
    {
        let t = Text::new(self.live_str());
        let k = t.index_at(self.cursor);
        block_of_idx(&t.chars, k)
    }

    /// The block of the line above the cursor (the cursor's own on the first line).
    pub fn previous_block_idx(&self) -> (r: usize)
        requires
            self.wf(),
        ensures
            r == (if start_of_line(self@.live(), self@.cursor_index()) > 0 {
                block_of(self@.live(), start_of_line(self@.live(), self@.cursor_index()) - 1)
            } else {
                block_of(self@.live(), self@.cursor_index())
            }),
    {
        let t = Text::new(self.live_str());
        let k = t.index_at(self.cursor);
        proof {
            lemma_start_of_line(t.chars@, k as int);
        }
        let s = line_start_idx(&t.chars, k);
        if s > 0 {
            block_of_idx(&t.chars, s - 1)
        } else {
            block_of_idx(&t.chars, k)
        }
    }

    pub fn set_view(&mut self, view: EditorView)
        requires
            old(self).wf(),
        ensures
            final(self).wf(),
            final(self)@.view == view,
            final(self)@.live() == old(self)@.live(),
            final(self)@.cursor == old(self)@.cursor,
            commits_at_most(old(self)@, final(self)@),
            keeps_commands(EditorModel { view, ..old(self)@ }, final(self)@),
            view is Edit ==> final(self)@ == opened(
                EditorModel { view, ..old(self)@ },
                block_of(old(self)@.live(), old(self)@.cursor_index()) as usize,
            ),
            view is Read ==> final(self)@ == (EditorModel {
                view: EditorView::Read,
                viewport: follow(old(self)@.viewport, old(self)@.row() as int, old(self)@.column()),
                ..old(self)@
            }),
            view is Read ==> final(self)@.cursor_visible(),
    {
        let block_idx = self.current_block_idx();
        self.view = view;
        match view {
            EditorView::Read => {
                self.exit_insert();
                self.update_layout();
                self.ensure_cursor_visible();
            },
            EditorView::Edit(..) => {
                self.enter_insert(block_idx);
                self.update_layout();
            },
        }
    }

    /// Move the cursor to source byte offset `offset` (snapped to the char
    /// boundary at or before it), switching the edited block when the target
    /// lies in another one. Every vim motion moves through here.
    pub fn jump_to_offset(&mut self, offset: usize)
        requires
            old(self).wf(),
        ensures
            final(self).wf(),
            jumped_to(old(self)@, final(self)@, offset as int),
            final(self)@.cursor_visible(),
    {
        let t = Text::new(self.live_str());
        let k = snap_idx(&t, offset);
        let target = t.offset(k);
        proof {
            lemma_index_of(t.chars@, k as int);
        }
        if let EditorView::Edit(..) = self.view {
            let block = block_of_idx(&t.chars, k);
            let same = match self.editing_block {
                Some(b) => b == block,
                None => false,
            };
            if !same {
                self.enter_insert(block);
            }
        }
        self.cursor = target;
        self.update_layout();
        self.ensure_cursor_visible();
        proof {
            reveal(jump_target);
        }
    }
}

/// `b` is `a` after the cursor jumped to byte offset `offset`: the cursor on
/// the char boundary at or before it, the viewport scrolled the least to
/// show it, the rest as before but for a commit of pending edits.
pub open spec fn jumped_to(a: EditorModel, b: EditorModel, offset: int) -> bool {
    &&& keeps_commands(a, b)
    &&& commits_at_most(a, b)
    &&& b.live() == a.live()
    &&& b.cursor == snap(a.live(), offset)
    &&& b.viewport == follow(a.viewport, b.row() as int, b.column())
    &&& b == jump_target(a, offset)
}

/// The state after a jump to byte offset `offset`, field by field: while
/// editing, the target's block is opened unless it already is, then the
/// cursor moves and the viewport follows it.
#[verifier::opaque]
pub open spec fn jump_target(a: EditorModel, offset: int) -> EditorModel {
    let cs = a.live();
    let cursor = snap(cs, offset) as usize;
    let k = index_of(cs, cursor as int);
    let idx = block_of(cs, k) as usize;
    let a1 = if a.view is Edit && a.editing_block != Some(idx) {
        opened(a, idx)
    } else {
        a
    };
    let a2 = EditorModel { cursor, ..a1 };
    let a3 = if a2.view is Edit && a2.buffer is None {
        opened(a2, idx)
    } else {
        a2
    };
    EditorModel { viewport: follow(a3.viewport, row_of(cs, k) as int, column_of(cs, k)), ..a3 }
}

/// `b` is `a` after the live bytes `[start, end)` were replaced by `rep`:
/// the result committed, an undo point for the old text pushed, the redo
/// history dropped, and the cursor at the end of the inserted text.
pub open spec fn spliced_into(
    a: EditorModel,
    b: EditorModel,
    start: int,
    end: int,
    rep: Seq<char>,
) -> bool {
    let cs = a.live();
    let new = spliced(cs, index_of(cs, start), index_of(cs, end), rep);
    &&& b.content == new
    &&& b.live() == new
    &&& b.undo == a.undo.push(snap_of(cs, a.cursor))
    &&& b.redo == Seq::<(Seq<char>, usize)>::empty()
    &&& b.modified
    &&& b.cursor == snap(
        new,
        if start + byte_size(rep) <= byte_size(new) {
            start + byte_size(rep)
        } else {
            byte_size(new)
        },
    )
    &&& keeps_session(a, b)
    &&& b.cursor_visible()
    &&& b == jump_target(
        reset_to(
            EditorModel {
                undo: a.undo.push(snap_of(cs, a.cursor)),
                redo: Seq::<(Seq<char>, usize)>::empty(),
                ..a
            },
            new,
        ),
        if start + byte_size(rep) <= byte_size(new) {
            start + byte_size(rep)
        } else {
            byte_size(new)
        },
    )
}

/// Where block `idx` starts and ends (the next block's start, or the end).
pub open spec fn block_range(cs: Seq<char>, idx: nat) -> Option<(int, int)> {
    match find_block_start(cs, 0, idx) {
        Some(start) => Some(
            (
                start,
                match find_block_start(cs, 0, idx + 1) {
                    Some(end) => end,
                    None => cs.len() as int,
                },
            ),
        ),
        None => None,
    }
}

/// Where the cursor settles at char `k` after a move that began in block
/// `prev`: crossing into another block lands on its entry edge — the end of
/// an adjacent block above, else its start.
pub open spec fn settle(cs: Seq<char>, prev: nat, k: int, editing: bool) -> int {
    let target = block_of(cs, k);
    if !editing || target == prev {
        k
    } else {
        match block_range(cs, target) {
            Some((start, end)) => {
                let adjacent = target + 1 == prev || prev + 1 == target;
                if adjacent && target < prev && end - 1 > start {
                    end - 1
                } else {
                    start
                }
            },
            None => k,
        }
    }
}

/// Replaces chars `[a, b)` of `cs` with `rep`.
pub open spec fn spliced(cs: Seq<char>, a: int, b: int, rep: Seq<char>) -> Seq<char> {
    cs.subrange(0, a) + rep + cs.subrange(b, cs.len() as int)
}

/// The text a paste inserts: the register, ending in a newline when linewise.
pub open spec fn paste_text(reg: (Seq<char>, bool)) -> Seq<char> {
    if reg.1 && !(reg.0.len() > 0 && reg.0.last() == '\n') {
        reg.0.push('\n')
    } else {
        reg.0
    }
}

/// Char index where a paste inserts, from cursor char `k`.
pub open spec fn paste_at(cs: Seq<char>, k: int, linewise: bool, after: bool) -> int {
    if linewise {
        if after {
            crate::motion::next_line_start_of(cs, k)
        } else {
            start_of_line(cs, k)
        }
    } else if after && k < cs.len() {
        k + 1
    } else {
        k
    }
}

/// The first non-whitespace char at or after `p`, or `p` itself when none follows.
pub open spec fn landing_of(cs: Seq<char>, p: int) -> int {
    let j = crate::motion::skip_white(cs, p);
    if j < cs.len() {
        j
    } else {
        p
    }
}

/// Byte length of `cs`.
pub open spec fn byte_size(cs: Seq<char>) -> int {
    bpos(cs, cs.len() as int) as int
}

/// The byte range a selection covers: charwise from the lower end through the
/// char at the upper end, linewise whole lines.
pub open spec fn selection_span(cs: Seq<char>, cursor: int, sel: Selection) -> (int, int) {
    let a = floor_index(cs, cs.len() as int, sel.anchor as int);
    let lo = if a <= cursor {
        a
    } else {
        cursor
    };
    let hi = if a <= cursor {
        cursor
    } else {
        a
    };
    match sel.mode {
        SelectionMode::Char => (lo, if hi < cs.len() {
            hi + 1
        } else {
            hi
        }),
        SelectionMode::Line => (start_of_line(cs, lo), crate::motion::next_line_start_of(cs, hi)),
    }
}

proof fn lemma_find_block_start(cs: Seq<char>, i: int, remaining: nat)
    requires
        0 <= i,
    ensures
        find_block_start(cs, i, remaining) matches Some(j) ==> i <= j < cs.len() && starts_block(
            cs,
            j,
        ),
    decreases cs.len() - i,
{
    if !(i >= cs.len() || i < 0) {
        if starts_block(cs, i) {
            if remaining != 0 {
                lemma_find_block_start(cs, i + 1, (remaining - 1) as nat);
            }
        } else {
            lemma_find_block_start(cs, i + 1, remaining);
        }
    }
}

proof fn lemma_bpos_prefix(a: Seq<char>, b: Seq<char>, p: int)
    requires
        0 <= p <= a.len(),
        p <= b.len(),
        a.subrange(0, p) == b.subrange(0, p),
    ensures
        bpos(a, p) == bpos(b, p),
{
    assert(a.take(p) =~= a.subrange(0, p));
    assert(b.take(p) =~= b.subrange(0, p));
}

fn block_range_idx(cs: &Vec<char>, idx: usize) -> (r: Option<(usize, usize)>)
    ensures
        r matches Some((a, b)) ==> a < cs@.len() && b <= cs@.len() && block_range(
            cs@,
            idx as nat,
        ) == Some((a as int, b as int)),
        r is None <==> block_range(cs@, idx as nat) is None,
{
    proof {
        lemma_find_block_start(cs@, 0, idx as nat);
        lemma_find_block_start(cs@, 0, idx as nat + 1);
    }
    match find_block_start_idx(cs, idx) {
        Some(start) => {
            let n = cs.len();
            if idx == usize::MAX {
                proof {
                    lemma_block_starts_count(cs@, 0, idx as nat);
                    assert(false);
                }
                return None;
            }
            let end = match find_block_start_idx(cs, idx + 1) {
                Some(e) => e,
                None => cs.len(),
            };
            Some((start, end))
        },
        None => None,
    }
}

/// Finding block `remaining` from `i` needs that many chars after `i`.
proof fn lemma_block_starts_count(cs: Seq<char>, i: int, remaining: nat)
    requires
        0 <= i,
        find_block_start(cs, i, remaining) is Some,
    ensures
        i + remaining < cs.len(),
    decreases cs.len() - i,
{
    if !(i >= cs.len() || i < 0) {
        if starts_block(cs, i) {
            if remaining != 0 {
                lemma_block_starts_count(cs, i + 1, (remaining - 1) as nat);
            }
        } else {
            lemma_block_starts_count(cs, i + 1, remaining);
        }
    }
}


impl NoteEditorState {
    fn snapshot(&self) -> (s: Snapshot)
        ensures
            snapshot_view(s) == (self@.content, self@.cursor),
    {
        Snapshot { content: self.content.clone(), offset: self.cursor }
    }

    /// Records the current content as an undo point, discarding the redo stack.
    pub fn mark_undo_point(&mut self)
        ensures
            final(self)@ == (EditorModel {
                undo: old(self)@.undo.push(snap_of(old(self)@.content, old(self)@.cursor)),
                redo: Seq::empty(),
                ..old(self)@
            }),
    {
        let snap = self.snapshot();
        self.undo_stack.push(snap);
        self.redo_stack.clear();
        assert(self@.undo =~= old(self)@.undo.push(snap_of(old(self)@.content, old(self)@.cursor)));
        assert(self@.redo =~= Seq::<(Seq<char>, usize)>::empty());
    }

    /// Restores a snapshot's content and moves to its offset.
    fn restore(&mut self, snapshot: Snapshot)
        requires
            old(self).wf(),
        ensures
            final(self).wf(),
            keeps_commands(old(self)@, final(self)@),
            final(self)@.content == snapshot.content@,
            final(self)@.live() == snapshot.content@,
            final(self)@.modified,
            final(self)@.cursor == snap(snapshot.content@, snapshot.offset as int),
            final(self)@.cursor_visible(),
            final(self)@ == jump_target(
                reset_to(old(self)@, snapshot.content@),
                snapshot.offset as int,
            ),
    {
        self.content = snapshot.content;
        self.modified = true;
        self.text_buffer = None;
        self.editing_block = None;
        proof {
            crate::text::lemma_bpos_zero(self.content@);
            lemma_index_of(self.content@, 0);
        }
        self.cursor = 0;
        self.jump_to_offset(snapshot.offset);
    }

    pub fn undo(&mut self) -> (r: bool)
        requires
            old(self).wf(),
        ensures
            final(self).wf(),
            r == (old(self)@.undo.len() > 0),
            !r ==> final(self)@ == old(self)@,
            r ==> undid(old(self)@, final(self)@),
    {
        match self.undo_stack.pop() {
            Some(previous) => {
                let snap = self.snapshot();
                self.redo_stack.push(snap);
                assert(self@.undo =~= old(self)@.undo.drop_last());
                assert(snapshot_view(previous) == old(self)@.undo.last());
                assert(self@.redo =~= old(self)@.redo.push(
                    snap_of(old(self)@.content, old(self)@.cursor),
                ));
                self.restore(previous);
                true
            },
            None => false,
        }
    }

    pub fn redo(&mut self) -> (r: bool)
        requires
            old(self).wf(),
        ensures
            final(self).wf(),
            r == (old(self)@.redo.len() > 0),
            !r ==> final(self)@ == old(self)@,
            r ==> redid(old(self)@, final(self)@),
    {
        match self.redo_stack.pop() {
            Some(next) => {
                let snap = self.snapshot();
                self.undo_stack.push(snap);
                assert(self@.redo =~= old(self)@.redo.drop_last());
                assert(snapshot_view(next) == old(self)@.redo.last());
                assert(self@.undo =~= old(self)@.undo.push(
                    snap_of(old(self)@.content, old(self)@.cursor),
                ));
                self.restore(next);
                true
            },
            None => false,
        }
    }

    /// Replaces `range` with `replacement`, and leaves the cursor at the end
    /// of the inserted text. Records an undo point first.
    pub fn splice(&mut self, range: Range<usize>, replacement: &str)
        requires
            old(self).wf(),
            range.start <= range.end,
            is_boundary(old(self)@.live(), range.start as int),
            is_boundary(old(self)@.live(), range.end as int),
        ensures
            final(self).wf(),
            spliced_into(
                old(self)@,
                final(self)@,
                range.start as int,
                range.end as int,
                replacement@,
            ),
    {
        self.commit_text_buffer();
        self.mark_undo_point();
        let t = Text::new(self.content.as_str());
        let a = t.index_at(range.start);
        let b = t.index_at(range.end);
        proof {
            if a > b {
                lemma_bpos_strict(t.chars@, b as int, a as int);
            }
        }
        let mut new_content = String::new();
        push_range(&mut new_content, &t, 0, a);
        let rep = Text::new(replacement);
        push_range(&mut new_content, &rep, 0, rep.chars.len());
        push_range(&mut new_content, &t, b, t.chars.len());
        assert(rep.chars@.subrange(0, rep.chars@.len() as int) =~= replacement@);
        self.content = new_content;
        self.modified = true;
        self.text_buffer = None;
        self.editing_block = None;
        proof {
            crate::text::lemma_bpos_zero(self.content@);
            lemma_index_of(self.content@, 0);
        }
        self.cursor = 0;
        let nt = Text::new(self.content.as_str());
        let len = nt.byte_length();
        let target = range.start.saturating_add(rep.byte_length());
        let target = if target <= len {
            target
        } else {
            len
        };
        self.jump_to_offset(target);
    }

    /// Pastes the register at (or after) the cursor. Linewise registers land on
    /// their own line below (`p`) or above (`P`), with the cursor on the first
    /// non-blank of what was pasted.
    #[verifier::rlimit(40)]
    pub fn paste(&mut self, after: bool)
        requires
            old(self).wf(),
        ensures
            final(self).wf(),
            old(self)@.register.0.len() == 0 ==> final(self)@ == old(self)@,
            old(self)@.register.0.len() > 0 ==> {
                let cs = old(self)@.live();
                let p = paste_at(cs, old(self)@.cursor_index(), old(self)@.register.1, after);
                let text = paste_text(old(self)@.register);
                let new = spliced(cs, p, p, text);
                &&& final(self)@.content == new
                &&& final(self)@.live() == new
                &&& final(self)@.undo == old(self)@.undo.push(snap_of(cs, old(self)@.cursor))
                &&& final(self)@.redo == Seq::<(Seq<char>, usize)>::empty()
                &&& final(self)@.modified
                &&& keeps_session(old(self)@, final(self)@)
                &&& (old(self)@.register.1 ==> final(self)@.cursor == bpos(new, landing_of(new, p)))
                &&& (!old(self)@.register.1 ==> final(self)@.cursor == snap(
                    new,
                    if bpos(cs, p) + byte_size(text) <= byte_size(new) {
                        bpos(cs, p) + byte_size(text)
                    } else {
                        byte_size(new)
                    },
                ))
            },
            old(self)@.register.0.len() > 0 ==> paste_steps(old(self)@, final(self)@, after),
    {
        let reg = Text::new(self.register.text.as_str());
        if reg.chars.len() == 0 {
            return ;
        }
        let linewise = self.register.linewise;
        let t = Text::new(self.live_str());
        let k = t.index_at(self.cursor);
        let ghost cs = t.chars@;
        proof {
            lemma_end_of_line(cs, k as int);
            lemma_start_of_line(cs, k as int);
        }
        let p = if linewise {
            if after {
                let e = line_end_idx(&t.chars, k);
                if e < t.chars.len() {
                    e + 1
                } else {
                    t.chars.len()
                }
            } else {
                line_start_idx(&t.chars, k)
            }
        } else if after && k < t.chars.len() {
            k + 1
        } else {
            k
        };
        let insert_at = t.offset(p);
        let mut text = self.register.text.clone();
        if linewise && !(reg.chars.len() > 0 && reg.chars[reg.chars.len() - 1] == '\n') {
            push_char(&mut text, '\n');
        }
        assert(text@ == paste_text(old(self)@.register));
        proof {
            lemma_index_of(cs, p as int);
            lemma_index_of(cs, p as int);
        }
        self.splice(Range { start: insert_at, end: insert_at }, text.as_str());
        let ghost mid = self@;
        let ghost new = self@.content;
        assert(new == spliced(cs, p as int, p as int, text@));
        if linewise {
            let nt = Text::new(self.content.as_str());
            proof {
                assert(new.subrange(0, p as int) =~= cs.subrange(0, p as int));
                lemma_bpos_prefix(new, cs, p as int);
                crate::motion::lemma_skip_white(new, p as int);
            }
            let j = crate::motion::skip_white_idx(&nt.chars, p);
            let landing = if j < nt.chars.len() {
                j
            } else {
                p
            };
            proof {
                lemma_index_of(new, landing as int);
            }
            let off = nt.offset(landing);
            proof {
                lemma_snap(new, off as int);
            }
            self.jump_to_offset(off);
            assert(landing as int == landing_of(new, p as int));
            assert(jumped_to(mid, self@, bpos(new, landing_of(new, p as int)) as int));
        }
        assert(spliced_into(old(self)@, mid, bpos(cs, p as int) as int, bpos(cs, p as int) as int, text@));
        assert(p as int == paste_at(cs, old(self)@.cursor_index(), old(self)@.register.1, after));
        assert(cs == old(self)@.live());
        assert(linewise == old(self)@.register.1);
        assert(!linewise ==> self@ == mid);
        assert(paste_steps(old(self)@, self@, after));
    }
}

/// `b` is `a` after a paste, step by step: the text spliced in at the
/// paste point, then, for a linewise register, a jump to the first
/// non-blank of what was pasted.
pub open spec fn paste_steps(a: EditorModel, b: EditorModel, after: bool) -> bool {
    let cs = a.live();
    let p = paste_at(cs, a.cursor_index(), a.register.1, after);
    let text = paste_text(a.register);
    let new = spliced(cs, p, p, text);
    exists|mid: EditorModel|
        #[trigger] spliced_into(a, mid, bpos(cs, p) as int, bpos(cs, p) as int, text) && if a.register.1 {
            jumped_to(mid, b, bpos(new, landing_of(new, p)) as int)
        } else {
            b == mid
        }
}

/// Where a cursor move to char `j` ends for the state `m`: settled into the
/// block it reaches, from the block the cursor was in.
pub open spec fn landing(m: EditorModel, j: int) -> int {
    settle(m.live(), block_of(m.live(), m.cursor_index()), j, m.view is Edit)
}

/// The state after a cursor move to char `j`: the cursor on the landing
/// char, the viewport scrolled to show it, the rest as before, but for a
/// commit of pending edits.
pub open spec fn moved_to(a: EditorModel, b: EditorModel, j: int) -> bool {
    let cs = a.live();
    let s = landing(a, j);
    &&& b.cursor == bpos(cs, s)
    &&& b.live() == cs
    &&& b.viewport == follow(a.viewport, row_of(cs, s) as int, column_of(cs, s))
    &&& keeps_commands(a, b)
    &&& commits_at_most(a, b)
    &&& b == move_target(a, j)
}

/// The state after the cursor was put on char `j` and the layout redone:
/// while editing, a move into another block opens it and settles the cursor
/// on its entry edge; the viewport then follows the cursor.
#[verifier::opaque]
pub open spec fn move_target(a: EditorModel, j: int) -> EditorModel {
    let cs = a.live();
    let a1 = EditorModel { cursor: bpos(cs, j) as usize, ..a };
    let r = relaid(a1, block_of(cs, a.cursor_index()));
    let s = landing(a, j);
    EditorModel { viewport: follow(r.viewport, row_of(cs, s) as int, column_of(cs, s)), ..r }
}

/// The layout redone after a cursor move from block `prev`.
pub open spec fn relaid(a: EditorModel, prev: nat) -> EditorModel {
    let cs = a.live();
    let k = a.cursor_index();
    let target = block_of(cs, k);
    if a.view is Read {
        a
    } else if target == prev {
        if a.buffer is None {
            opened(a, target as usize)
        } else {
            a
        }
    } else {
        EditorModel {
            cursor: bpos(cs, settle(cs, prev, k, true)) as usize,
            ..opened(a, target as usize)
        }
    }
}

proof fn lemma_settle(cs: Seq<char>, prev: nat, k: int, editing: bool)
    requires
        0 <= k <= cs.len(),
    ensures
        0 <= settle(cs, prev, k, editing) <= cs.len(),
{
    let target = block_of(cs, k);
    if editing && target != prev {
        lemma_find_block_start(cs, 0, target);
        lemma_find_block_start(cs, 0, target + 1);
    }
}

impl NoteEditorState {
    /// While editing, a move that lands in another block opens that block,
    /// and the cursor settles on its entry edge.
    #[verifier::rlimit(40)]
    fn relayout_on_block_change(&mut self, prev_block_idx: usize)
        requires
            old(self).wf(),
        ensures
            final(self).wf(),
            final(self)@ == relaid(old(self)@, prev_block_idx as nat),
            keeps_commands(old(self)@, final(self)@),
            commits_at_most(old(self)@, final(self)@),
            final(self)@.live() == old(self)@.live(),
            final(self)@.viewport == old(self)@.viewport,
            final(self)@.cursor == bpos(
                old(self)@.live(),
                settle(
                    old(self)@.live(),
                    prev_block_idx as nat,
                    old(self)@.cursor_index(),
                    old(self)@.view is Edit,
                ),
            ),
    {
        if let EditorView::Read = self.view {
            return ;
        }
        let target = self.current_block_idx();
        if target == prev_block_idx {
            self.update_layout();
            return ;
        }
        let t = Text::new(self.live_str());
        let adjacent = (target < prev_block_idx && prev_block_idx - target == 1) || (
        prev_block_idx < target && target - prev_block_idx == 1);
        let use_end = adjacent && target < prev_block_idx;
        let n = t.chars.len();
        let target_offset = match block_range_idx(&t.chars, target) {
            Some((start, end)) => {
                if use_end && end > start + 1 {
                    Some(t.offset(end - 1))
                } else {
                    Some(t.offset(start))
                }
            },
            None => None,
        };
        proof {
            match block_range(t.chars@, target as nat) {
                Some((a, b)) => {
                    lemma_find_block_start(t.chars@, 0, target as nat);
                    lemma_index_of(t.chars@, a);
                    if b - 1 > a {
                        lemma_index_of(t.chars@, b - 1);
                    }
                },
                None => {},
            }
        }
        self.enter_insert(target);
        if let Some(off) = target_offset {
            self.cursor = off;
        }
    }

    /// Moves the cursor to char `j` of the live content, settling into the
    /// block it reaches, and scrolls to show it.
    fn move_to_index(&mut self, j: usize)
        requires
            old(self).wf(),
            j <= old(self)@.live().len(),
        ensures
            final(self).wf(),
            moved_to(old(self)@, final(self)@, j as int),
            final(self)@.cursor_visible(),
    {
        let prev = self.current_block_idx();
        let t = Text::new(self.live_str());
        proof {
            lemma_index_of(t.chars@, j as int);
        }
        self.cursor = t.offset(j);
        let ghost mid = self@;
        self.relayout_on_block_change(prev);
        proof {
            lemma_settle(t.chars@, prev as nat, j as int, mid.view is Edit);
            lemma_index_of(t.chars@, landing(old(self)@, j as int));
        }
        self.ensure_cursor_visible();
        proof {
            reveal(move_target);
        }
    }

    pub fn cursor_left(&mut self, amount: usize)
        requires
            old(self).wf(),
        ensures
            final(self).wf(),
            moved_to(
                old(self)@,
                final(self)@,
                crate::motion::nth_char_left_of(
                    old(self)@.live(),
                    old(self)@.cursor_index(),
                    amount as int,
                ),
            ),
            final(self)@.cursor_visible(),
    {
        let t = Text::new(self.live_str());
        let k = t.index_at(self.cursor);
        proof {
            lemma_start_of_line(t.chars@, k as int);
        }
        let j = if k > amount && k - amount > line_start_idx(&t.chars, k) {
            k - amount
        } else {
            line_start_idx(&t.chars, k)
        };
        self.move_to_index(j);
    }

    pub fn cursor_right(&mut self, amount: usize)
        requires
            old(self).wf(),
        ensures
            final(self).wf(),
            moved_to(
                old(self)@,
                final(self)@,
                crate::motion::nth_char_right_of(
                    old(self)@.live(),
                    old(self)@.cursor_index(),
                    amount as int,
                ),
            ),
            final(self)@.cursor_visible(),
    {
        let t = Text::new(self.live_str());
        let k = t.index_at(self.cursor);
        proof {
            lemma_end_of_line(t.chars@, k as int);
        }
        let e = line_end_idx(&t.chars, k);
        let j = if e - k > amount {
            k + amount
        } else {
            e
        };
        self.move_to_index(j);
    }
}

/// `a - b`, floored at zero.
pub open spec fn sat_sub(a: int, b: int) -> int {
    if a >= b {
        a - b
    } else {
        0
    }
}

/// Char index a vertical move from char `k` lands on, on the line starting
/// at `line`: the char under the display column of `k`, or the line's end
/// when the line is narrower. Another line than the cursor's is shown
/// rendered, its list markers drawn in place of the raw ones, so the cursor
/// lands on an item's text, never on its indentation or bullet.
pub open spec fn vertical_target(cs: Seq<char>, k: int, line: int) -> int {
    let j = char_at_column(cs, line, line, end_of_line(cs, line), column_of(cs, k));
    let t = item_text_start(cs, line);
    if line != start_of_line(cs, k) && j < t {
        t
    } else {
        j
    }
}

/// The state after `cursor_up(amount)`: the cursor `amount` lines up in its
/// column, the viewport first scrolled up by the rows the cursor could not
/// move, then moved to show it.
pub open spec fn went_up(a: EditorModel, b: EditorModel, amount: nat) -> bool {
    let cs = a.live();
    let k = a.cursor_index();
    let j = vertical_target(cs, k, crate::motion::line_up_of(cs, k, amount));
    let consumed = sat_sub(a.row() as int, row_of(cs, j) as int);
    let scrolled = Viewport {
        top: sat_sub(a.viewport.top as int, sat_sub(amount as int, consumed)) as usize,
        ..a.viewport
    };
    moved_to(EditorModel { viewport: scrolled, ..a }, b, j)
}

/// The state after `cursor_down(amount)`: the cursor `amount` lines down in its column.
pub open spec fn went_down(a: EditorModel, b: EditorModel, amount: nat) -> bool {
    let cs = a.live();
    let k = a.cursor_index();
    moved_to(
        a,
        b,
        vertical_target(cs, k, crate::motion::line_down_of(cs, k, amount)),
    )
}

/// The state after `cursor_jump(idx)`: the cursor at the start of block
/// `idx`, or left in place when there is no such block.
pub open spec fn jumped(a: EditorModel, b: EditorModel, idx: nat) -> bool {
    match block_range(a.live(), idx) {
        Some((start, _)) => moved_to(a, b, start),
        None => moved_to(a, b, a.cursor_index()),
    }
}

/// Backspace at the start of the edited block folds it into the block above.
pub open spec fn merges_back(m: EditorModel) -> bool {
    let cs = m.live();
    let k = m.cursor_index();
    let prev = if start_of_line(cs, k) > 0 {
        block_of(cs, start_of_line(cs, k) - 1)
    } else {
        block_of(cs, k)
    };
    &&& m.buffer matches Some(b) && find_block_start(cs, 0, b.0 as nat) == Some(k)
    &&& prev < block_of(cs, k)
}

impl NoteEditorState {
    /// The live content: the text buffer's text while editing, else the content.
    pub fn live_content(&self) -> (r: &str)
        ensures
            r@ == self@.live(),
    {
        self.live_str()
    }

    pub fn cursor_up(&mut self, amount: usize)
        requires
            old(self).wf(),
        ensures
            final(self).wf(),
            went_up(old(self)@, final(self)@, amount as nat),
            final(self)@.cursor_visible(),
    {
        let t = Text::new(self.live_str());
        let k = t.index_at(self.cursor);
        proof {
            lemma_start_of_line(t.chars@, k as int);
        }
        let line = step_up_idx(&t.chars, line_start_idx(&t.chars, k), amount);
        proof {
            lemma_start_of_line(t.chars@, k as int);
            lemma_start_of_line(t.chars@, line as int);
            lemma_end_of_line(t.chars@, line as int);
            crate::motion::lemma_step_up(t.chars@, start_of_line(t.chars@, k as int), amount as nat);
            lemma_index_of(t.chars@, crate::motion::line_up_of(t.chars@, k as int, amount as nat));
        }
        let j = vertical_target_idx(&t.chars, k, line);
        let prev_row = row_idx(&t.chars, k);
        let new_row = row_idx(&t.chars, j);
        let consumed = prev_row.saturating_sub(new_row);
        let top = self.viewport.top.saturating_sub(amount.saturating_sub(consumed));
        self.viewport = Viewport { top, ..self.viewport };
        self.move_to_index(j);
    }

    pub fn cursor_down(&mut self, amount: usize)
        requires
            old(self).wf(),
        ensures
            final(self).wf(),
            went_down(old(self)@, final(self)@, amount as nat),
            final(self)@.cursor_visible(),
    {
        let t = Text::new(self.live_str());
        let k = t.index_at(self.cursor);
        proof {
            lemma_start_of_line(t.chars@, k as int);
        }
        let line = step_down_idx(&t.chars, line_start_idx(&t.chars, k), amount);
        proof {
            lemma_start_of_line(t.chars@, k as int);
            lemma_end_of_line(t.chars@, line as int);
            crate::motion::lemma_step_down(
                t.chars@,
                start_of_line(t.chars@, k as int),
                amount as nat,
            );
            lemma_index_of(
                t.chars@,
                crate::motion::line_down_of(t.chars@, k as int, amount as nat),
            );
        }
        let j = vertical_target_idx(&t.chars, k, line);
        self.move_to_index(j);
    }

    /// Moves the cursor to the start of block `idx`, if there is one.
    pub fn cursor_jump(&mut self, idx: usize)
        requires
            old(self).wf(),
        ensures
            final(self).wf(),
            jumped(old(self)@, final(self)@, idx as nat),
            final(self)@.cursor_visible(),
    {
        let t = Text::new(self.live_str());
        let k = t.index_at(self.cursor);
        let j = match block_range_idx(&t.chars, idx) {
            Some((start, _)) => start,
            None => k,
        };
        self.move_to_index(j);
    }

    /// Moves the cursor to the last block, then down to its last line.
    pub fn cursor_to_end(&mut self)
        requires
            old(self).wf(),
        ensures
            final(self).wf(),
            exists|mid: EditorModel|
                jumped(
                    old(self)@,
                    mid,
                    sat_sub(block_count(old(self)@.live()) as int, 1) as nat,
                ) && #[trigger] went_down(mid, final(self)@, usize::MAX as nat),
            final(self)@.cursor_visible(),
    {
        let t = Text::new(self.live_str());
        let count = block_starts_before_idx(&t.chars, t.chars.len());
        self.cursor_jump(count.saturating_sub(1));
        let ghost mid = self@;
        self.cursor_down(usize::MAX);
        assert(went_down(mid, self@, usize::MAX as nat));
    }

    pub fn cursor_word_forward(&mut self)
        requires
            old(self).wf(),
        ensures
            final(self).wf(),
            moved_to(
                old(self)@,
                final(self)@,
                crate::motion::word_forward_of(old(self)@.live(), old(self)@.cursor_index(), false),
            ),
            final(self)@.cursor_visible(),
    {
        let t = Text::new(self.live_str());
        let k = t.index_at(self.cursor);
        let j = crate::motion::word_forward_idx(&t.chars, k, false);
        self.move_to_index(j);
    }

    pub fn cursor_word_backward(&mut self)
        requires
            old(self).wf(),
        ensures
            final(self).wf(),
            moved_to(
                old(self)@,
                final(self)@,
                crate::motion::word_backward_of(
                    old(self)@.live(),
                    old(self)@.cursor_index(),
                    false,
                ),
            ),
            final(self)@.cursor_visible(),
    {
        let t = Text::new(self.live_str());
        let k = t.index_at(self.cursor);
        let j = crate::motion::word_backward_idx(&t.chars, k, false);
        self.move_to_index(j);
    }
}

/// The byte range of the selection in `m`, when there is one.
pub open spec fn selection_bytes(m: EditorModel) -> Option<(int, int)> {
    match m.selection {
        Some(sel) => {
            let cs = m.live();
            let span = selection_span(cs, m.cursor_index(), sel);
            Some((bpos(cs, span.0) as int, bpos(cs, span.1) as int))
        },
        None => None,
    }
}

impl NoteEditorState {
    /// Types `c` at the cursor into the text buffer; nothing happens without one.
    pub fn insert_char(&mut self, c: char)
        requires
            old(self).wf(),
        ensures
            final(self).wf(),
            inserted(old(self)@, final(self)@, c),
    {
        let block = match &self.text_buffer {
            Some(b) => b.block,
            None => {
                return ;
            },
        };
        let t = Text::new(self.live_str());
        let k = t.index_at(self.cursor);
        let mut text = String::new();
        push_range(&mut text, &t, 0, k);
        push_char(&mut text, c);
        push_range(&mut text, &t, k, t.chars.len());
        let ghost new = spliced(t.chars@, k as int, k as int, seq![c]);
        assert(text@ =~= new);
        let nt = Text::new(text.as_str());
        proof {
            lemma_index_of(new, k + 1);
        }
        self.cursor = nt.offset(k + 1);
        self.text_buffer = Some(TextBuffer { block, modified: true, text });
        self.update_layout();
        self.ensure_cursor_visible();
    }

    /// Backspace: deletes the char before the cursor from the text buffer.
    /// At the start of the edited block the block is first folded into the
    /// one above. `None` without a text buffer or at the very start.
    pub fn delete_char(&mut self) -> (r: Option<()>)
        requires
            old(self).wf(),
        ensures
            final(self).wf(),
            r is Some <==> (old(self)@.buffer is Some && old(self)@.cursor_index() > 0),
            r is None ==> final(self)@ == old(self)@,
            r is Some ==> deleted_back(old(self)@, final(self)@),
    {
        let block = match &self.text_buffer {
            Some(b) => b.block,
            None => {
                return None;
            },
        };
        let t = Text::new(self.live_str());
        let k = t.index_at(self.cursor);
        if k == 0 {
            return None;
        }
        let previous = self.previous_block_idx();
        let current = self.current_block_idx();
        let at_block_start = match find_block_start_idx(&t.chars, block) {
            Some(start) => start == k,
            None => false,
        };
        proof {
            lemma_start_of_line(t.chars@, k as int);
        }
        let block = if at_block_start && previous < current {
            self.editing_block = Some(previous);
            previous
        } else {
            block
        };
        let mut text = String::new();
        push_range(&mut text, &t, 0, k - 1);
        push_range(&mut text, &t, k, t.chars.len());
        let ghost new = spliced(t.chars@, k - 1, k as int, Seq::empty());
        assert(text@ =~= new);
        let nt = Text::new(text.as_str());
        proof {
            lemma_index_of(new, k - 1);
        }
        self.cursor = nt.offset(k - 1);
        self.text_buffer = Some(TextBuffer { block, modified: true, text });
        self.update_layout();
        self.ensure_cursor_visible();
        Some(())
    }

    /// Resizes the viewport to `width` columns by `height` rows and scrolls
    /// to keep the cursor visible; nothing happens when the size is unchanged.
    pub fn resize_viewport(&mut self, width: u16, height: u16)
        requires
            old(self).wf(),
        ensures
            final(self).wf(),
            (old(self)@.viewport.width == width && old(self)@.viewport.height == height)
                ==> final(self)@ == old(self)@,
            !(old(self)@.viewport.width == width && old(self)@.viewport.height == height)
                ==> final(self)@ == (EditorModel {
                viewport: follow(
                    Viewport { width: width as usize, height: height as usize, ..old(self)@.viewport },
                    old(self)@.row() as int,
                    old(self)@.column(),
                ),
                ..old(self)@
            }),
            !(old(self)@.viewport.width == width && old(self)@.viewport.height == height)
                ==> final(self)@.cursor_visible(),
    {
        if self.viewport.width == width as usize && self.viewport.height == height as usize {
            return ;
        }
        self.viewport = Viewport {
            width: width as usize,
            height: height as usize,
            ..self.viewport
        };
        self.ensure_cursor_visible();
    }

    /// Source byte range from anchor to cursor. Charwise includes the char
    /// under the cursor; linewise rounds out to whole lines.
    pub fn selection_range(&self) -> (r: Option<Range<usize>>)
        requires
            self.wf(),
        ensures
            match selection_bytes(self@) {
                Some((a, b)) => r == Some(Range { start: a as usize, end: b as usize }),
                None => r is None,
            },
    {
        match self.selection_indices() {
            Some((a, b, t)) => Some(Range { start: t.offset(a), end: t.offset(b) }),
            None => None,
        }
    }

    /// The selected text.
    pub fn selected_text(&self) -> (r: Option<String>)
        requires
            self.wf(),
        ensures
            match self@.selection {
                Some(sel) => {
                    let span = selection_span(self@.live(), self@.cursor_index(), sel);
                    r matches Some(text) && text@ == self@.live().subrange(span.0, span.1)
                },
                None => r is None,
            },
    {
        match self.selection_indices() {
            Some((a, b, t)) => Some(t.substring(a, b)),
            None => None,
        }
    }

    /// The selection's span as char indices into the decoded live content.
    pub(crate) fn selection_indices(&self) -> (r: Option<(usize, usize, Text)>)
        requires
            self.wf(),
        ensures
            match self@.selection {
                Some(sel) => r matches Some((a, b, t)) && t.wf() && t.chars@ == self@.live() && (
                a as int, b as int) == selection_span(self@.live(), self@.cursor_index(), sel)
                    && a <= b <= t.chars@.len(),
                None => r is None,
            },
    {
        let sel = match self.selection {
            Some(sel) => sel,
            None => {
                return None;
            },
        };
        let t = Text::new(self.live_str());
        let n = t.chars.len();
        let k = t.index_at(self.cursor);
        let anchor = snap_idx(&t, sel.anchor);
        let lo = if anchor <= k {
            anchor
        } else {
            k
        };
        let hi = if anchor <= k {
            k
        } else {
            anchor
        };
        proof {
            lemma_start_of_line(t.chars@, lo as int);
            lemma_end_of_line(t.chars@, hi as int);
        }
        let (a, b) = match sel.mode {
            SelectionMode::Char => (lo, if hi < n {
                hi + 1
            } else {
                hi
            }),
            SelectionMode::Line => {
                let e = line_end_idx(&t.chars, hi);
                (line_start_idx(&t.chars, lo), if e < n {
                    e + 1
                } else {
                    n
                })
            },
        };
        Some((a, b, t))
    }
}

/// `a` with its content set to `content`, marked modified, with no text
/// buffer and the cursor at the start: where a restore or an edit starts
/// before the cursor jumps to its place.
pub open spec fn reset_to(a: EditorModel, content: Seq<char>) -> EditorModel {
    EditorModel {
        content,
        modified: true,
        buffer: None,
        editing_block: None,
        cursor: 0,
        ..a
    }
}

/// `b` is `a` after undo: the last undo point restored, the state it
/// replaced pushed for redo.
pub open spec fn undid(a: EditorModel, b: EditorModel) -> bool {
    let prev = a.undo.last();
    &&& b.content == prev.0
    &&& b.live() == prev.0
    &&& b.cursor == snap(prev.0, prev.1 as int)
    &&& b.undo == a.undo.drop_last()
    &&& b.redo == a.redo.push(snap_of(a.content, a.cursor))
    &&& b.modified
    &&& keeps_session(a, b)
    &&& b.cursor_visible()
    &&& b == jump_target(
        reset_to(
            EditorModel {
                undo: a.undo.drop_last(),
                redo: a.redo.push(snap_of(a.content, a.cursor)),
                ..a
            },
            prev.0,
        ),
        prev.1 as int,
    )
}

/// `b` is `a` after redo: the last redo point restored, the state it
/// replaced pushed for undo.
pub open spec fn redid(a: EditorModel, b: EditorModel) -> bool {
    let next = a.redo.last();
    &&& b.content == next.0
    &&& b.live() == next.0
    &&& b.cursor == snap(next.0, next.1 as int)
    &&& b.redo == a.redo.drop_last()
    &&& b.undo == a.undo.push(snap_of(a.content, a.cursor))
    &&& b.modified
    &&& keeps_session(a, b)
    &&& b.cursor_visible()
    &&& b == jump_target(
        reset_to(
            EditorModel {
                redo: a.redo.drop_last(),
                undo: a.undo.push(snap_of(a.content, a.cursor)),
                ..a
            },
            next.0,
        ),
        next.1 as int,
    )
}

/// `b` is `a` after pasting the register after (`p`) or before (`P`) the
/// cursor; an empty register pastes nothing.
pub open spec fn pasted(a: EditorModel, b: EditorModel, after: bool) -> bool {
    if a.register.0.len() == 0 {
        b == a
    } else {
        let cs = a.live();
        let p = paste_at(cs, a.cursor_index(), a.register.1, after);
        let text = paste_text(a.register);
        let new = spliced(cs, p, p, text);
        &&& b.content == new
        &&& b.live() == new
        &&& b.undo == a.undo.push(snap_of(cs, a.cursor))
        &&& b.redo == Seq::<(Seq<char>, usize)>::empty()
        &&& b.modified
        &&& keeps_session(a, b)
        &&& paste_steps(a, b, after)
        &&& (a.register.1 ==> b.cursor == bpos(new, landing_of(new, p)))
        &&& (!a.register.1 ==> b.cursor == snap(
            new,
            if bpos(cs, p) + byte_size(text) <= byte_size(new) {
                bpos(cs, p) + byte_size(text)
            } else {
                byte_size(new)
            },
        ))
    }
}

/// `b` is `a` after typing `c` into the text buffer (no change without one).
pub open spec fn inserted(a: EditorModel, b: EditorModel, c: char) -> bool {
    match a.buffer {
        None => b == a,
        Some(buf) => {
            let cs = a.live();
            let k = a.cursor_index();
            let new = spliced(cs, k, k, seq![c]);
            &&& b.buffer == Some((buf.0, true, new))
            &&& b.cursor == bpos(new, k + 1)
            &&& b.content == a.content
            &&& b.modified == a.modified
            &&& b.editing_block == a.editing_block
            &&& b.viewport == follow(a.viewport, row_of(new, k + 1) as int, column_of(new, k + 1))
            &&& keeps_commands(a, b)
            &&& b.cursor_visible()
        },
    }
}

/// `b` is `a` after a backspace removed the char before the cursor (which
/// `a` has), folding the edited block into the one above at its start.
pub open spec fn deleted_back(a: EditorModel, b: EditorModel) -> bool {
    let cs = a.live();
    let k = a.cursor_index();
    let new = spliced(cs, k - 1, k, Seq::empty());
    let prev = block_of(cs, start_of_line(cs, k) - 1);
    let buf = a.buffer->0;
    &&& b.buffer == Some(
        (if merges_back(a) {
            prev as usize
        } else {
            buf.0
        }, true, new),
    )
    &&& b.editing_block == if merges_back(a) {
        Some(prev as usize)
    } else {
        a.editing_block
    }
    &&& b.cursor == bpos(new, k - 1)
    &&& b.content == a.content
    &&& b.modified == a.modified
    &&& b.viewport == follow(a.viewport, row_of(new, k - 1) as int, column_of(new, k - 1))
    &&& keeps_commands(a, b)
    &&& b.cursor_visible()
}

impl Default for NoteEditorState {
    /// An empty note with no name.
    fn default() -> (s: NoteEditorState)
        ensures
            s.wf(),
            s@.content == Seq::<char>::empty(),
            s@.filename == Seq::<char>::empty(),
            s@.filepath == Seq::<char>::empty(),
            s@.cursor == 0,
            s@.view == EditorView::Read,
            s@.buffer is None,
            s@.undo.len() == 0,
            s@.redo.len() == 0,
    {
        proof {
            reveal_strlit("");
        }
        NoteEditorState::new("", "", "")
    }
}

impl Default for EditorView {
    fn default() -> (v: EditorView)
        ensures
            v == EditorView::Read,
    {
        EditorView::Read
    }
}

impl Default for EditMode {
    fn default() -> (m: EditMode)
        ensures
            m == EditMode::Source,
    {
        EditMode::Source
    }
}

impl Default for Register {
    /// An empty, charwise register.
    fn default() -> (r: Register)
        ensures
            r.text@ == Seq::<char>::empty(),
            !r.linewise,
    {
        Register { text: String::new(), linewise: false }
    }
}

/// How long a yank flash lasts, in milliseconds.
pub const YANK_FLASH_MS: u64 = 150;

} // verus!
