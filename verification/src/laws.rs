//! Properties that relate several operations of the editor and the key
//! configuration.

use vstd::prelude::*;

use crate::app::ActivePane;
use crate::config::{continues, fed_key, Config};
use crate::note_editor::{motion_index, performed, prepared, replaced, update_step, Message, Motion};
use crate::state::{
    deleted_back, inserted, lemma_snap, redid, snap_of, spliced, spliced_into, toggled, undid,
    EditorModel, Operator, Selection, SelectionMode,
};
use crate::text::{bpos, index_of, lemma_index_of};
use crate::motion::{
    end_of_line, first_nonblank_of, lemma_end_of_line, lemma_start_of_line, line_down_of, line_up_of,
    start_of_line, step_down, step_up,
};
use crate::state::row_of;

verus! {

/// Undo right after an edit brings back the text and cursor from before it,
/// and the undo history it had.
pub proof fn lemma_undo_reverts_edit(
    a: EditorModel,
    b: EditorModel,
    c: EditorModel,
    start: int,
    end: int,
    rep: Seq<char>,
)
    requires
        a.wf(),
        spliced_into(a, b, start, end, rep),
        undid(b, c),
    ensures
        c.content == a.live(),
        c.live() == a.live(),
        c.cursor == a.cursor,
        c.undo == a.undo,
        c.redo == b.redo.push(snap_of(b.content, b.cursor)),
{
    lemma_snap(a.live(), a.cursor as int);
    assert(b.undo.drop_last() =~= a.undo);
}

/// Redo right after an undo brings back the text and cursor the undo
/// replaced, and the redo history from before the undo.
pub proof fn lemma_redo_reapplies(b: EditorModel, c: EditorModel, d: EditorModel)
    requires
        b.wf(),
        b.live() == b.content,
        undid(b, c),
        redid(c, d),
    ensures
        d.content == b.content,
        d.live() == b.live(),
        d.cursor == b.cursor,
        d.redo == b.redo,
{
    lemma_snap(b.live(), b.cursor as int);
    assert(c.redo.drop_last() =~= b.redo);
}

/// Toggling a selection mode twice, from a state not selecting in that
/// mode, leaves no selection.
pub proof fn lemma_toggle_twice_clears(sel: Option<Selection>, cursor: usize, mode: SelectionMode)
    requires
        !(sel matches Some(s) && s.mode == mode),
    ensures
        toggled(toggled(sel, cursor, mode), cursor, mode) is None,
{
}

/// Backspace right after typing a char removes it: the text and cursor are
/// as before.
pub proof fn lemma_backspace_undoes_typing(a: EditorModel, b: EditorModel, d: EditorModel, c: char)
    requires
        a.wf(),
        a.buffer is Some,
        inserted(a, b, c),
        deleted_back(b, d),
    ensures
        d.live() == a.live(),
        d.cursor == a.cursor,
{
    let cs = a.live();
    let k = a.cursor_index();
    let new = spliced(cs, k, k, seq![c]);
    assert(0 <= k <= cs.len());
    lemma_index_of(new, k + 1);
    assert(b.cursor_index() == k + 1);
    assert(spliced(new, k, k + 1, Seq::empty()) =~= cs);
}

/// A yank leaves the text as it is.
pub proof fn lemma_yank_keeps_text(
    a: EditorModel,
    b: EditorModel,
    start: int,
    end: int,
    linewise: bool,
    now: u64,
    r: Option<crate::app::Message>,
)
    requires
        performed(a, b, Operator::Yank, start, end, linewise, now, r),
    ensures
        b.live() == a.live(),
{
}

/// Replacing chars keeps the number of chars.
pub proof fn lemma_replace_keeps_length(a: EditorModel, b: EditorModel, c: char, k: int, e: int)
    requires
        0 <= k <= e <= a.live().len(),
        replaced(a, b, c, k, e),
    ensures
        b.live().len() == a.live().len(),
{
    let cs = a.live();
    let rep = Seq::new((e - k) as nat, |i: int| c);
    let mid = choose|mid: EditorModel|
        #[trigger] spliced_into(a, mid, bpos(cs, k) as int, bpos(cs, e) as int, rep)
            && crate::state::jumped_to(
            mid,
            b,
            bpos(spliced(cs, k, e, rep), e - 1) as int,
        );
    lemma_index_of(cs, k);
    lemma_index_of(cs, e);
}

/// Pending keys that stay pending continue some binding.
pub proof fn lemma_pending_keys_continue(
    c: &Config,
    pane: ActivePane,
    before: Seq<String>,
    key: String,
    r: Option<crate::app::Message>,
    after: Seq<String>,
)
    requires
        fed_key(c, pane, before, key, r, after),
        after.len() > 0,
    ensures
        continues(c, pane, after),
{
}

/// The armed find, text object and replace of `a` and `b` agree.
pub open spec fn same_pending(a: EditorModel, b: EditorModel) -> bool {
    &&& a.pending_find == b.pending_find
    &&& a.pending_text_object == b.pending_text_object
    &&& a.pending_replace == b.pending_replace
}

proof fn lemma_performed_keeps_pending(
    a: EditorModel,
    b: EditorModel,
    op: Operator,
    s: int,
    e: int,
    linewise: bool,
    now: u64,
    r: Option<crate::app::Message>,
)
    requires
        performed(a, b, op, s, e, linewise, now, r),
    ensures
        same_pending(a, b),
{
}

proof fn lemma_ran_motion_keeps_pending(
    a: EditorModel,
    b: EditorModel,
    count: usize,
    inclusive: bool,
    linewise: bool,
    m: crate::note_editor::Motion,
    now: u64,
    r: Option<crate::app::Message>,
)
    requires
        crate::note_editor::ran_motion(a, b, count, inclusive, linewise, m, now, r),
    ensures
        same_pending(a, b),
{
    let cs = a.live();
    let target = crate::note_editor::repeat_motion(cs, a.cursor, m, count as nat);
    let a1 = EditorModel { pending_operator: None, ..a };
    if let Some(op) = a.pending_operator {
        let span = crate::note_editor::operator_span(
            cs,
            a.cursor_index(),
            index_of(cs, target as int),
            inclusive,
            linewise,
        );
        lemma_performed_keeps_pending(
            a1,
            b,
            op,
            bpos(cs, span.0) as int,
            bpos(cs, span.1) as int,
            linewise,
            now,
            r,
        );
    }
}

proof fn lemma_cursor_messages_keep_pending(
    a: EditorModel,
    b: EditorModel,
    msg: Message,
    height: usize,
    now: u64,
    r: Option<crate::app::Message>,
)
    requires
        update_step(a, b, msg, height, now, r),
        msg is CursorLeft || msg is CursorRight || msg is JumpToBlock || msg is CursorUp
            || msg is CursorDown || msg is ScrollUp || msg is ScrollDown || msg is ScrollToTop
            || msg is ScrollToBottom,
    ensures
        same_pending(prepared(a, msg), b),
{
    let p = prepared(a, msg);
    let cnt = crate::note_editor::count_or_one(p);
    let p1 = crate::note_editor::without_count(p);
    match msg {
        Message::CursorLeft => {
            if p.pending_operator is Some {
                lemma_ran_motion_keeps_pending(p1, b, cnt, false, false, crate::note_editor::Motion::CharLeft, now, r);
            }
        },
        Message::CursorRight => {
            if p.pending_operator is Some {
                lemma_ran_motion_keeps_pending(p1, b, cnt, false, false, crate::note_editor::Motion::CharRight, now, r);
            }
        },
        Message::CursorUp => {
            if p.pending_operator is Some {
                lemma_ran_motion_keeps_pending(p1, b, 1, false, true, crate::note_editor::Motion::LinesUp(cnt), now, r);
            }
        },
        Message::CursorDown => {
            if p.pending_operator is Some {
                lemma_ran_motion_keeps_pending(p1, b, 1, false, true, crate::note_editor::Motion::LinesDown(cnt), now, r);
            }
        },
        Message::ScrollToBottom => {
            let mid = choose|mid: EditorModel|
                crate::state::jumped(
                    p,
                    mid,
                    crate::state::sat_sub(crate::state::block_count(p.live()) as int, 1) as nat,
                ) && #[trigger] crate::state::went_down(mid, b, usize::MAX as nat);
        },
        _ => {},
    }
}

proof fn lemma_normal_motion_keeps_pending(p: EditorModel, b: EditorModel, msg: Message, now: u64, r: Option<crate::app::Message>)
    requires
        crate::note_editor::normal_motion_step(p, b, msg, now, r),
        crate::note_editor::is_normal_motion(msg),
    ensures
        msg is FindTarget ==> b.pending_find is None && b.pending_text_object == p.pending_text_object && b.pending_replace == p.pending_replace,
        !(msg is FindTarget) ==> same_pending(p, b),
{
    let cnt = crate::note_editor::count_or_one(p);
    let p1 = crate::note_editor::without_count(p);
    let changing = p.pending_operator == Some(Operator::Change);
    match msg {
        Message::CursorWordForward => {
            if changing {
                lemma_ran_motion_keeps_pending(p1, b, cnt, true, false, Motion::WordEnd(false), now, r);
            } else {
                lemma_ran_motion_keeps_pending(p1, b, cnt, false, false, Motion::WordForward(false), now, r);
            }
        },
        Message::CursorWordForwardBig => {
            if changing {
                lemma_ran_motion_keeps_pending(p1, b, cnt, true, false, Motion::WordEnd(true), now, r);
            } else {
                lemma_ran_motion_keeps_pending(p1, b, cnt, false, false, Motion::WordForward(true), now, r);
            }
        },
        Message::CursorWordBackward => lemma_ran_motion_keeps_pending(p1, b, cnt, false, false, Motion::WordBackward(false), now, r),
        Message::CursorWordBackwardBig => lemma_ran_motion_keeps_pending(p1, b, cnt, false, false, Motion::WordBackward(true), now, r),
        Message::CursorWordEnd => lemma_ran_motion_keeps_pending(p1, b, cnt, true, false, Motion::WordEnd(false), now, r),
        Message::CursorWordEndBig => lemma_ran_motion_keeps_pending(p1, b, cnt, true, false, Motion::WordEnd(true), now, r),
        Message::CursorLineStart => lemma_ran_motion_keeps_pending(p1, b, 1, false, false, Motion::LineStart, now, r),
        Message::CursorLineEnd => lemma_ran_motion_keeps_pending(p1, b, 1, true, false, Motion::LineEnd, now, r),
        Message::CursorFirstNonblank => lemma_ran_motion_keeps_pending(p1, b, 1, false, false, Motion::FirstNonblank, now, r),
        Message::ParagraphForward => lemma_ran_motion_keeps_pending(p1, b, cnt, false, false, Motion::ParagraphForward, now, r),
        Message::ParagraphBackward => lemma_ran_motion_keeps_pending(p1, b, cnt, false, false, Motion::ParagraphBackward, now, r),
        Message::CursorDocStart => lemma_ran_motion_keeps_pending(p1, b, 1, false, true, Motion::DocStart(p.pending_count), now, r),
        Message::CursorDocEnd => lemma_ran_motion_keeps_pending(p1, b, 1, false, true, Motion::DocEnd(p.pending_count), now, r),
        Message::FindTarget(c) => {
            if let Some(kind) = p.pending_find {
                let p5 = EditorModel {
                    pending_find: None,
                    last_find: Some(crate::state::FindMotion { target: c, kind }),
                    ..p1
                };
                lemma_ran_motion_keeps_pending(p5, b, cnt, kind.forward, false, Motion::Find(c, kind), now, r);
            }
        },
        Message::RepeatFind { reverse } => {
            if let Some(f) = p.last_find {
                let kind = if reverse {
                    crate::state::FindKind { forward: !f.kind.forward, till: f.kind.till }
                } else {
                    f.kind
                };
                lemma_ran_motion_keeps_pending(p1, b, cnt, kind.forward, false, Motion::Find(f.target, kind), now, r);
            }
        },
        _ => {},
    }
}

proof fn lemma_normal_edit_keeps_pending(p: EditorModel, b: EditorModel, msg: Message, now: u64, r: Option<crate::app::Message>)
    requires
        crate::note_editor::normal_edit_step(p, b, msg, now, r),
        crate::note_editor::is_normal_edit(msg),
    ensures
        msg is TextObjectTarget ==> b.pending_text_object is None && b.pending_find == p.pending_find && b.pending_replace == p.pending_replace,
        msg is ReplaceTarget ==> !b.pending_replace && b.pending_find == p.pending_find && b.pending_text_object == p.pending_text_object,
        msg is Append ==> b.pending_find == p.pending_find && b.pending_replace == p.pending_replace && (p.pending_operator is None ==> b.pending_text_object == p.pending_text_object),
        !(msg is TextObjectTarget || msg is ReplaceTarget || msg is Append) ==> same_pending(p, b),
{
    let cs = p.live();
    let k = p.cursor_index();
    let cnt = crate::note_editor::count_or_one(p);
    let p2 = crate::note_editor::without_operator(p);
    let p3 = crate::note_editor::without_operator(crate::note_editor::without_count(p));
    match msg {
        Message::MatchingPair => {
            if let (Some(op), Some(t)) = (p.pending_operator, crate::motion::matching_pair_of(cs, k)) {
                let span = crate::note_editor::operator_span(cs, p3.cursor_index(), index_of(cs, (bpos(cs, t) as usize) as int), true, false);
                lemma_performed_keeps_pending(p3, b, op, bpos(cs, span.0) as int, bpos(cs, span.1) as int, false, now, r);
            }
        },
        Message::Operator(op) => {
            if p.selection is Some {
                if let Some((s, e)) = crate::state::selection_bytes(p) {
                    lemma_performed_keeps_pending(
                        EditorModel { selection: None, ..p },
                        b,
                        op,
                        s,
                        e,
                        p.selection->0.mode == SelectionMode::Line,
                        now,
                        r,
                    );
                }
            } else if p.pending_operator == Some(op) {
                let start = crate::motion::start_of_line(cs, p3.cursor_index());
                lemma_performed_keeps_pending(
                    p3,
                    b,
                    op,
                    bpos(cs, start) as int,
                    bpos(cs, crate::note_editor::lines_end(cs, start, cnt as nat)) as int,
                    true,
                    now,
                    r,
                );
            }
        },
        Message::DeleteUnderCursor => lemma_performed_keeps_pending(p3, b, Operator::Delete, p.cursor as int, bpos(cs, crate::motion::nth_char_right_of(cs, k, cnt as int)) as int, false, now, r),
        Message::SubstituteChar => lemma_performed_keeps_pending(p3, b, Operator::Change, p.cursor as int, bpos(cs, crate::motion::nth_char_right_of(cs, k, cnt as int)) as int, false, now, r),
        Message::DeleteToLineEnd => lemma_performed_keeps_pending(p2, b, Operator::Delete, p.cursor as int, bpos(cs, crate::motion::end_of_line(cs, k)) as int, false, now, r),
        Message::ChangeToLineEnd => lemma_performed_keeps_pending(p2, b, Operator::Change, p.cursor as int, bpos(cs, crate::motion::end_of_line(cs, k)) as int, false, now, r),
        Message::TextObjectTarget(obj) => {
            let p6 = EditorModel { pending_text_object: None, pending_operator: None, ..p };
            if let (Some(around), Some(op)) = (p.pending_text_object, p.pending_operator) {
                if let Some((x, y)) = crate::motion::text_object_of(cs, k, obj, around) {
                    lemma_performed_keeps_pending(p6, b, op, (bpos(cs, x) as usize) as int, (bpos(cs, y) as usize) as int, false, now, r);
                }
            }
        },
        Message::ReplaceTarget(c) => {
            let p7 = EditorModel { pending_replace: false, pending_count: None, ..p };
            let e = crate::motion::nth_char_right_of(cs, k, cnt as int);
            if e > k {
                let rep = Seq::new((e - k) as nat, |i: int| c);
                let mid = choose|mid: EditorModel|
                    #[trigger] spliced_into(p7, mid, bpos(cs, k) as int, bpos(cs, e) as int, rep)
                        && crate::state::jumped_to(mid, b, bpos(spliced(cs, k, e, rep), e - 1) as int);
            }
        },
        _ => {},
    }
}

/// An armed find, text object or replace only survives to the very next
/// key: after any message but the one that arms it none is pending, and in
/// normal mode the key that completes it disarms it too.
#[verifier::rlimit(50)]
pub proof fn lemma_pending_lasts_one_key(
    a: EditorModel,
    b: EditorModel,
    msg: Message,
    height: usize,
    now: u64,
    r: Option<crate::app::Message>,
)
    requires
        update_step(a, b, msg, height, now, r),
    ensures
        !(msg is FindChar || msg is FindTarget) ==> b.pending_find is None,
        !(msg is InsertMode || msg is Append || msg is TextObjectTarget)
            ==> b.pending_text_object is None,
        !(msg is ReplaceChar || msg is ReplaceTarget) ==> !b.pending_replace,
        (a.view is Edit && !a.insert_mode) ==> {
            &&& msg is FindTarget ==> b.pending_find is None
            &&& msg is TextObjectTarget ==> b.pending_text_object is None
            &&& msg is ReplaceTarget ==> !b.pending_replace
        },
{
    let p = prepared(a, msg);
    if msg is CursorLeft || msg is CursorRight || msg is JumpToBlock || msg is CursorUp
        || msg is CursorDown || msg is ScrollUp || msg is ScrollDown || msg is ScrollToTop
        || msg is ScrollToBottom {
        lemma_cursor_messages_keep_pending(a, b, msg, height, now, r);
    } else if p.view is Edit && !p.insert_mode {
        if crate::note_editor::is_normal_motion(msg) {
            lemma_normal_motion_keeps_pending(p, b, msg, now, r);
        } else if crate::note_editor::is_normal_edit(msg) {
            lemma_normal_edit_keeps_pending(p, b, msg, now, r);
        }
    }
}

/// With no newline among chars `[a, b)`, `b` is on the row of `a`.
proof fn lemma_row_of_flat(cs: Seq<char>, a: int, b: int)
    requires
        0 <= a <= b <= cs.len(),
        forall|m: int| a <= m < b ==> cs[m] != '\n',
    ensures
        row_of(cs, b) == row_of(cs, a),
    decreases b - a,
{
    if a < b {
        lemma_row_of_flat(cs, a, b - 1);
    }
}

/// From a line start `s`, stepping down `cnt` lines reaches a line start
/// `cnt` rows lower, when the text has more than that many newlines after it.
proof fn lemma_step_down_rows(cs: Seq<char>, s: int, cnt: nat)
    requires
        0 <= s <= cs.len(),
        s == 0 || cs[s - 1] == '\n',
        row_of(cs, cs.len() as int) >= row_of(cs, s) + cnt + 1,
    ensures
        0 <= step_down(cs, s, cnt) <= cs.len(),
        step_down(cs, s, cnt) == 0 || cs[step_down(cs, s, cnt) - 1] == '\n',
        row_of(cs, step_down(cs, s, cnt)) == row_of(cs, s) + cnt,
    decreases cnt,
{
    if cnt > 0 {
        lemma_end_of_line(cs, s);
        let e = end_of_line(cs, s);
        lemma_row_of_flat(cs, s, e);
        if e == cs.len() {
            assert(false);
        }
        assert(cs[e] == '\n');
        assert(row_of(cs, e + 1) == row_of(cs, e) + 1);
        if e + 1 == cs.len() {
            assert(false);
        }
        lemma_step_down_rows(cs, e + 1, (cnt - 1) as nat);
    }
}

/// The first non-blank of the line starting at `s` is on that line's row.
proof fn lemma_first_nonblank_row(cs: Seq<char>, s: int)
    requires
        0 <= s <= cs.len(),
        s == 0 || cs[s - 1] == '\n',
    ensures
        start_of_line(cs, s) == s,
        s <= first_nonblank_of(cs, s) <= end_of_line(cs, s),
        row_of(cs, first_nonblank_of(cs, s)) == row_of(cs, s),
{
    lemma_end_of_line(cs, s);
    crate::motion::lemma_skip_blank(cs, s, end_of_line(cs, s));
    lemma_row_of_flat(cs, s, first_nonblank_of(cs, s));
}

/// `{count}gg` and `{count}G` go to the same place: the first non-blank of
/// line `count` (counting from one). When the text has at least `count`
/// newlines, that place is on row `count - 1`; `gg` with no count stays on
/// the first row.
pub proof fn law_counted_doc_start(cs: Seq<char>, k: int, n: usize)
    ensures
        motion_index(cs, k, Motion::DocStart(Some(n))) == motion_index(
            cs,
            k,
            Motion::DocEnd(Some(n)),
        ),
        (1 <= n && row_of(cs, cs.len() as int) >= n) ==> row_of(
            cs,
            motion_index(cs, k, Motion::DocStart(Some(n))),
        ) == n - 1,
        row_of(cs, motion_index(cs, k, Motion::DocStart(None))) == 0,
{
    lemma_first_nonblank_row(cs, 0);
    if 1 <= n && row_of(cs, cs.len() as int) >= n {
        lemma_step_down_rows(cs, 0, (n - 1) as nat);
        lemma_first_nonblank_row(cs, step_down(cs, 0, (n - 1) as nat));
    }
}

/// From a line start `s`, stepping up `cnt` lines reaches a line start
/// `cnt` rows higher, or the first line.
proof fn lemma_step_up_rows(cs: Seq<char>, s: int, cnt: nat)
    requires
        0 <= s <= cs.len(),
        s == 0 || cs[s - 1] == '\n',
    ensures
        0 <= step_up(cs, s, cnt) <= s,
        step_up(cs, s, cnt) == 0 || cs[step_up(cs, s, cnt) - 1] == '\n',
        row_of(cs, step_up(cs, s, cnt)) == if row_of(cs, s) >= cnt {
            row_of(cs, s) - cnt
        } else {
            0
        },
    decreases cnt,
{
    if s == 0 {
        assert(row_of(cs, 0) == 0);
    } else if cnt > 0 {
        lemma_start_of_line(cs, s - 1);
        let p = start_of_line(cs, s - 1);
        lemma_row_of_flat(cs, p, s - 1);
        assert(row_of(cs, s) == row_of(cs, s - 1) + 1);
        lemma_step_up_rows(cs, p, (cnt - 1) as nat);
    }
}

/// `j` (`n` lines down): the start of the line `n` rows below the cursor's,
/// when the text has more than that many newlines after the cursor's line;
/// never further down.
pub proof fn law_line_down(cs: Seq<char>, k: int, n: nat)
    requires
        0 <= k <= cs.len(),
    ensures
        0 <= line_down_of(cs, k, n) <= cs.len(),
        line_down_of(cs, k, n) == 0 || cs[line_down_of(cs, k, n) - 1] == '\n',
        row_of(cs, cs.len() as int) > row_of(cs, k) + n ==> row_of(cs, line_down_of(cs, k, n))
            == row_of(cs, k) + n,
{
    lemma_start_of_line(cs, k);
    let s = start_of_line(cs, k);
    lemma_row_of_flat(cs, s, k);
    crate::motion::lemma_step_down(cs, s, n);
    lemma_step_down_shape(cs, s, n);
    if row_of(cs, cs.len() as int) > row_of(cs, k) + n {
        lemma_step_down_rows(cs, s, n);
    }
}

/// Stepping down from a line start ends on a line start.
proof fn lemma_step_down_shape(cs: Seq<char>, s: int, cnt: nat)
    requires
        0 <= s <= cs.len(),
        s == 0 || cs[s - 1] == '\n',
    ensures
        step_down(cs, s, cnt) == 0 || cs[step_down(cs, s, cnt) - 1] == '\n',
    decreases cnt,
{
    if cnt > 0 {
        lemma_end_of_line(cs, s);
        let e = end_of_line(cs, s);
        if e + 1 < cs.len() {
            lemma_step_down_shape(cs, e + 1, (cnt - 1) as nat);
        }
    }
}

/// `k` (`n` lines up): the start of the line `n` rows above the cursor's,
/// or of the first line when there are fewer.
pub proof fn law_line_up(cs: Seq<char>, k: int, n: nat)
    requires
        0 <= k <= cs.len(),
    ensures
        0 <= line_up_of(cs, k, n) <= k,
        line_up_of(cs, k, n) == 0 || cs[line_up_of(cs, k, n) - 1] == '\n',
        row_of(cs, line_up_of(cs, k, n)) == if row_of(cs, k) >= n {
            row_of(cs, k) - n
        } else {
            0
        },
{
    lemma_start_of_line(cs, k);
    let s = start_of_line(cs, k);
    lemma_row_of_flat(cs, s, k);
    lemma_step_up_rows(cs, s, n);
}

} // verus!
