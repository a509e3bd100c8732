//! Pure vim motion functions over source text.
//!
//! Each takes the full document and a byte offset on a char boundary and
//! returns the target byte offset, again on a char boundary. They never
//! mutate and know nothing of rendering, blocks or the viewport. Counts are
//! applied by the caller (repeat the motion N times).
//!
//! The meaning of every motion is given over char indices (`*_of` spec
//! functions below); the public functions convert byte offsets to char
//! indices and back with `bpos` / `index_of`.

use std::ops::Range;
use vstd::prelude::*;

use crate::text::{
    bpos, index_of, is_alphanumeric, is_boundary, is_whitespace, lemma_bpos_mono, lemma_index_of,
    alphanumeric, unicode_white_space, Text,
};

verus! {

/// Character class for word motions. Punctuation and word characters form
/// separate words; whitespace separates them. In "big" (WORD) mode every
/// non-blank character counts as a word character.
#[derive(Clone, Copy, PartialEq, Eq, Structural, Debug)]
pub enum CharClass {
    Blank,
    Word,
    Punct,
}

/// An optional index as an optional integer.
pub open spec fn lift(r: Option<usize>) -> Option<int> {
    match r {
        Some(j) => Some(j as int),
        None => None,
    }
}

/// An optional index pair as an optional integer pair.
pub open spec fn lift_pair(r: Option<(usize, usize)>) -> Option<(int, int)> {
    match r {
        Some((a, b)) => Some((a as int, b as int)),
        None => None,
    }
}

pub open spec fn class_of(c: char, big: bool) -> CharClass {
    if unicode_white_space(c) {
        CharClass::Blank
    } else if !(big || alphanumeric(c) || c == '_') {
        CharClass::Punct
    } else {
        CharClass::Word
    }
}

fn class(c: char, big: bool) -> (r: CharClass)
    ensures
        r == class_of(c, big),
{
    if is_whitespace(c) {
        CharClass::Blank
    } else if !(big || is_alphanumeric(c) || c == '_') {
        CharClass::Punct
    } else {
        CharClass::Word
    }
}

// ---------------------------------------------------------------------------
// Lines
// ---------------------------------------------------------------------------
/// Index of the first char of the line holding char index `k`.
pub open spec fn start_of_line(cs: Seq<char>, k: int) -> int
    decreases k,
{
    if k <= 0 {
        0
    } else if cs[k - 1] == '\n' {
        k
    } else {
        start_of_line(cs, k - 1)
    }
}

/// Index of the newline that ends the line holding `k`, or the length.
pub open spec fn end_of_line(cs: Seq<char>, k: int) -> int
    decreases cs.len() - k,
{
    if k >= cs.len() {
        cs.len() as int
    } else if cs[k] == '\n' {
        k
    } else {
        end_of_line(cs, k + 1)
    }
}

pub proof fn lemma_start_of_line(cs: Seq<char>, k: int)
    requires
        0 <= k <= cs.len(),
    ensures
        0 <= start_of_line(cs, k) <= k,
        start_of_line(cs, k) == 0 || cs[start_of_line(cs, k) - 1] == '\n',
        forall|i: int| start_of_line(cs, k) <= i < k ==> cs[i] != '\n',
    decreases k,
{
    if k > 0 && cs[k - 1] != '\n' {
        lemma_start_of_line(cs, k - 1);
    }
}

pub proof fn lemma_end_of_line(cs: Seq<char>, k: int)
    requires
        0 <= k <= cs.len(),
    ensures
        k <= end_of_line(cs, k) <= cs.len(),
        end_of_line(cs, k) == cs.len() || cs[end_of_line(cs, k)] == '\n',
        forall|i: int| k <= i < end_of_line(cs, k) ==> cs[i] != '\n',
    decreases cs.len() - k,
{
    if k < cs.len() && cs[k] != '\n' {
        lemma_end_of_line(cs, k + 1);
    }
}

/// Any index between a line's start and `k` has the same line start.
pub proof fn lemma_start_of_line_same(cs: Seq<char>, k: int, j: int)
    requires
        0 <= j <= k <= cs.len(),
        forall|i: int| j <= i < k ==> cs[i] != '\n',
    ensures
        start_of_line(cs, j) == start_of_line(cs, k),
    decreases k - j,
{
    if j < k {
        lemma_start_of_line_same(cs, k - 1, j);
    }
}

/// Any index between `k` and its line end has the same line end.
pub proof fn lemma_end_of_line_same(cs: Seq<char>, k: int, j: int)
    requires
        0 <= k <= j <= cs.len(),
        forall|i: int| k <= i < j ==> cs[i] != '\n',
    ensures
        end_of_line(cs, j) == end_of_line(cs, k),
    decreases j - k,
{
    if k < j {
        lemma_end_of_line_same(cs, k + 1, j);
    }
}

/// Index of the last char on the line of `k` (`$`), or the line start if empty.
pub open spec fn last_of_line(cs: Seq<char>, k: int) -> int {
    let s = start_of_line(cs, k);
    let e = end_of_line(cs, k);
    if e > s {
        e - 1
    } else {
        s
    }
}

/// The first index in `[j, e)` whose char is not whitespace, or `e`.
pub open spec fn skip_blank(cs: Seq<char>, j: int, e: int) -> int
    decreases e - j,
{
    if j >= e {
        e
    } else if !unicode_white_space(cs[j]) {
        j
    } else {
        skip_blank(cs, j + 1, e)
    }
}

/// The first non-blank char on the line of `k` (`^`), or the line start.
pub open spec fn first_nonblank_of(cs: Seq<char>, k: int) -> int {
    let s = start_of_line(cs, k);
    let e = end_of_line(cs, k);
    let j = skip_blank(cs, s, e);
    if j < e {
        j
    } else {
        s
    }
}

pub(crate) fn line_start_idx(cs: &Vec<char>, k: usize) -> (r: usize)
    requires
        k <= cs@.len(),
    ensures
        r == start_of_line(cs@, k as int),
{
    let mut i = k;
    while i > 0 && cs[i - 1] != '\n'
        invariant
            i <= k <= cs@.len(),
            start_of_line(cs@, i as int) == start_of_line(cs@, k as int),
        decreases i,
    {
        i = i - 1;
    }
    i
}

pub(crate) fn line_end_idx(cs: &Vec<char>, k: usize) -> (r: usize)
    requires
        k <= cs@.len(),
    ensures
        r == end_of_line(cs@, k as int),
{
    let n = cs.len();
    let mut i = k;
    while i < n && cs[i] != '\n'
        invariant
            k <= i <= n,
            n == cs@.len(),
            end_of_line(cs@, i as int) == end_of_line(cs@, k as int),
        decreases n - i,
    {
        i = i + 1;
    }
    i
}

pub(crate) fn skip_blank_idx(cs: &Vec<char>, j: usize, e: usize) -> (r: usize)
    requires
        j <= e <= cs@.len(),
    ensures
        r == skip_blank(cs@, j as int, e as int),
        j <= r <= e,
{
    let mut i = j;
    while i < e && is_whitespace(cs[i])
        invariant
            j <= i <= e <= cs@.len(),
            skip_blank(cs@, i as int, e as int) == skip_blank(cs@, j as int, e as int),
        decreases e - i,
    {
        i = i + 1;
    }
    i
}

fn first_nonblank_idx(cs: &Vec<char>, k: usize) -> (r: usize)
    requires
        k <= cs@.len(),
    ensures
        r == first_nonblank_of(cs@, k as int),
        r <= cs@.len(),
{
    proof {
        lemma_start_of_line(cs@, k as int);
        lemma_end_of_line(cs@, k as int);
    }
    let s = line_start_idx(cs, k);
    let e = line_end_idx(cs, k);
    let j = skip_blank_idx(cs, s, e);
    if j < e {
        j
    } else {
        s
    }
}

// ---------------------------------------------------------------------------
// Words
// ---------------------------------------------------------------------------
/// The first index at or after `i` that leaves the run of class `cls` on the line.
pub open spec fn run_end(cs: Seq<char>, i: int, cls: CharClass, big: bool) -> int
    decreases cs.len() - i,
{
    if i < cs.len() && class_of(cs[i], big) == cls && cs[i] != '\n' {
        run_end(cs, i + 1, cls, big)
    } else {
        i
    }
}

/// The first index at or before `i` that starts the run of class `cls` ending at `i`.
pub open spec fn run_start(cs: Seq<char>, i: int, cls: CharClass, big: bool) -> int
    decreases i,
{
    if i > 0 && class_of(cs[i - 1], big) == cls && cs[i - 1] != '\n' {
        run_start(cs, i - 1, cls, big)
    } else {
        i
    }
}

/// Skips whitespace forward from `i`, stopping on the second of two
/// consecutive newlines (an empty line counts as a word).
pub open spec fn skip_gap(cs: Seq<char>, i: int) -> int
    decreases cs.len() - i,
{
    if i >= cs.len() {
        i
    } else if cs[i] == '\n' {
        if i + 1 < cs.len() && cs[i + 1] == '\n' {
            i + 1
        } else {
            skip_gap(cs, i + 1)
        }
    } else if unicode_white_space(cs[i]) {
        skip_gap(cs, i + 1)
    } else {
        i
    }
}

/// The first index at or after `i` whose char is not whitespace, or the length.
pub open spec fn skip_white(cs: Seq<char>, i: int) -> int
    decreases cs.len() - i,
{
    if i < cs.len() && unicode_white_space(cs[i]) {
        skip_white(cs, i + 1)
    } else {
        i
    }
}

/// The first index at or before `i` that follows a non-whitespace char, or 0.
pub open spec fn skip_white_back(cs: Seq<char>, i: int) -> int
    decreases i,
{
    if i > 0 && unicode_white_space(cs[i - 1]) {
        skip_white_back(cs, i - 1)
    } else {
        i
    }
}

/// Start of the next word (`w` / `W`) from char index `k`.
pub open spec fn word_forward_of(cs: Seq<char>, k: int, big: bool) -> int {
    if k >= cs.len() {
        k
    } else {
        let c = class_of(cs[k], big);
        let i = if c != CharClass::Blank {
            run_end(cs, k, c, big)
        } else {
            k
        };
        skip_gap(cs, i)
    }
}

/// Start of the current or previous word (`b` / `B`) from char index `k`.
pub open spec fn word_backward_of(cs: Seq<char>, k: int, big: bool) -> int {
    let i = skip_white_back(cs, k);
    if i <= 0 {
        0
    } else {
        let r = run_start(cs, i, class_of(cs[i - 1], big), big);
        if r < i {
            r
        } else {
            i - 1
        }
    }
}

/// Last char of the next word (`e` / `E`) from char index `k`.
pub open spec fn word_end_of(cs: Seq<char>, k: int, big: bool) -> int {
    let i0 = if k < cs.len() {
        k + 1
    } else {
        cs.len() as int
    };
    let i = skip_white(cs, i0);
    if i >= cs.len() {
        let last = if cs.len() > 0 {
            cs.len() - 1
        } else {
            0
        };
        if last >= k {
            last
        } else {
            k
        }
    } else {
        let r = run_end(cs, i, class_of(cs[i], big), big);
        if r > i {
            r - 1
        } else {
            i
        }
    }
}

proof fn lemma_run_end(cs: Seq<char>, i: int, cls: CharClass, big: bool)
    requires
        0 <= i <= cs.len(),
    ensures
        i <= run_end(cs, i, cls, big) <= cs.len(),
    decreases cs.len() - i,
{
    if i < cs.len() && class_of(cs[i], big) == cls && cs[i] != '\n' {
        lemma_run_end(cs, i + 1, cls, big);
    }
}

proof fn lemma_run_start(cs: Seq<char>, i: int, cls: CharClass, big: bool)
    requires
        0 <= i <= cs.len(),
    ensures
        0 <= run_start(cs, i, cls, big) <= i,
    decreases i,
{
    if i > 0 && class_of(cs[i - 1], big) == cls && cs[i - 1] != '\n' {
        lemma_run_start(cs, i - 1, cls, big);
    }
}

proof fn lemma_skip_gap(cs: Seq<char>, i: int)
    requires
        0 <= i <= cs.len(),
    ensures
        i <= skip_gap(cs, i) <= cs.len(),
    decreases cs.len() - i,
{
    if i < cs.len() {
        if cs[i] == '\n' {
            if !(i + 1 < cs.len() && cs[i + 1] == '\n') {
                lemma_skip_gap(cs, i + 1);
            }
        } else if unicode_white_space(cs[i]) {
            lemma_skip_gap(cs, i + 1);
        }
    }
}

pub(crate) proof fn lemma_skip_white(cs: Seq<char>, i: int)
    requires
        0 <= i <= cs.len(),
    ensures
        i <= skip_white(cs, i) <= cs.len(),
    decreases cs.len() - i,
{
    if i < cs.len() && unicode_white_space(cs[i]) {
        lemma_skip_white(cs, i + 1);
    }
}

proof fn lemma_skip_white_back(cs: Seq<char>, i: int)
    requires
        0 <= i <= cs.len(),
    ensures
        0 <= skip_white_back(cs, i) <= i,
    decreases i,
{
    if i > 0 && unicode_white_space(cs[i - 1]) {
        lemma_skip_white_back(cs, i - 1);
    }
}

fn run_end_idx(cs: &Vec<char>, i: usize, cls: CharClass, big: bool) -> (r: usize)
    requires
        i <= cs@.len(),
    ensures
        r == run_end(cs@, i as int, cls, big),
        i <= r <= cs@.len(),
{
    let n = cs.len();
    let mut j = i;
    while j < n && class(cs[j], big) == cls && cs[j] != '\n'
        invariant
            i <= j <= n,
            n == cs@.len(),
            run_end(cs@, j as int, cls, big) == run_end(cs@, i as int, cls, big),
        decreases n - j,
    {
        j = j + 1;
    }
    j
}

fn run_start_idx(cs: &Vec<char>, i: usize, cls: CharClass, big: bool) -> (r: usize)
    requires
        i <= cs@.len(),
    ensures
        r == run_start(cs@, i as int, cls, big),
        r <= i,
{
    let mut j = i;
    while j > 0 && class(cs[j - 1], big) == cls && cs[j - 1] != '\n'
        invariant
            j <= i <= cs@.len(),
            run_start(cs@, j as int, cls, big) == run_start(cs@, i as int, cls, big),
        decreases j,
    {
        j = j - 1;
    }
    j
}

pub(crate) fn skip_white_idx(cs: &Vec<char>, i: usize) -> (r: usize)
    requires
        i <= cs@.len(),
    ensures
        r == skip_white(cs@, i as int),
        i <= r <= cs@.len(),
{
    let n = cs.len();
    let mut j = i;
    while j < n && is_whitespace(cs[j])
        invariant
            i <= j <= n,
            n == cs@.len(),
            skip_white(cs@, j as int) == skip_white(cs@, i as int),
        decreases n - j,
    {
        j = j + 1;
    }
    j
}

fn skip_white_back_idx(cs: &Vec<char>, i: usize) -> (r: usize)
    requires
        i <= cs@.len(),
    ensures
        r == skip_white_back(cs@, i as int),
        r <= i,
{
    let mut j = i;
    while j > 0 && is_whitespace(cs[j - 1])
        invariant
            j <= i <= cs@.len(),
            skip_white_back(cs@, j as int) == skip_white_back(cs@, i as int),
        decreases j,
    {
        j = j - 1;
    }
    j
}

fn skip_gap_idx(cs: &Vec<char>, i: usize) -> (r: usize)
    requires
        i <= cs@.len(),
    ensures
        r == skip_gap(cs@, i as int),
        i <= r <= cs@.len(),
{
    let n = cs.len();
    let mut j = i;
    while j < n
        invariant
            i <= j <= n,
            n == cs@.len(),
            skip_gap(cs@, j as int) == skip_gap(cs@, i as int),
        decreases n - j,
    {
        let c = cs[j];
        if c == '\n' {
            if j + 1 < n && cs[j + 1] == '\n' {
                return j + 1;
            }
            j = j + 1;
        } else if is_whitespace(c) {
            j = j + 1;
        } else {
            return j;
        }
    }
    j
}

pub(crate) fn word_forward_idx(cs: &Vec<char>, k: usize, big: bool) -> (r: usize)
    requires
        k <= cs@.len(),
    ensures
        r == word_forward_of(cs@, k as int, big),
        k <= r <= cs@.len(),
{
    if k >= cs.len() {
        return k;
    }
    let c = class(cs[k], big);
    let i = if c != CharClass::Blank {
        run_end_idx(cs, k, c, big)
    } else {
        k
    };
    skip_gap_idx(cs, i)
}

pub(crate) fn word_backward_idx(cs: &Vec<char>, k: usize, big: bool) -> (r: usize)
    requires
        k <= cs@.len(),
    ensures
        r == word_backward_of(cs@, k as int, big),
        r <= k,
{
    let i = skip_white_back_idx(cs, k);
    if i == 0 {
        return 0;
    }
    let target = class(cs[i - 1], big);
    let r = run_start_idx(cs, i, target, big);
    if r < i {
        r
    } else {
        i - 1
    }
}

fn word_end_idx(cs: &Vec<char>, k: usize, big: bool) -> (r: usize)
    requires
        k <= cs@.len(),
    ensures
        r == word_end_of(cs@, k as int, big),
        k <= r <= cs@.len(),
        cs@.len() > 0 ==> r < cs@.len() || r == k,
{
    let n = cs.len();
    let i0 = if k < n {
        k + 1
    } else {
        n
    };
    let i = skip_white_idx(cs, i0);
    if i >= n {
        let last = if n > 0 {
            n - 1
        } else {
            0
        };
        if last >= k {
            last
        } else {
            k
        }
    } else {
        let r = run_end_idx(cs, i, class(cs[i], big), big);
        if r > i {
            r - 1
        } else {
            i
        }
    }
}

// ---------------------------------------------------------------------------
// Finding a char on the line
// ---------------------------------------------------------------------------
/// The first index in `[a, b)` holding `t`.
pub open spec fn find_first(cs: Seq<char>, a: int, b: int, t: char) -> Option<int>
    decreases b - a,
{
    if a >= b {
        None
    } else if cs[a] == t {
        Some(a)
    } else {
        find_first(cs, a + 1, b, t)
    }
}

/// The last index in `[a, b)` holding `t`.
pub open spec fn find_last(cs: Seq<char>, a: int, b: int, t: char) -> Option<int>
    decreases b - a,
{
    if a >= b {
        None
    } else if cs[b - 1] == t {
        Some(b - 1)
    } else {
        find_last(cs, a, b - 1, t)
    }
}

/// `f` / `F` / `t` / `T` within the line of `k`: the next (or previous) `target`,
/// one char short of it with `till`.
pub open spec fn find_char_of(cs: Seq<char>, k: int, target: char, forward: bool, till: bool) -> Option<int> {
    if forward {
        let start = if k < cs.len() {
            k + 1
        } else {
            k
        };
        let end = end_of_line(cs, k);
        if start > end {
            None
        } else {
            match find_first(cs, start, end, target) {
                Some(j) => Some(
                    if till {
                        j - 1
                    } else {
                        j
                    },
                ),
                None => None,
            }
        }
    } else {
        match find_last(cs, start_of_line(cs, k), k, target) {
            Some(j) => Some(
                if till {
                    j + 1
                } else {
                    j
                },
            ),
            None => None,
        }
    }
}

proof fn lemma_find_first(cs: Seq<char>, a: int, b: int, t: char)
    requires
        0 <= a,
        b <= cs.len(),
    ensures
        find_first(cs, a, b, t) matches Some(j) ==> a <= j < b && cs[j] == t && forall|i: int|
            a <= i < j ==> cs[i] != t,
        find_first(cs, a, b, t) is None ==> forall|i: int| a <= i < b ==> cs[i] != t,
    decreases b - a,
{
    if a < b && cs[a] != t {
        lemma_find_first(cs, a + 1, b, t);
    }
}

proof fn lemma_find_last(cs: Seq<char>, a: int, b: int, t: char)
    requires
        0 <= a,
        b <= cs.len(),
    ensures
        find_last(cs, a, b, t) matches Some(j) ==> a <= j < b && cs[j] == t && forall|i: int|
            j < i < b ==> cs[i] != t,
        find_last(cs, a, b, t) is None ==> forall|i: int| a <= i < b ==> cs[i] != t,
    decreases b - a,
{
    if a < b && cs[b - 1] != t {
        lemma_find_last(cs, a, b - 1, t);
    }
}

fn find_first_idx(cs: &Vec<char>, a: usize, b: usize, t: char) -> (r: Option<usize>)
    requires
        b <= cs@.len(),
    ensures
        lift(r) == find_first(cs@, a as int, b as int, t),
        r matches Some(j) ==> a <= j < b,
{
    proof {
        lemma_find_first(cs@, a as int, b as int, t);
    }
    let mut i = a;
    while i < b
        invariant
            a <= i,
            b <= cs@.len(),
            find_first(cs@, i as int, b as int, t) == find_first(cs@, a as int, b as int, t),
        decreases b - i,
    {
        if cs[i] == t {
            return Some(i);
        }
        i = i + 1;
    }
    None
}

fn find_last_idx(cs: &Vec<char>, a: usize, b: usize, t: char) -> (r: Option<usize>)
    requires
        b <= cs@.len(),
    ensures
        lift(r) == find_last(cs@, a as int, b as int, t),
        r matches Some(j) ==> a <= j < b,
{
    proof {
        lemma_find_last(cs@, a as int, b as int, t);
    }
    let mut i = b;
    while i > a
        invariant
            i <= b <= cs@.len(),
            find_last(cs@, a as int, i as int, t) == find_last(cs@, a as int, b as int, t),
        decreases i,
    {
        if cs[i - 1] == t {
            return Some(i - 1);
        }
        i = i - 1;
    }
    None
}

fn find_char_idx(cs: &Vec<char>, k: usize, target: char, forward: bool, till: bool) -> (r: Option<
    usize,
>)
    requires
        k <= cs@.len(),
    ensures
        lift(r) == find_char_of(cs@, k as int, target, forward, till),
        r matches Some(j) ==> j <= cs@.len(),
{
    proof {
        lemma_end_of_line(cs@, k as int);
        lemma_start_of_line(cs@, k as int);
    }
    if forward {
        let start = if k < cs.len() {
            k + 1
        } else {
            k
        };
        let end = line_end_idx(cs, k);
        if start > end {
            return None;
        }
        proof {
            lemma_find_first(cs@, start as int, end as int, target);
        }
        match find_first_idx(cs, start, end, target) {
            Some(j) => {
                assert(find_first(cs@, start as int, end as int, target) == Some(j as int));
                Some(
                    if till {
                        j - 1
                    } else {
                        j
                    },
                )
            },
            None => None,
        }
    } else {
        let start = line_start_idx(cs, k);
        proof {
            lemma_find_last(cs@, start as int, k as int, target);
        }
        match find_last_idx(cs, start, k, target) {
            Some(j) => {
                assert(find_last(cs@, start as int, k as int, target) == Some(j as int));
                Some(
                    if till {
                        j + 1
                    } else {
                        j
                    },
                )
            },
            None => None,
        }
    }
}

// ---------------------------------------------------------------------------
// Paragraphs
// ---------------------------------------------------------------------------
/// Start of the line after the line of `i`, or the length.
pub open spec fn next_line_start_of(cs: Seq<char>, i: int) -> int {
    let e = end_of_line(cs, i);
    if e < cs.len() {
        e + 1
    } else {
        cs.len() as int
    }
}

/// Start of the line before the line that starts at `l`, or 0.
pub open spec fn prev_line_start_of(cs: Seq<char>, l: int) -> int {
    if l <= 0 {
        0
    } else {
        start_of_line(cs, l - 1)
    }
}

/// The first empty line at or after line start `line`, or the length.
pub open spec fn empty_line_from(cs: Seq<char>, line: int) -> int
    decreases cs.len() - line,
{
    if 0 <= line < cs.len() {
        if cs[line] == '\n' {
            line
        } else {
            proof {
                lemma_end_of_line(cs, line);
            }
            empty_line_from(cs, next_line_start_of(cs, line))
        }
    } else {
        cs.len() as int
    }
}

/// The first empty line before line start `line` (searching upwards), or 0.
pub open spec fn empty_line_before(cs: Seq<char>, line: int) -> int
    decreases line,
{
    if 0 < line <= cs.len() {
        proof {
            lemma_start_of_line(cs, line - 1);
        }
        let p = prev_line_start_of(cs, line);
        if p >= cs.len() || cs[p] == '\n' {
            p
        } else {
            empty_line_before(cs, p)
        }
    } else {
        0
    }
}

/// Next empty line (`}`) from `k`, or the end of the document.
pub open spec fn paragraph_forward_of(cs: Seq<char>, k: int) -> int {
    empty_line_from(cs, next_line_start_of(cs, k))
}

/// Previous empty line (`{`) from `k`, or the start of the document.
pub open spec fn paragraph_backward_of(cs: Seq<char>, k: int) -> int {
    empty_line_before(cs, start_of_line(cs, k))
}

proof fn lemma_empty_line_from(cs: Seq<char>, line: int)
    requires
        0 <= line <= cs.len(),
    ensures
        line <= empty_line_from(cs, line) <= cs.len(),
        empty_line_from(cs, line) == cs.len() || cs[empty_line_from(cs, line)] == '\n',
    decreases cs.len() - line,
{
    if line < cs.len() && cs[line] != '\n' {
        lemma_end_of_line(cs, line);
        lemma_empty_line_from(cs, next_line_start_of(cs, line));
    }
}

proof fn lemma_empty_line_before(cs: Seq<char>, line: int)
    requires
        0 <= line <= cs.len(),
    ensures
        0 <= empty_line_before(cs, line) <= line,
        line > 0 ==> empty_line_before(cs, line) < line,
    decreases line,
{
    if 0 < line {
        lemma_start_of_line(cs, line - 1);
        let p = prev_line_start_of(cs, line);
        if !(p >= cs.len() || cs[p] == '\n') {
            lemma_empty_line_before(cs, p);
        }
    }
}

fn next_line_start_idx(cs: &Vec<char>, i: usize) -> (r: usize)
    requires
        i <= cs@.len(),
    ensures
        r == next_line_start_of(cs@, i as int),
        r <= cs@.len(),
        i < cs@.len() ==> i < r,
{
    proof {
        lemma_end_of_line(cs@, i as int);
    }
    let e = line_end_idx(cs, i);
    if e < cs.len() {
        e + 1
    } else {
        cs.len()
    }
}

fn paragraph_forward_idx(cs: &Vec<char>, k: usize) -> (r: usize)
    requires
        k <= cs@.len(),
    ensures
        r == paragraph_forward_of(cs@, k as int),
        r <= cs@.len(),
{
    let n = cs.len();
    let mut line = next_line_start_idx(cs, k);
    while line < n
        invariant
            line <= n,
            n == cs@.len(),
            empty_line_from(cs@, line as int) == paragraph_forward_of(cs@, k as int),
        decreases n - line,
    {
        if cs[line] == '\n' {
            return line;
        }
        line = next_line_start_idx(cs, line);
    }
    n
}

fn paragraph_backward_idx(cs: &Vec<char>, k: usize) -> (r: usize)
    requires
        k <= cs@.len(),
    ensures
        r == paragraph_backward_of(cs@, k as int),
        r <= k,
{
    proof {
        lemma_start_of_line(cs@, k as int);
    }
    let n = cs.len();
    let mut line = line_start_idx(cs, k);
    while line > 0
        invariant
            line <= k <= n,
            n == cs@.len(),
            empty_line_before(cs@, line as int) == paragraph_backward_of(cs@, k as int),
        decreases line,
    {
        proof {
            lemma_start_of_line(cs@, line as int - 1);
        }
        line = line_start_idx(cs, line - 1);
        if line >= n || cs[line] == '\n' {
            return line;
        }
    }
    0
}

// ---------------------------------------------------------------------------
// Brackets
// ---------------------------------------------------------------------------
/// Count of `x` in `[a, b)` (not at index `skip`) minus the count of `y` there.
pub open spec fn tally(cs: Seq<char>, a: int, b: int, x: char, y: char, skip: int) -> int
    decreases b - a,
{
    if b <= a {
        0
    } else {
        tally(cs, a, b - 1, x, y, skip) + (if cs[b - 1] == x && b - 1 != skip {
            1int
        } else {
            0int
        }) - (if cs[b - 1] == y {
            1int
        } else {
            0int
        })
    }
}

pub proof fn lemma_tally_front(cs: Seq<char>, a: int, b: int, x: char, y: char, skip: int)
    requires
        0 <= a < b <= cs.len(),
    ensures
        tally(cs, a, b, x, y, skip) == (if cs[a] == x && a != skip {
            1int
        } else {
            0int
        }) - (if cs[a] == y {
            1int
        } else {
            0int
        }) + tally(cs, a + 1, b, x, y, skip),
    decreases b - a,
{
    if a + 1 < b {
        lemma_tally_front(cs, a, b - 1, x, y, skip);
        assert(tally(cs, a + 1, b, x, y, skip) == tally(cs, a + 1, b - 1, x, y, skip) + (if cs[b
            - 1] == x && b - 1 != skip {
            1int
        } else {
            0int
        }) - (if cs[b - 1] == y {
            1int
        } else {
            0int
        }));
    } else {
        assert(tally(cs, a, a, x, y, skip) == 0);
        assert(tally(cs, a + 1, b, x, y, skip) == 0);
    }
}

/// The first `i` in `[from, len)` where the `open`/`close` tally from `b`
/// through `i` balances.
pub open spec fn balance_forward(cs: Seq<char>, b: int, from: int, open: char, close: char) -> Option<
    int,
>
    decreases cs.len() - from,
{
    if from >= cs.len() || from < 0 {
        None
    } else if tally(cs, b, from + 1, open, close, -1) == 0 {
        Some(from)
    } else {
        balance_forward(cs, b, from + 1, open, close)
    }
}

/// The last `i` in `[0, from]` where the `close`/`open` tally from `i`
/// through `b` balances.
pub open spec fn balance_backward(cs: Seq<char>, b: int, from: int, open: char, close: char) -> Option<
    int,
>
    decreases from + 1,
{
    if from < 0 {
        None
    } else if tally(cs, from, b + 1, close, open, -1) == 0 {
        Some(from)
    } else {
        balance_backward(cs, b, from - 1, open, close)
    }
}

pub open spec fn is_bracket(c: char) -> bool {
    c == '(' || c == ')' || c == '[' || c == ']' || c == '{' || c == '}'
}

/// The first index in `[a, b)` holding a bracket.
pub open spec fn find_bracket(cs: Seq<char>, a: int, b: int) -> Option<int>
    decreases b - a,
{
    if a >= b {
        None
    } else if is_bracket(cs[a]) {
        Some(a)
    } else {
        find_bracket(cs, a + 1, b)
    }
}

pub open spec fn opener_of(c: char) -> char {
    if c == '(' || c == ')' {
        '('
    } else if c == '[' || c == ']' {
        '['
    } else {
        '{'
    }
}

pub open spec fn closer_of(c: char) -> char {
    if c == '(' || c == ')' {
        ')'
    } else if c == '[' || c == ']' {
        ']'
    } else {
        '}'
    }
}

/// Matching bracket (`%`) for the first bracket at or after `k` on its line,
/// honoring nesting across the whole document.
pub open spec fn matching_pair_of(cs: Seq<char>, k: int) -> Option<int> {
    match find_bracket(cs, k, end_of_line(cs, k)) {
        Some(b) => {
            let c = cs[b];
            let open = opener_of(c);
            let close = closer_of(c);
            if c == open {
                balance_forward(cs, b, b, open, close)
            } else {
                balance_backward(cs, b, b, open, close)
            }
        },
        None => None,
    }
}

proof fn lemma_find_bracket(cs: Seq<char>, a: int, b: int)
    requires
        0 <= a,
        b <= cs.len(),
    ensures
        find_bracket(cs, a, b) matches Some(j) ==> a <= j < b && is_bracket(cs[j]),
    decreases b - a,
{
    if a < b && !is_bracket(cs[a]) {
        lemma_find_bracket(cs, a + 1, b);
    }
}

proof fn lemma_balance_forward(cs: Seq<char>, b: int, from: int, open: char, close: char)
    ensures
        balance_forward(cs, b, from, open, close) matches Some(j) ==> from <= j < cs.len() && 0 <= j,
    decreases cs.len() - from,
{
    if !(from >= cs.len() || from < 0) && tally(cs, b, from + 1, open, close, -1) != 0 {
        lemma_balance_forward(cs, b, from + 1, open, close);
    }
}

proof fn lemma_balance_backward(cs: Seq<char>, b: int, from: int, open: char, close: char)
    ensures
        balance_backward(cs, b, from, open, close) matches Some(j) ==> 0 <= j <= from,
    decreases from + 1,
{
    if from >= 0 && tally(cs, from, b + 1, close, open, -1) != 0 {
        lemma_balance_backward(cs, b, from - 1, open, close);
    }
}

/// Forward scan for the bracket closing the opener at `b`.
fn balance_forward_idx(cs: &Vec<char>, b: usize, open: char, close: char) -> (r: Option<usize>)
    requires
        b < cs@.len(),
        cs@[b as int] == open,
        open != close,
    ensures
        lift(r) == balance_forward(cs@, b as int, b as int, open, close),
        r matches Some(j) ==> j < cs@.len(),
{
    proof {
        lemma_balance_forward(cs@, b as int, b as int, open, close);
    }
    let n = cs.len();
    let mut depth: usize = 0;
    let mut i = b;
    while i < n
        invariant
            b <= i <= n,
            n == cs@.len(),
            cs@[b as int] == open,
            open != close,
            depth as int == tally(cs@, b as int, i as int, open, close, -1),
            i == b ==> depth == 0,
            i > b ==> depth >= 1,
            depth <= i - b,
            balance_forward(cs@, b as int, i as int, open, close) == balance_forward(
                cs@,
                b as int,
                b as int,
                open,
                close,
            ),
        decreases n - i,
    {
        let c = cs[i];
        if c == open {
            depth = depth + 1;
        } else if c == close {
            depth = depth - 1;
        }
        if depth == 0 {
            return Some(i);
        }
        i = i + 1;
    }
    None
}

/// Backward scan for the bracket opening the closer at `b`.
fn balance_backward_idx(cs: &Vec<char>, b: usize, open: char, close: char) -> (r: Option<usize>)
    requires
        b < cs@.len(),
        cs@[b as int] == close,
        open != close,
    ensures
        lift(r) == balance_backward(cs@, b as int, b as int, open, close),
        r matches Some(j) ==> j <= b,
{
    proof {
        lemma_balance_backward(cs@, b as int, b as int, open, close);
    }
    let n = cs.len();
    let mut depth: usize = 0;
    let mut i = b + 1;
    while i > 0
        invariant
            n == cs@.len(),
            i <= b + 1,
            b < cs@.len(),
            cs@[b as int] == close,
            open != close,
            depth as int == tally(cs@, i as int, b + 1, close, open, -1),
            i == b + 1 ==> depth == 0,
            i <= b ==> depth >= 1,
            depth <= b + 1 - i,
            balance_backward(cs@, b as int, i - 1, open, close) == balance_backward(
                cs@,
                b as int,
                b as int,
                open,
                close,
            ),
        decreases i,
    {
        proof {
            lemma_tally_front(cs@, i - 1, b + 1, close, open, -1);
        }
        let c = cs[i - 1];
        if c == close {
            depth = depth + 1;
        } else if c == open {
            depth = depth - 1;
        }
        if depth == 0 {
            return Some(i - 1);
        }
        i = i - 1;
    }
    None
}

fn find_bracket_idx(cs: &Vec<char>, a: usize, b: usize) -> (r: Option<usize>)
    requires
        b <= cs@.len(),
    ensures
        lift(r) == find_bracket(cs@, a as int, b as int),
{
    proof {
        lemma_find_bracket(cs@, a as int, b as int);
    }
    let mut i = a;
    while i < b
        invariant
            a <= i,
            b <= cs@.len(),
            find_bracket(cs@, i as int, b as int) == find_bracket(cs@, a as int, b as int),
        decreases b - i,
    {
        let c = cs[i];
        if c == '(' || c == ')' || c == '[' || c == ']' || c == '{' || c == '}' {
            return Some(i);
        }
        i = i + 1;
    }
    None
}

fn matching_pair_idx(cs: &Vec<char>, k: usize) -> (r: Option<usize>)
    requires
        k <= cs@.len(),
    ensures
        lift(r) == matching_pair_of(cs@, k as int),
        r matches Some(j) ==> j < cs@.len(),
{
    proof {
        lemma_end_of_line(cs@, k as int);
        lemma_find_bracket(cs@, k as int, end_of_line(cs@, k as int));
    }
    let end = line_end_idx(cs, k);
    match find_bracket_idx(cs, k, end) {
        Some(b) => {
            let c = cs[b];
            let (open, close) = if c == '(' || c == ')' {
                ('(', ')')
            } else if c == '[' || c == ']' {
                ('[', ']')
            } else {
                ('{', '}')
            };
            if c == open {
                balance_forward_idx(cs, b, open, close)
            } else {
                balance_backward_idx(cs, b, open, close)
            }
        },
        None => None,
    }
}


// ---------------------------------------------------------------------------
// Text objects
// ---------------------------------------------------------------------------
/// The first index at or after `i` that is not a space or tab.
pub open spec fn skip_space(cs: Seq<char>, i: int) -> int
    decreases cs.len() - i,
{
    if i < cs.len() && (cs[i] == ' ' || cs[i] == '\t') {
        skip_space(cs, i + 1)
    } else {
        i
    }
}

/// The first index at or before `i` that follows a char other than a space or tab.
pub open spec fn skip_space_back(cs: Seq<char>, i: int) -> int
    decreases i,
{
    if i > 0 && (cs[i - 1] == ' ' || cs[i - 1] == '\t') {
        skip_space_back(cs, i - 1)
    } else {
        i
    }
}

/// The word (or whitespace run) under `k`, as a char range. `around` also
/// takes the trailing spaces, or the leading ones when there are none trailing.
pub open spec fn word_object_of(cs: Seq<char>, k: int, big: bool, around: bool) -> (int, int) {
    if k >= cs.len() {
        (k, k)
    } else {
        let target = class_of(cs[k], big);
        let start = run_start(cs, k, target, big);
        let end = run_end(cs, k, target, big);
        if !around || target == CharClass::Blank {
            (start, end)
        } else {
            let around_end = skip_space(cs, end);
            if around_end > end {
                (start, around_end)
            } else {
                (skip_space_back(cs, start), end)
            }
        }
    }
}

/// Indices in `[a, b)` that hold `q`, in order.
pub open spec fn quote_positions(cs: Seq<char>, a: int, b: int, q: char) -> Seq<int>
    decreases b - a,
{
    if b <= a {
        Seq::empty()
    } else {
        quote_positions(cs, a, b - 1, q) + (if cs[b - 1] == q {
            seq![b - 1]
        } else {
            Seq::empty()
        })
    }
}

/// Taking `qs` two at a time from index `i` (an even index), the first pair
/// `(qs[i], qs[i + 1])` whose closing index is at least `k`.
pub open spec fn first_pair(qs: Seq<int>, i: int, k: int) -> Option<(int, int)>
    decreases qs.len() - i,
{
    if i < 0 || i + 1 >= qs.len() {
        None
    } else if k <= qs[i + 1] {
        Some((qs[i], qs[i + 1]))
    } else {
        first_pair(qs, i + 2, k)
    }
}

/// Matching-quote text object on the line of `k` (`i"`, `a'`, ...).
pub open spec fn quote_object_of(cs: Seq<char>, k: int, q: char, around: bool) -> Option<(int, int)> {
    let qs = quote_positions(cs, start_of_line(cs, k), end_of_line(cs, k), q);
    match first_pair(qs, 0, k) {
        Some((open, close)) => Some(
            if around {
                (open, close + 1)
            } else {
                (open + 1, close)
            },
        ),
        None => None,
    }
}

/// The last index `i < end` scanned down from `from` that holds `open` with the
/// `close`/`open` tally after it (up to `end`, not counting `k`) balanced.
pub open spec fn enclosing_search(cs: Seq<char>, k: int, end: int, from: int, open: char, close: char) -> Option<int>
    decreases from,
{
    if from <= 0 {
        None
    } else if cs[from - 1] == open && tally(cs, from, end, close, open, k) == 0 {
        Some(from - 1)
    } else {
        enclosing_search(cs, k, end, from - 1, open, close)
    }
}

/// The opener of the innermost `open`/`close` pair around `k`.
pub open spec fn enclosing_open_of(cs: Seq<char>, k: int, open: char, close: char) -> Option<int> {
    let end = if k < cs.len() {
        k + 1
    } else {
        k
    };
    enclosing_search(cs, k, end, end, open, close)
}

/// Enclosing bracket-pair text object (`i(`, `a{`, ...), honoring nesting.
pub open spec fn pair_object_of(cs: Seq<char>, k: int, open: char, close: char, around: bool) -> Option<(int, int)> {
    match enclosing_open_of(cs, k, open, close) {
        Some(o) => match balance_forward(cs, o, o, open, close) {
            Some(c) => Some(
                if around {
                    (o, c + 1)
                } else {
                    (o + 1, c)
                },
            ),
            None => None,
        },
        None => None,
    }
}

/// The char range of the text object `object` around `k`.
pub open spec fn text_object_of(cs: Seq<char>, k: int, object: char, around: bool) -> Option<(int, int)> {
    if object == 'w' {
        Some(word_object_of(cs, k, false, around))
    } else if object == 'W' {
        Some(word_object_of(cs, k, true, around))
    } else if object == '"' || object == '\'' || object == '`' {
        quote_object_of(cs, k, object, around)
    } else if object == '(' || object == ')' || object == 'b' {
        pair_object_of(cs, k, '(', ')', around)
    } else if object == '[' || object == ']' {
        pair_object_of(cs, k, '[', ']', around)
    } else if object == '{' || object == '}' || object == 'B' {
        pair_object_of(cs, k, '{', '}', around)
    } else if object == '<' || object == '>' {
        pair_object_of(cs, k, '<', '>', around)
    } else {
        None
    }
}

proof fn lemma_skip_space(cs: Seq<char>, i: int)
    requires
        0 <= i <= cs.len(),
    ensures
        i <= skip_space(cs, i) <= cs.len(),
    decreases cs.len() - i,
{
    if i < cs.len() && (cs[i] == ' ' || cs[i] == '\t') {
        lemma_skip_space(cs, i + 1);
    }
}

proof fn lemma_skip_space_back(cs: Seq<char>, i: int)
    requires
        0 <= i <= cs.len(),
    ensures
        0 <= skip_space_back(cs, i) <= i,
    decreases i,
{
    if i > 0 && (cs[i - 1] == ' ' || cs[i - 1] == '\t') {
        lemma_skip_space_back(cs, i - 1);
    }
}

pub proof fn lemma_word_object(cs: Seq<char>, k: int, big: bool, around: bool)
    requires
        0 <= k <= cs.len(),
    ensures
        0 <= word_object_of(cs, k, big, around).0 <= k <= word_object_of(cs, k, big, around).1
            <= cs.len(),
{
    if k < cs.len() {
        let target = class_of(cs[k], big);
        lemma_run_start(cs, k, target, big);
        lemma_run_end(cs, k, target, big);
        let start = run_start(cs, k, target, big);
        let end = run_end(cs, k, target, big);
        lemma_skip_space(cs, end);
        lemma_skip_space_back(cs, start);
    }
}

proof fn lemma_quote_positions(cs: Seq<char>, a: int, b: int, q: char)
    requires
        0 <= a,
        b <= cs.len(),
    ensures
        forall|i: int|
            0 <= i < quote_positions(cs, a, b, q).len() ==> a <= #[trigger] quote_positions(
                cs,
                a,
                b,
                q,
            )[i] < b && cs[quote_positions(cs, a, b, q)[i]] == q,
        forall|i: int, j: int|
            0 <= i < j < quote_positions(cs, a, b, q).len() ==> #[trigger] quote_positions(
                cs,
                a,
                b,
                q,
            )[i] < #[trigger] quote_positions(cs, a, b, q)[j],
    decreases b - a,
{
    if a < b {
        lemma_quote_positions(cs, a, b - 1, q);
        let p = quote_positions(cs, a, b - 1, q);
        let full = quote_positions(cs, a, b, q);
        if cs[b - 1] == q {
            assert(full == p + seq![b - 1]);
            assert forall|i: int| 0 <= i < full.len() implies a <= #[trigger] full[i] < b && cs[full[i]] == q by {
                if i < p.len() {
                    assert(full[i] == p[i]);
                }
            }
            assert forall|i: int, j: int| 0 <= i < j < full.len() implies #[trigger] full[i] < #[trigger] full[j] by {
                assert(full[i] == p[i]);
                if j < p.len() {
                    assert(full[j] == p[j]);
                }
            }
        } else {
            assert(full == p + Seq::<int>::empty());
            assert(full =~= p);
        }
    }
}

proof fn lemma_first_pair(qs: Seq<int>, i: int, k: int, lo: int, hi: int)
    requires
        forall|j: int| 0 <= j < qs.len() ==> lo <= #[trigger] qs[j] < hi,
        forall|j: int, l: int| 0 <= j < l < qs.len() ==> #[trigger] qs[j] < #[trigger] qs[l],
    ensures
        first_pair(qs, i, k) matches Some((o, c)) ==> lo <= o < c < hi && k <= c,
    decreases qs.len() - i,
{
    if !(i < 0 || i + 1 >= qs.len()) {
        if k <= qs[i + 1] {
            assert(qs[i] < qs[i + 1]);
        } else {
            lemma_first_pair(qs, i + 2, k, lo, hi);
        }
    }
}

pub proof fn lemma_quote_object(cs: Seq<char>, k: int, q: char, around: bool)
    requires
        0 <= k <= cs.len(),
    ensures
        quote_object_of(cs, k, q, around) matches Some((a, b)) ==> 0 <= a <= b <= cs.len(),
{
    lemma_start_of_line(cs, k);
    lemma_end_of_line(cs, k);
    let s = start_of_line(cs, k);
    let e = end_of_line(cs, k);
    let qs = quote_positions(cs, s, e, q);
    lemma_quote_positions(cs, s, e, q);
    lemma_first_pair(qs, 0, k, s, e);
}

proof fn lemma_enclosing_search(cs: Seq<char>, k: int, end: int, from: int, open: char, close: char)
    requires
        from <= cs.len(),
    ensures
        enclosing_search(cs, k, end, from, open, close) matches Some(o) ==> 0 <= o < from
            && cs[o] == open,
    decreases from,
{
    if from > 0 && !(cs[from - 1] == open && tally(cs, from, end, close, open, k) == 0) {
        lemma_enclosing_search(cs, k, end, from - 1, open, close);
    }
}

pub proof fn lemma_pair_object(cs: Seq<char>, k: int, open: char, close: char, around: bool)
    requires
        0 <= k <= cs.len(),
        open != close,
    ensures
        pair_object_of(cs, k, open, close, around) matches Some((a, b)) ==> 0 <= a <= b
            <= cs.len(),
{
    let end = if k < cs.len() {
        k + 1
    } else {
        k
    };
    lemma_enclosing_search(cs, k, end, end, open, close);
    if let Some(o) = enclosing_open_of(cs, k, open, close) {
        lemma_balance_forward(cs, o, o, open, close);
        if let Some(c) = balance_forward(cs, o, o, open, close) {
            assert(tally(cs, o, o, open, close, -1) == 0);
            assert(tally(cs, o, o + 1, open, close, -1) == 1);
            lemma_balance_forward(cs, o, o + 1, open, close);
        }
    }
}

fn skip_space_idx(cs: &Vec<char>, i: usize) -> (r: usize)
    requires
        i <= cs@.len(),
    ensures
        r == skip_space(cs@, i as int),
{
    let n = cs.len();
    let mut j = i;
    while j < n && (cs[j] == ' ' || cs[j] == '\t')
        invariant
            i <= j <= n,
            n == cs@.len(),
            skip_space(cs@, j as int) == skip_space(cs@, i as int),
        decreases n - j,
    {
        j = j + 1;
    }
    j
}

fn skip_space_back_idx(cs: &Vec<char>, i: usize) -> (r: usize)
    requires
        i <= cs@.len(),
    ensures
        r == skip_space_back(cs@, i as int),
{
    let mut j = i;
    while j > 0 && (cs[j - 1] == ' ' || cs[j - 1] == '\t')
        invariant
            j <= i <= cs@.len(),
            skip_space_back(cs@, j as int) == skip_space_back(cs@, i as int),
        decreases j,
    {
        j = j - 1;
    }
    j
}

fn word_object_idx(cs: &Vec<char>, k: usize, big: bool, around: bool) -> (r: (usize, usize))
    requires
        k <= cs@.len(),
    ensures
        (r.0 as int, r.1 as int) == word_object_of(cs@, k as int, big, around),
{
    if k >= cs.len() {
        return (k, k);
    }
    let target = class(cs[k], big);
    let start = run_start_idx(cs, k, target, big);
    let end = run_end_idx(cs, k, target, big);
    if !around || target == CharClass::Blank {
        return (start, end);
    }
    let around_end = skip_space_idx(cs, end);
    if around_end > end {
        return (start, around_end);
    }
    (skip_space_back_idx(cs, start), end)
}

fn quote_positions_idx(cs: &Vec<char>, a: usize, b: usize, q: char) -> (v: Vec<usize>)
    requires
        a <= b <= cs@.len(),
    ensures
        v@.len() == quote_positions(cs@, a as int, b as int, q).len(),
        forall|i: int|
            0 <= i < v@.len() ==> v@[i] as int == #[trigger] quote_positions(
                cs@,
                a as int,
                b as int,
                q,
            )[i],
{
    let mut v: Vec<usize> = Vec::new();
    let mut j = a;
    while j < b
        invariant
            a <= j <= b <= cs@.len(),
            v@.len() == quote_positions(cs@, a as int, j as int, q).len(),
            forall|i: int|
                0 <= i < v@.len() ==> v@[i] as int == #[trigger] quote_positions(
                    cs@,
                    a as int,
                    j as int,
                    q,
                )[i],
        decreases b - j,
    {
        let ghost before = quote_positions(cs@, a as int, j as int, q);
        if cs[j] == q {
            v.push(j);
        }
        j = j + 1;
        assert(quote_positions(cs@, a as int, j as int, q) == before + (if cs@[j - 1] == q {
            seq![j - 1]
        } else {
            Seq::<int>::empty()
        }));
    }
    v
}

fn quote_object_idx(cs: &Vec<char>, k: usize, q: char, around: bool) -> (r: Option<(usize, usize)>)
    requires
        k <= cs@.len(),
    ensures
        lift_pair(r) == quote_object_of(cs@, k as int, q, around),
{
    proof {
        lemma_start_of_line(cs@, k as int);
        lemma_end_of_line(cs@, k as int);
    }
    let s = line_start_idx(cs, k);
    let e = line_end_idx(cs, k);
    let qs = quote_positions_idx(cs, s, e, q);
    let ghost sq = quote_positions(cs@, s as int, e as int, q);
    proof {
        lemma_quote_positions(cs@, s as int, e as int, q);
    }
    let nq = qs.len();
    assert(quote_object_of(cs@, k as int, q, around) == (match first_pair(sq, 0, k as int) {
        Some((open, close)) => Some(
            if around {
                (open, close + 1)
            } else {
                (open + 1, close)
            },
        ),
        None => None,
    }));
    let mut i: usize = 0;
    while i < nq && nq - i > 1
        invariant
            nq == qs@.len(),
            qs@.len() == sq.len(),
            forall|j: int| 0 <= j < qs@.len() ==> qs@[j] as int == #[trigger] sq[j],
            forall|j: int| 0 <= j < sq.len() ==> s <= #[trigger] sq[j] < e,
            e <= cs@.len(),
            i <= qs@.len(),
            first_pair(sq, i as int, k as int) == first_pair(sq, 0, k as int),
            quote_object_of(cs@, k as int, q, around) == (match first_pair(sq, 0, k as int) {
                Some((open, close)) => Some(
                    if around {
                        (open, close + 1)
                    } else {
                        (open + 1, close)
                    },
                ),
                None => None,
            }),
        decreases qs@.len() - i,
    {
        let open = qs[i];
        let close = qs[i + 1];
        assert(open as int == sq[i as int]);
        assert(close as int == sq[i + 1]);
        if k <= close {
            assert(first_pair(sq, i as int, k as int) == Some((sq[i as int], sq[i + 1])));
            if around {
                return Some((open, close + 1));
            } else {
                return Some((open + 1, close));
            }
        }
        i = i + 2;
    }
    None
}

fn enclosing_open_idx(cs: &Vec<char>, k: usize, open: char, close: char) -> (r: Option<usize>)
    requires
        k <= cs@.len(),
        open != close,
    ensures
        lift(r) == enclosing_open_of(cs@, k as int, open, close),
        r matches Some(j) ==> j < cs@.len() && cs@[j as int] == open,
{
    let n = cs.len();
    let end = if k < n {
        k + 1
    } else {
        k
    };
    proof {
        lemma_enclosing_search(cs@, k as int, end as int, end as int, open, close);
    }
    assert(enclosing_open_of(cs@, k as int, open, close) == enclosing_search(
        cs@,
        k as int,
        end as int,
        end as int,
        open,
        close,
    ));
    let mut depth: usize = 0;
    let mut i = end;
    while i > 0
        invariant
            i <= end <= n,
            n == cs@.len(),
            open != close,
            depth as int == tally(cs@, i as int, end as int, close, open, k as int),
            depth <= end - i,
            enclosing_open_of(cs@, k as int, open, close) == enclosing_search(
                cs@,
                k as int,
                end as int,
                end as int,
                open,
                close,
            ),
            enclosing_search(cs@, k as int, end as int, i as int, open, close) == enclosing_search(
                cs@,
                k as int,
                end as int,
                end as int,
                open,
                close,
            ),
        decreases i,
    {
        proof {
            lemma_tally_front(cs@, i - 1, end as int, close, open, k as int);
        }
        let c = cs[i - 1];
        if c == close && i - 1 != k {
            depth = depth + 1;
        } else if c == open {
            if depth == 0 {
                assert(enclosing_search(cs@, k as int, end as int, i as int, open, close) == Some(
                    i - 1,
                ));
                return Some(i - 1);
            }
            depth = depth - 1;
        }
        i = i - 1;
    }
    None
}

fn pair_object_idx(cs: &Vec<char>, k: usize, open: char, close: char, around: bool) -> (r: Option<
    (usize, usize),
>)
    requires
        k <= cs@.len(),
        open != close,
    ensures
        lift_pair(r) == pair_object_of(cs@, k as int, open, close, around),
{
    let n = cs.len();
    proof {
        lemma_pair_object(cs@, k as int, open, close, around);
    }
    match enclosing_open_idx(cs, k, open, close) {
        Some(o) => {
            match balance_forward_idx(cs, o, open, close) {
                Some(c) => {
                    assert(balance_forward(cs@, o as int, o as int, open, close) == Some(c as int));
                    if around {
                        Some((o, c + 1))
                    } else {
                        Some((o + 1, c))
                    }
                },
                None => None,
            }
        },
        None => None,
    }
}

fn text_object_idx(cs: &Vec<char>, k: usize, object: char, around: bool) -> (r: Option<(usize, usize)>)
    requires
        k <= cs@.len(),
    ensures
        lift_pair(r) == text_object_of(cs@, k as int, object, around),
{
    if object == 'w' {
        Some(word_object_idx(cs, k, false, around))
    } else if object == 'W' {
        Some(word_object_idx(cs, k, true, around))
    } else if object == '"' || object == '\'' || object == '`' {
        quote_object_idx(cs, k, object, around)
    } else if object == '(' || object == ')' || object == 'b' {
        pair_object_idx(cs, k, '(', ')', around)
    } else if object == '[' || object == ']' {
        pair_object_idx(cs, k, '[', ']', around)
    } else if object == '{' || object == '}' || object == 'B' {
        pair_object_idx(cs, k, '{', '}', around)
    } else if object == '<' || object == '>' {
        pair_object_idx(cs, k, '<', '>', around)
    } else {
        None
    }
}

// ---------------------------------------------------------------------------
// Counted and document motions
// ---------------------------------------------------------------------------
/// `n` chars right of `k`, clamped to the end of its line.
pub open spec fn nth_char_right_of(cs: Seq<char>, k: int, n: int) -> int {
    let e = end_of_line(cs, k);
    if k + n < e {
        k + n
    } else {
        e
    }
}

/// `n` chars left of `k`, clamped to the start of its line.
pub open spec fn nth_char_left_of(cs: Seq<char>, k: int, n: int) -> int {
    let s = start_of_line(cs, k);
    if k - n > s {
        k - n
    } else {
        s
    }
}

/// From line start `start`, the start of the line `cnt` rows below,
/// staying on the last line that has a line after it.
pub open spec fn step_down(cs: Seq<char>, start: int, cnt: nat) -> int
    decreases cnt,
{
    if cnt == 0 {
        start
    } else {
        let e = end_of_line(cs, start);
        if e + 1 < cs.len() {
            step_down(cs, e + 1, (cnt - 1) as nat)
        } else {
            start
        }
    }
}

/// From line start `start`, the start of the line `cnt` rows above, clamped to the first.
pub open spec fn step_up(cs: Seq<char>, start: int, cnt: nat) -> int
    decreases cnt,
{
    if cnt == 0 || start <= 0 {
        start
    } else {
        step_up(cs, start_of_line(cs, start - 1), (cnt - 1) as nat)
    }
}

/// Start of the line `n` rows below `k` (`j`), clamped to the last line.
pub open spec fn line_down_of(cs: Seq<char>, k: int, n: nat) -> int {
    step_down(cs, start_of_line(cs, k), n)
}

/// Start of the line `n` rows above `k` (`k`), clamped to the first line.
pub open spec fn line_up_of(cs: Seq<char>, k: int, n: nat) -> int {
    step_up(cs, start_of_line(cs, k), n)
}

/// Length of `cs[..t]` without its trailing newlines.
pub open spec fn trim_newlines(cs: Seq<char>, t: int) -> int
    decreases t,
{
    if t > 0 && cs[t - 1] == '\n' {
        trim_newlines(cs, t - 1)
    } else {
        t
    }
}

/// First non-blank of the first line (`gg`).
pub open spec fn doc_start_of(cs: Seq<char>) -> int {
    first_nonblank_of(cs, 0)
}

/// First non-blank of the last non-empty line (`G`).
pub open spec fn doc_end_of(cs: Seq<char>) -> int {
    first_nonblank_of(cs, start_of_line(cs, trim_newlines(cs, cs.len() as int)))
}

/// First non-blank of the 1-based `line`, clamped to the last line.
pub open spec fn goto_line_of(cs: Seq<char>, line: nat) -> int {
    first_nonblank_of(
        cs,
        step_down(
            cs,
            0,
            if line > 1 {
                (line - 1) as nat
            } else {
                0
            },
        ),
    )
}

pub proof fn lemma_first_nonblank(cs: Seq<char>, k: int)
    requires
        0 <= k <= cs.len(),
    ensures
        start_of_line(cs, k) <= first_nonblank_of(cs, k) <= end_of_line(cs, k),
        start_of_line(cs, first_nonblank_of(cs, k)) == start_of_line(cs, k),
{
    lemma_start_of_line(cs, k);
    lemma_end_of_line(cs, k);
    let s = start_of_line(cs, k);
    let e = end_of_line(cs, k);
    lemma_skip_blank(cs, s, e);
    let r = first_nonblank_of(cs, k);
    lemma_start_of_line_same(cs, k, s);
    lemma_start_of_line_same(cs, r, s);
    if r > k {
        lemma_start_of_line_same(cs, r, k);
    } else {
        lemma_start_of_line_same(cs, k, r);
    }
}

pub(crate) proof fn lemma_skip_blank(cs: Seq<char>, j: int, e: int)
    requires
        0 <= j <= e <= cs.len(),
    ensures
        j <= skip_blank(cs, j, e) <= e,
    decreases e - j,
{
    if j < e && unicode_white_space(cs[j]) {
        lemma_skip_blank(cs, j + 1, e);
    }
}

pub proof fn lemma_step_down(cs: Seq<char>, start: int, cnt: nat)
    requires
        0 <= start <= cs.len(),
    ensures
        0 <= step_down(cs, start, cnt) <= cs.len(),
        start <= step_down(cs, start, cnt),
    decreases cnt,
{
    if cnt > 0 {
        lemma_end_of_line(cs, start);
        let e = end_of_line(cs, start);
        if e + 1 < cs.len() {
            lemma_step_down(cs, e + 1, (cnt - 1) as nat);
        }
    }
}

pub proof fn lemma_step_up(cs: Seq<char>, start: int, cnt: nat)
    requires
        0 <= start <= cs.len(),
    ensures
        0 <= step_up(cs, start, cnt) <= start,
    decreases cnt,
{
    if cnt > 0 && start > 0 {
        lemma_start_of_line(cs, start - 1);
        lemma_step_up(cs, start_of_line(cs, start - 1), (cnt - 1) as nat);
    }
}

proof fn lemma_trim_newlines(cs: Seq<char>, t: int)
    requires
        0 <= t <= cs.len(),
    ensures
        0 <= trim_newlines(cs, t) <= t,
    decreases t,
{
    if t > 0 && cs[t - 1] == '\n' {
        lemma_trim_newlines(cs, t - 1);
    }
}

pub(crate) fn step_down_idx(cs: &Vec<char>, start: usize, cnt: usize) -> (r: usize)
    requires
        start <= cs@.len(),
    ensures
        r == step_down(cs@, start as int, cnt as nat),
        r <= cs@.len(),
{
    proof {
        lemma_step_down(cs@, start as int, cnt as nat);
    }
    let n = cs.len();
    let mut cur = start;
    let mut left = cnt;
    while left > 0
        invariant
            cur <= n,
            n == cs@.len(),
            step_down(cs@, cur as int, left as nat) == step_down(cs@, start as int, cnt as nat),
        decreases left,
    {
        proof {
            lemma_end_of_line(cs@, cur as int);
        }
        let e = line_end_idx(cs, cur);
        if e < n && e + 1 < n {
            cur = e + 1;
            left = left - 1;
        } else {
            return cur;
        }
    }
    cur
}

pub(crate) fn step_up_idx(cs: &Vec<char>, start: usize, cnt: usize) -> (r: usize)
    requires
        start <= cs@.len(),
    ensures
        r == step_up(cs@, start as int, cnt as nat),
        r <= start,
{
    proof {
        lemma_step_up(cs@, start as int, cnt as nat);
    }
    let mut cur = start;
    let mut left = cnt;
    while left > 0 && cur > 0
        invariant
            cur <= start <= cs@.len(),
            step_up(cs@, cur as int, left as nat) == step_up(cs@, start as int, cnt as nat),
        decreases left,
    {
        proof {
            lemma_start_of_line(cs@, cur as int - 1);
        }
        cur = line_start_idx(cs, cur - 1);
        left = left - 1;
    }
    cur
}

fn trim_newlines_idx(cs: &Vec<char>) -> (r: usize)
    ensures
        r == trim_newlines(cs@, cs@.len() as int),
        r <= cs@.len(),
{
    let mut t = cs.len();
    while t > 0 && cs[t - 1] == '\n'
        invariant
            t <= cs@.len(),
            trim_newlines(cs@, t as int) == trim_newlines(cs@, cs@.len() as int),
        decreases t,
    {
        t = t - 1;
    }
    t
}


// ---------------------------------------------------------------------------
// The public motions, over byte offsets
// ---------------------------------------------------------------------------
/// The char index of byte offset `off` in `content`.
pub open spec fn at(content: &str, off: usize) -> int {
    index_of(content@, off as int)
}

/// The byte offset of char index `k` in `content`.
pub open spec fn off(content: &str, k: int) -> usize {
    bpos(content@, k) as usize
}

/// The optional byte offset of an optional char index.
pub open spec fn off_opt(content: &str, k: Option<int>) -> Option<usize> {
    match k {
        Some(j) => Some(off(content, j)),
        None => None,
    }
}

/// The optional byte range of an optional char range.
pub open spec fn range_opt(content: &str, r: Option<(int, int)>) -> Option<Range<usize>> {
    match r {
        Some((a, b)) => Some(Range { start: off(content, a), end: off(content, b) }),
        None => None,
    }
}

/// Decodes `content` and finds the char index of `offset`.
fn open_text(content: &str, offset: usize) -> (res: (Text, usize))
    requires
        is_boundary(content@, offset as int),
    ensures
        res.0.wf(),
        res.0.chars@ == content@,
        res.1 as int == at(content, offset),
        res.1 <= content@.len(),
{
    let t = Text::new(content);
    let k = t.index_at(offset);
    (t, k)
}

/// The byte offset of char `j`, which is a boundary.
fn close_text(t: &Text, j: usize) -> (r: usize)
    requires
        t.wf(),
        j <= t.chars@.len(),
    ensures
        r == bpos(t.chars@, j as int),
        is_boundary(t.chars@, r as int),
        index_of(t.chars@, r as int) == j,
{
    proof {
        lemma_index_of(t.chars@, j as int);
    }
    t.offset(j)
}

/// Byte offset of the start of the line holding `offset`.
pub fn line_start(content: &str, offset: usize) -> (r: usize)
    requires
        is_boundary(content@, offset as int),
    ensures
        r == off(content, start_of_line(content@, at(content, offset))),
        is_boundary(content@, r as int),
        r <= offset,
{
    let (t, k) = open_text(content, offset);
    proof {
        lemma_start_of_line(t.chars@, k as int);
        lemma_bpos_mono(t.chars@, start_of_line(t.chars@, k as int), k as int);
    }
    let j = line_start_idx(&t.chars, k);
    close_text(&t, j)
}

/// Byte offset of the newline ending the line of `offset`, or the length.
pub fn line_end_exclusive(content: &str, offset: usize) -> (r: usize)
    requires
        is_boundary(content@, offset as int),
    ensures
        r == off(content, end_of_line(content@, at(content, offset))),
        is_boundary(content@, r as int),
        offset <= r,
{
    let (t, k) = open_text(content, offset);
    proof {
        lemma_end_of_line(t.chars@, k as int);
        lemma_bpos_mono(t.chars@, k as int, end_of_line(t.chars@, k as int));
    }
    let j = line_end_idx(&t.chars, k);
    close_text(&t, j)
}

/// Offset of the last character on the line (`$`), or the line start if empty.
pub fn line_end(content: &str, offset: usize) -> (r: usize)
    requires
        is_boundary(content@, offset as int),
    ensures
        r == off(content, last_of_line(content@, at(content, offset))),
        is_boundary(content@, r as int),
        start_of_line(content@, at(content, r)) == start_of_line(content@, at(content, offset)),
{
    let (t, k) = open_text(content, offset);
    let ghost cs = t.chars@;
    proof {
        lemma_start_of_line(cs, k as int);
        lemma_end_of_line(cs, k as int);
    }
    let s = line_start_idx(&t.chars, k);
    let e = line_end_idx(&t.chars, k);
    let j = if e > s {
        e - 1
    } else {
        s
    };
    proof {
        if j >= k {
            lemma_start_of_line_same(cs, j as int, k as int);
        } else {
            lemma_start_of_line_same(cs, k as int, j as int);
        }
    }
    close_text(&t, j)
}

/// First non-blank character on the line (`^`), or the line start if all blank.
pub fn first_nonblank(content: &str, offset: usize) -> (r: usize)
    requires
        is_boundary(content@, offset as int),
    ensures
        r == off(content, first_nonblank_of(content@, at(content, offset))),
        is_boundary(content@, r as int),
        start_of_line(content@, at(content, r)) == start_of_line(content@, at(content, offset)),
{
    let (t, k) = open_text(content, offset);
    proof {
        lemma_first_nonblank(t.chars@, k as int);
    }
    let j = first_nonblank_idx(&t.chars, k);
    close_text(&t, j)
}

/// Start of the next word (`w` / `W`).
pub fn word_forward(content: &str, offset: usize, big: bool) -> (r: usize)
    requires
        is_boundary(content@, offset as int),
    ensures
        r == off(content, word_forward_of(content@, at(content, offset), big)),
        is_boundary(content@, r as int),
        offset <= r,
{
    let (t, k) = open_text(content, offset);
    let j = word_forward_idx(&t.chars, k, big);
    proof {
        lemma_bpos_mono(t.chars@, k as int, j as int);
    }
    close_text(&t, j)
}

/// Start of the current or previous word (`b` / `B`).
pub fn word_backward(content: &str, offset: usize, big: bool) -> (r: usize)
    requires
        is_boundary(content@, offset as int),
    ensures
        r == off(content, word_backward_of(content@, at(content, offset), big)),
        is_boundary(content@, r as int),
        r <= offset,
{
    let (t, k) = open_text(content, offset);
    let j = word_backward_idx(&t.chars, k, big);
    proof {
        lemma_bpos_mono(t.chars@, j as int, k as int);
    }
    close_text(&t, j)
}

/// End of the next word (`e` / `E`) — the offset of its last character.
pub fn word_end(content: &str, offset: usize, big: bool) -> (r: usize)
    requires
        is_boundary(content@, offset as int),
    ensures
        r == off(content, word_end_of(content@, at(content, offset), big)),
        is_boundary(content@, r as int),
        offset <= r,
{
    let (t, k) = open_text(content, offset);
    let j = word_end_idx(&t.chars, k, big);
    proof {
        lemma_bpos_mono(t.chars@, k as int, j as int);
    }
    close_text(&t, j)
}

/// `f` / `F` / `t` / `T` within the current line. `till` stops one char short.
pub fn find_char(content: &str, offset: usize, target: char, forward: bool, till: bool) -> (r:
    Option<usize>)
    requires
        is_boundary(content@, offset as int),
    ensures
        r == off_opt(content, find_char_of(content@, at(content, offset), target, forward, till)),
        r matches Some(x) ==> is_boundary(content@, x as int),
{
    let (t, k) = open_text(content, offset);
    match find_char_idx(&t.chars, k, target, forward, till) {
        Some(j) => Some(close_text(&t, j)),
        None => None,
    }
}

/// Next empty line (`}`), or end of document.
pub fn paragraph_forward(content: &str, offset: usize) -> (r: usize)
    requires
        is_boundary(content@, offset as int),
    ensures
        r == off(content, paragraph_forward_of(content@, at(content, offset))),
        is_boundary(content@, r as int),
{
    let (t, k) = open_text(content, offset);
    let j = paragraph_forward_idx(&t.chars, k);
    close_text(&t, j)
}

/// Previous empty line (`{`), or start of document.
pub fn paragraph_backward(content: &str, offset: usize) -> (r: usize)
    requires
        is_boundary(content@, offset as int),
    ensures
        r == off(content, paragraph_backward_of(content@, at(content, offset))),
        is_boundary(content@, r as int),
        r <= offset,
{
    let (t, k) = open_text(content, offset);
    let j = paragraph_backward_idx(&t.chars, k);
    proof {
        lemma_bpos_mono(t.chars@, j as int, k as int);
    }
    close_text(&t, j)
}

/// Matching bracket (`%`) for the first bracket at or after the cursor on the
/// current line. Honors nesting across the whole document.
pub fn matching_pair(content: &str, offset: usize) -> (r: Option<usize>)
    requires
        is_boundary(content@, offset as int),
    ensures
        r == off_opt(content, matching_pair_of(content@, at(content, offset))),
        r matches Some(x) ==> is_boundary(content@, x as int),
{
    let (t, k) = open_text(content, offset);
    match matching_pair_idx(&t.chars, k) {
        Some(j) => Some(close_text(&t, j)),
        None => None,
    }
}

/// The byte range of a text object (`iw`, `i"`, `a(`, …) around the cursor.
/// `around` includes the delimiters (and, for words, adjacent whitespace).
pub fn text_object(content: &str, offset: usize, object: char, around: bool) -> (r: Option<
    Range<usize>,
>)
    requires
        is_boundary(content@, offset as int),
    ensures
        r == range_opt(content, text_object_of(content@, at(content, offset), object, around)),
        r matches Some(x) ==> x.start <= x.end && is_boundary(content@, x.start as int)
            && is_boundary(content@, x.end as int),
{
    let (t, k) = open_text(content, offset);
    let ghost cs = t.chars@;
    proof {
        lemma_word_object(cs, k as int, false, around);
        lemma_word_object(cs, k as int, true, around);
        lemma_quote_object(cs, k as int, object, around);
        lemma_pair_object(cs, k as int, '(', ')', around);
        lemma_pair_object(cs, k as int, '[', ']', around);
        lemma_pair_object(cs, k as int, '{', '}', around);
        lemma_pair_object(cs, k as int, '<', '>', around);
    }
    match text_object_idx(&t.chars, k, object, around) {
        Some((a, b)) => {
            proof {
                lemma_bpos_mono(cs, a as int, b as int);
            }
            let start = close_text(&t, a);
            let end = close_text(&t, b);
            Some(Range { start, end })
        },
        None => None,
    }
}

/// First non-blank of the first line (`gg`).
pub fn doc_start(content: &str) -> (r: usize)
    ensures
        r == off(content, doc_start_of(content@)),
        is_boundary(content@, r as int),
{
    let t = Text::new(content);
    let j = first_nonblank_idx(&t.chars, 0);
    close_text(&t, j)
}

/// Offset `n` characters right of `offset`, clamped to the end of the line.
pub fn nth_char_right(content: &str, offset: usize, n: usize) -> (r: usize)
    requires
        is_boundary(content@, offset as int),
    ensures
        r == off(content, nth_char_right_of(content@, at(content, offset), n as int)),
        is_boundary(content@, r as int),
        offset <= r,
        start_of_line(content@, at(content, r)) == start_of_line(content@, at(content, offset)),
{
    let (t, k) = open_text(content, offset);
    let ghost cs = t.chars@;
    proof {
        lemma_end_of_line(cs, k as int);
    }
    let e = line_end_idx(&t.chars, k);
    let j = if n < e - k {
        k + n
    } else {
        e
    };
    proof {
        lemma_start_of_line_same(cs, j as int, k as int);
        lemma_bpos_mono(cs, k as int, j as int);
    }
    close_text(&t, j)
}

/// Offset `n` characters left of `offset`, clamped to the start of the line.
pub fn nth_char_left(content: &str, offset: usize, n: usize) -> (r: usize)
    requires
        is_boundary(content@, offset as int),
    ensures
        r == off(content, nth_char_left_of(content@, at(content, offset), n as int)),
        is_boundary(content@, r as int),
        r <= offset,
        start_of_line(content@, at(content, r)) == start_of_line(content@, at(content, offset)),
{
    let (t, k) = open_text(content, offset);
    let ghost cs = t.chars@;
    proof {
        lemma_start_of_line(cs, k as int);
    }
    let s = line_start_idx(&t.chars, k);
    let j = if n < k - s {
        k - n
    } else {
        s
    };
    proof {
        lemma_start_of_line_same(cs, k as int, j as int);
        lemma_bpos_mono(cs, j as int, k as int);
    }
    close_text(&t, j)
}

/// Start of the line `n` rows below (`j`), clamped to the last line.
pub fn line_down(content: &str, offset: usize, n: usize) -> (r: usize)
    requires
        is_boundary(content@, offset as int),
    ensures
        r == off(content, line_down_of(content@, at(content, offset), n as nat)),
        is_boundary(content@, r as int),
{
    let (t, k) = open_text(content, offset);
    proof {
        lemma_start_of_line(t.chars@, k as int);
    }
    let s = line_start_idx(&t.chars, k);
    let j = step_down_idx(&t.chars, s, n);
    close_text(&t, j)
}

/// Start of the line `n` rows above (`k`), clamped to the first line.
pub fn line_up(content: &str, offset: usize, n: usize) -> (r: usize)
    requires
        is_boundary(content@, offset as int),
    ensures
        r == off(content, line_up_of(content@, at(content, offset), n as nat)),
        is_boundary(content@, r as int),
        r <= offset,
{
    let (t, k) = open_text(content, offset);
    proof {
        lemma_start_of_line(t.chars@, k as int);
    }
    let s = line_start_idx(&t.chars, k);
    let j = step_up_idx(&t.chars, s, n);
    proof {
        lemma_bpos_mono(t.chars@, j as int, k as int);
    }
    close_text(&t, j)
}

/// First non-blank of the last non-empty line (`G`).
pub fn doc_end(content: &str) -> (r: usize)
    ensures
        r == off(content, doc_end_of(content@)),
        is_boundary(content@, r as int),
{
    let t = Text::new(content);
    let trimmed = trim_newlines_idx(&t.chars);
    proof {
        lemma_start_of_line(t.chars@, trimmed as int);
    }
    let last_line = line_start_idx(&t.chars, trimmed);
    let j = first_nonblank_idx(&t.chars, last_line);
    close_text(&t, j)
}

/// First non-blank of the 1-based `line` (`{count}G` / `{count}gg`), clamped to
/// the last line.
pub fn goto_line(content: &str, line: usize) -> (r: usize)
    ensures
        r == off(content, goto_line_of(content@, line as nat)),
        is_boundary(content@, r as int),
{
    let t = Text::new(content);
    let steps = if line > 1 {
        line - 1
    } else {
        0
    };
    let start = step_down_idx(&t.chars, 0, steps);
    let j = first_nonblank_idx(&t.chars, start);
    close_text(&t, j)
}

// ---------------------------------------------------------------------------
// `%` comes back
// ---------------------------------------------------------------------------
proof fn lemma_tally_swap(cs: Seq<char>, a: int, b: int, x: char, y: char)
    requires
        0 <= a,
        b <= cs.len(),
    ensures
        tally(cs, a, b, x, y, -1) == -tally(cs, a, b, y, x, -1),
    decreases b - a,
{
    if a < b {
        lemma_tally_swap(cs, a, b - 1, x, y);
    }
}

proof fn lemma_tally_split(cs: Seq<char>, a: int, m: int, b: int, x: char, y: char)
    requires
        0 <= a <= m <= b <= cs.len(),
    ensures
        tally(cs, a, b, x, y, -1) == tally(cs, a, m, x, y, -1) + tally(cs, m, b, x, y, -1),
    decreases b - m,
{
    if m < b {
        lemma_tally_split(cs, a, m, b - 1, x, y);
    }
}

/// What `balance_forward` found: the first balancing index from `from`.
proof fn lemma_balance_forward_found(cs: Seq<char>, b: int, from: int, open: char, close: char)
    requires
        0 <= from,
        balance_forward(cs, b, from, open, close) is Some,
    ensures
        ({
            let j = balance_forward(cs, b, from, open, close)->0;
            &&& from <= j < cs.len()
            &&& tally(cs, b, j + 1, open, close, -1) == 0
            &&& forall|x: int| from <= x < j ==> #[trigger] tally(cs, b, x + 1, open, close, -1) != 0
        }),
    decreases cs.len() - from,
{
    if !(from >= cs.len() || from < 0) && tally(cs, b, from + 1, open, close, -1) != 0 {
        lemma_balance_forward_found(cs, b, from + 1, open, close);
    }
}

/// `balance_forward` finds `j` when it balances there and nowhere before.
proof fn lemma_balance_forward_at(cs: Seq<char>, b: int, from: int, j: int, open: char, close: char)
    requires
        0 <= from <= j < cs.len(),
        tally(cs, b, j + 1, open, close, -1) == 0,
        forall|x: int| from <= x < j ==> #[trigger] tally(cs, b, x + 1, open, close, -1) != 0,
    ensures
        balance_forward(cs, b, from, open, close) == Some(j),
    decreases j - from,
{
    if from < j {
        lemma_balance_forward_at(cs, b, from + 1, j, open, close);
    }
}

/// What `balance_backward` found: the last balancing index down from `from`.
proof fn lemma_balance_backward_found(cs: Seq<char>, b: int, from: int, open: char, close: char)
    requires
        balance_backward(cs, b, from, open, close) is Some,
    ensures
        ({
            let i = balance_backward(cs, b, from, open, close)->0;
            &&& 0 <= i <= from
            &&& tally(cs, i, b + 1, close, open, -1) == 0
            &&& forall|x: int| i < x <= from ==> #[trigger] tally(cs, x, b + 1, close, open, -1) != 0
        }),
    decreases from + 1,
{
    if from >= 0 && tally(cs, from, b + 1, close, open, -1) != 0 {
        lemma_balance_backward_found(cs, b, from - 1, open, close);
    }
}

/// `balance_backward` finds `i` when it balances there and nowhere above it.
proof fn lemma_balance_backward_at(cs: Seq<char>, b: int, from: int, i: int, open: char, close: char)
    requires
        0 <= i <= from,
        tally(cs, i, b + 1, close, open, -1) == 0,
        forall|x: int| i < x <= from ==> #[trigger] tally(cs, x, b + 1, close, open, -1) != 0,
    ensures
        balance_backward(cs, b, from, open, close) == Some(i),
    decreases from - i,
{
    if i < from {
        lemma_balance_backward_at(cs, b, from - 1, i, open, close);
    }
}

/// A tally from an opener that stays off zero stays positive.
proof fn lemma_tally_positive(cs: Seq<char>, k: int, j: int, open: char, close: char)
    requires
        0 <= k < j <= cs.len(),
        cs[k] == open,
        open != close,
        forall|x: int| k <= x < j ==> #[trigger] tally(cs, k, x + 1, open, close, -1) != 0,
    ensures
        forall|x: int| k <= x < j ==> #[trigger] tally(cs, k, x + 1, open, close, -1) > 0,
    decreases j - k,
{
    if j - 1 > k {
        lemma_tally_positive(cs, k, j - 1, open, close);
        assert(tally(cs, k, j - 2 + 1, open, close, -1) > 0);
        assert(tally(cs, k, j - 1 + 1, open, close, -1) != 0);
    } else {
        lemma_tally_one(cs, k, open, close);
    }
}

/// A tally back from a closer that stays off zero stays positive.
proof fn lemma_tally_positive_back(cs: Seq<char>, i: int, k: int, open: char, close: char)
    requires
        0 <= i <= k < cs.len(),
        cs[k] == close,
        open != close,
        forall|x: int| i < x <= k ==> #[trigger] tally(cs, x, k + 1, close, open, -1) != 0,
    ensures
        forall|x: int| i < x <= k ==> #[trigger] tally(cs, x, k + 1, close, open, -1) > 0,
    decreases k - i,
{
    if i + 1 < k {
        lemma_tally_positive_back(cs, i + 1, k, open, close);
        lemma_tally_front(cs, i + 1, k + 1, close, open, -1);
        assert(tally(cs, i + 2, k + 1, close, open, -1) > 0);
    } else if i + 1 == k {
        lemma_tally_one(cs, k, close, open);
    }
}

proof fn lemma_tally_one(cs: Seq<char>, k: int, x: char, y: char)
    requires
        0 <= k < cs.len(),
    ensures
        tally(cs, k, k + 1, x, y, -1) == (if cs[k] == x {
            1int
        } else {
            0int
        }) - (if cs[k] == y {
            1int
        } else {
            0int
        }),
{
    assert(tally(cs, k, k, x, y, -1) == 0);
}

proof fn lemma_bracket_classes(c: char)
    requires
        is_bracket(c),
    ensures
        opener_of(c) != closer_of(c),
        c == opener_of(c) || c == closer_of(c),
        is_bracket(opener_of(c)) && is_bracket(closer_of(c)),
        opener_of(opener_of(c)) == opener_of(c) && closer_of(opener_of(c)) == closer_of(c),
        opener_of(closer_of(c)) == opener_of(c) && closer_of(closer_of(c)) == closer_of(c),
        c != '\n',
{
}

/// A bracket's `%` finds the bracket itself first.
proof fn lemma_on_bracket(cs: Seq<char>, k: int)
    requires
        0 <= k < cs.len(),
        is_bracket(cs[k]),
    ensures
        find_bracket(cs, k, end_of_line(cs, k)) == Some(k),
{
    lemma_end_of_line(cs, k);
    assert(cs[k] != '\n');
}

/// `%` on a bracket that has a match, then `%` on that match, comes back.
pub proof fn lemma_matching_pair_returns(cs: Seq<char>, k: int)
    requires
        0 <= k < cs.len(),
        is_bracket(cs[k]),
        matching_pair_of(cs, k) is Some,
    ensures
        matching_pair_of(cs, matching_pair_of(cs, k)->0) == Some(k),
{
    let c = cs[k];
    lemma_bracket_classes(c);
    lemma_on_bracket(cs, k);
    let open = opener_of(c);
    let close = closer_of(c);
    if c == open {
        lemma_balance_forward_found(cs, k, k, open, close);
        let j = balance_forward(cs, k, k, open, close)->0;
        lemma_tally_one(cs, k, open, close);
        lemma_tally_positive(cs, k, j, open, close);
        assert(j > k);
        assert(tally(cs, k, j - 1 + 1, open, close, -1) > 0);
        assert(cs[j] == close);
        lemma_bracket_classes(cs[j]);
        lemma_on_bracket(cs, j);
        lemma_tally_swap(cs, k, j + 1, open, close);
        assert forall|x: int| k < x <= j implies #[trigger] tally(cs, x, j + 1, close, open, -1)
            != 0 by {
            lemma_tally_split(cs, k, x, j + 1, open, close);
            lemma_tally_swap(cs, x, j + 1, open, close);
            assert(tally(cs, k, x - 1 + 1, open, close, -1) > 0);
        }
        lemma_balance_backward_at(cs, j, j, k, open, close);
    } else {
        lemma_balance_backward_found(cs, k, k, open, close);
        let i = balance_backward(cs, k, k, open, close)->0;
        lemma_tally_one(cs, k, close, open);
        lemma_tally_positive_back(cs, i, k, open, close);
        assert(i < k);
        assert(tally(cs, i + 1, k + 1, close, open, -1) > 0);
        lemma_tally_front(cs, i, k + 1, close, open, -1);
        assert(cs[i] == open);
        lemma_bracket_classes(cs[i]);
        lemma_on_bracket(cs, i);
        lemma_tally_swap(cs, i, k + 1, open, close);
        assert forall|x: int| i <= x < k implies #[trigger] tally(cs, i, x + 1, open, close, -1)
            != 0 by {
            lemma_tally_split(cs, i, x + 1, k + 1, open, close);
            lemma_tally_swap(cs, x + 1, k + 1, open, close);
            assert(tally(cs, x + 1, k + 1, close, open, -1) > 0);
        }
        lemma_balance_forward_at(cs, i, i, k, open, close);
    }
}

// ---------------------------------------------------------------------------
// What the motions are for
// ---------------------------------------------------------------------------
/// The whitespace skipped from `i` is a run of whitespace, ended by a
/// non-whitespace char or the end of the text.
proof fn lemma_skip_white_run(cs: Seq<char>, i: int)
    requires
        0 <= i <= cs.len(),
    ensures
        i <= skip_white(cs, i) <= cs.len(),
        forall|m: int| i <= m < skip_white(cs, i) ==> unicode_white_space(#[trigger] cs[m]),
        skip_white(cs, i) < cs.len() ==> !unicode_white_space(cs[skip_white(cs, i)]),
    decreases cs.len() - i,
{
    if i < cs.len() && unicode_white_space(cs[i]) {
        lemma_skip_white_run(cs, i + 1);
    }
}

/// In WORD mode a word run from `i` is the run of non-whitespace chars there.
proof fn lemma_run_end_big(cs: Seq<char>, i: int)
    requires
        0 <= i <= cs.len(),
    ensures
        i <= run_end(cs, i, CharClass::Word, true) <= cs.len(),
        forall|m: int|
            i <= m < run_end(cs, i, CharClass::Word, true) ==> !unicode_white_space(#[trigger] cs[m]),
        run_end(cs, i, CharClass::Word, true) < cs.len() ==> unicode_white_space(
            cs[run_end(cs, i, CharClass::Word, true)],
        ),
    decreases cs.len() - i,
{
    if i < cs.len() && class_of(cs[i], true) == CharClass::Word && cs[i] != '\n' {
        lemma_run_end_big(cs, i + 1);
    }
}

/// In WORD mode the word run ending at `i` is the run of non-whitespace chars there.
proof fn lemma_run_start_big(cs: Seq<char>, i: int)
    requires
        0 <= i <= cs.len(),
    ensures
        0 <= run_start(cs, i, CharClass::Word, true) <= i,
        forall|m: int|
            run_start(cs, i, CharClass::Word, true) <= m < i ==> !unicode_white_space(#[trigger] cs[m]),
        run_start(cs, i, CharClass::Word, true) > 0 ==> unicode_white_space(
            cs[run_start(cs, i, CharClass::Word, true) - 1],
        ),
    decreases i,
{
    if i > 0 && class_of(cs[i - 1], true) == CharClass::Word && cs[i - 1] != '\n' {
        lemma_run_start_big(cs, i - 1);
    }
}

/// `E` (end of WORD): when some non-whitespace char follows `k` (such as the
/// one at `j`), the cursor lands on the last char of the first WORD after
/// `k`: the chars after `k` up to that WORD's start `s` (returned) are
/// whitespace, the chars from `s` to the landing char are not, and the char
/// after it is whitespace or the end of the text. Punctuation does not end
/// a WORD.
pub proof fn law_word_end_big(cs: Seq<char>, k: int, j: int) -> (s: int)
    requires
        0 <= k < j < cs.len(),
        !unicode_white_space(cs[j]),
    ensures
        k < s <= word_end_of(cs, k, true) < cs.len(),
        forall|m: int| k < m < s ==> unicode_white_space(#[trigger] cs[m]),
        forall|m: int| s <= m <= word_end_of(cs, k, true) ==> !unicode_white_space(#[trigger] cs[m]),
        word_end_of(cs, k, true) + 1 == cs.len() || unicode_white_space(
            cs[word_end_of(cs, k, true) + 1],
        ),
{
    lemma_skip_white_run(cs, k + 1);
    let i = skip_white(cs, k + 1);
    if i > j {
        assert(unicode_white_space(cs[j]));
    }
    assert(class_of(cs[i], true) == CharClass::Word);
    assert('\n' as u32 == 10);
    assert(cs[i] != '\n');
    lemma_run_end_big(cs, i);
    i
}

/// `iW` (inner WORD) with the cursor on a non-whitespace char: the range
/// holding the cursor in which every char is non-whitespace, as long as it
/// can be: the char before it and the char at its end are whitespace or the
/// ends of the text. Punctuation does not end a WORD.
pub proof fn law_inner_word_object_big(cs: Seq<char>, k: int)
    requires
        0 <= k < cs.len(),
        !unicode_white_space(cs[k]),
    ensures
        text_object_of(cs, k, 'W', false) matches Some((a, b)) && {
            &&& 0 <= a <= k < b <= cs.len()
            &&& forall|m: int| a <= m < b ==> !unicode_white_space(#[trigger] cs[m])
            &&& (a == 0 || unicode_white_space(cs[a - 1]))
            &&& (b == cs.len() || unicode_white_space(cs[b]))
        },
{
    assert(class_of(cs[k], true) == CharClass::Word);
    assert('\n' as u32 == 10);
    assert(cs[k] != '\n');
    lemma_run_end_big(cs, k);
    lemma_run_start_big(cs, k);
    let a = run_start(cs, k, CharClass::Word, true);
    let b = run_end(cs, k, CharClass::Word, true);
    assert forall|m: int| a <= m < b implies !unicode_white_space(#[trigger] cs[m]) by {
        if m < k {
        } else {
        }
    }
}

/// `F` / `T`: a backward find lands on the nearest `target` before the
/// cursor on its line (`T` one char after it); none when the line has no
/// `target` before the cursor.
pub proof fn law_find_backward(cs: Seq<char>, k: int, target: char)
    requires
        0 <= k <= cs.len(),
    ensures
        find_char_of(cs, k, target, false, false) matches Some(j) ==> {
            &&& start_of_line(cs, k) <= j < k
            &&& cs[j] == target
            &&& forall|m: int| j < m < k ==> cs[m] != target
        },
        find_char_of(cs, k, target, false, false) is None ==> forall|m: int|
            start_of_line(cs, k) <= m < k ==> cs[m] != target,
        find_char_of(cs, k, target, false, true) == (match find_char_of(cs, k, target, false, false) {
            Some(j) => Some(j + 1),
            None => None,
        }),
{
    lemma_start_of_line(cs, k);
    lemma_find_last(cs, start_of_line(cs, k), k, target);
}

/// `f` / `t`: a forward find lands on the nearest `target` after the cursor
/// on its line (`t` one char before it); none when the line has no `target`
/// after the cursor.
pub proof fn law_find_forward(cs: Seq<char>, k: int, target: char)
    requires
        0 <= k < cs.len(),
    ensures
        find_char_of(cs, k, target, true, false) matches Some(j) ==> {
            &&& k < j < end_of_line(cs, k)
            &&& cs[j] == target
            &&& forall|m: int| k < m < j ==> cs[m] != target
        },
        find_char_of(cs, k, target, true, false) is None ==> forall|m: int|
            k < m < end_of_line(cs, k) ==> cs[m] != target,
        find_char_of(cs, k, target, true, true) == (match find_char_of(cs, k, target, true, false) {
            Some(j) => Some(j - 1),
            None => None,
        }),
{
    lemma_end_of_line(cs, k);
    if k + 1 <= end_of_line(cs, k) {
        lemma_find_first(cs, k + 1, end_of_line(cs, k), target);
    }
}

/// `G`: when the text holds a char other than a newline (such as the one
/// at `j`), the cursor lands on a line that holds one, after which only
/// newlines follow: the last non-empty line.
pub proof fn law_doc_end_last_nonempty_line(cs: Seq<char>, j: int)
    requires
        0 <= j < cs.len(),
        cs[j] != '\n',
    ensures
        0 <= doc_end_of(cs) < cs.len(),
        start_of_line(cs, doc_end_of(cs)) < end_of_line(cs, doc_end_of(cs)),
        forall|m: int| end_of_line(cs, doc_end_of(cs)) <= m < cs.len() ==> #[trigger] cs[m] == '\n',
{
    lemma_trim_newlines_run(cs, cs.len() as int);
    let t = trim_newlines(cs, cs.len() as int);
    if t <= j {
        assert(cs[j] == '\n');
    }
    lemma_start_of_line(cs, t);
    let s = start_of_line(cs, t);
    assert(cs[t - 1] != '\n');
    assert(s < t) by {
        if s == t {
            assert(cs[s - 1] == '\n');
        }
    }
    lemma_end_of_line(cs, s);
    lemma_end_of_line_same(cs, s, t);
    lemma_end_of_line(cs, t);
    assert(end_of_line(cs, t) == t);
    let e = end_of_line(cs, s);
    lemma_skip_blank(cs, s, e);
    let r = first_nonblank_of(cs, t);
    assert(start_of_line(cs, t) == s);
    assert(s <= r < e);
    lemma_start_of_line_same(cs, r, s);
    lemma_end_of_line_same(cs, s, r);
}

/// Past `trim_newlines(cs, t)` up to `t` there are only newlines, and the
/// char before it is not one.
proof fn lemma_trim_newlines_run(cs: Seq<char>, t: int)
    requires
        0 <= t <= cs.len(),
    ensures
        0 <= trim_newlines(cs, t) <= t,
        forall|m: int| trim_newlines(cs, t) <= m < t ==> #[trigger] cs[m] == '\n',
        trim_newlines(cs, t) > 0 ==> cs[trim_newlines(cs, t) - 1] != '\n',
    decreases t,
{
    if t > 0 && cs[t - 1] == '\n' {
        lemma_trim_newlines_run(cs, t - 1);
    }
}

/// A word run of a non-blank class from `i`: every char in it has that
/// class, and the char that ends it does not.
proof fn lemma_run_end_class(cs: Seq<char>, i: int, cls: CharClass, big: bool)
    requires
        0 <= i <= cs.len(),
        cls != CharClass::Blank,
    ensures
        i <= run_end(cs, i, cls, big) <= cs.len(),
        forall|m: int| i <= m < run_end(cs, i, cls, big) ==> class_of(#[trigger] cs[m], big) == cls,
        run_end(cs, i, cls, big) < cs.len() ==> class_of(cs[run_end(cs, i, cls, big)], big) != cls,
    decreases cs.len() - i,
{
    assert('\n' as u32 == 10);
    if i < cs.len() && class_of(cs[i], big) == cls && cs[i] != '\n' {
        lemma_run_end_class(cs, i + 1, cls, big);
    }
}

/// A word run of a non-blank class ending at `i`: every char in it has that
/// class, and the char before it does not.
proof fn lemma_run_start_class(cs: Seq<char>, i: int, cls: CharClass, big: bool)
    requires
        0 <= i <= cs.len(),
        cls != CharClass::Blank,
    ensures
        0 <= run_start(cs, i, cls, big) <= i,
        forall|m: int| run_start(cs, i, cls, big) <= m < i ==> class_of(#[trigger] cs[m], big) == cls,
        run_start(cs, i, cls, big) > 0 ==> class_of(cs[run_start(cs, i, cls, big) - 1], big) != cls,
    decreases i,
{
    assert('\n' as u32 == 10);
    if i > 0 && class_of(cs[i - 1], big) == cls && cs[i - 1] != '\n' {
        lemma_run_start_class(cs, i - 1, cls, big);
    }
}

/// The gap skipped from `i` is whitespace, ended by a non-whitespace char,
/// an empty line, or the end of the text.
proof fn lemma_skip_gap_run(cs: Seq<char>, i: int)
    requires
        0 <= i <= cs.len(),
    ensures
        i <= skip_gap(cs, i) <= cs.len(),
        forall|m: int| i <= m < skip_gap(cs, i) ==> unicode_white_space(#[trigger] cs[m]),
        skip_gap(cs, i) < cs.len() ==> !unicode_white_space(cs[skip_gap(cs, i)]) || (i < skip_gap(
            cs,
            i,
        ) && cs[skip_gap(cs, i)] == '\n' && cs[skip_gap(cs, i) - 1] == '\n'),
    decreases cs.len() - i,
{
    assert('\n' as u32 == 10);
    if i < cs.len() {
        if cs[i] == '\n' {
            if !(i + 1 < cs.len() && cs[i + 1] == '\n') {
                lemma_skip_gap_run(cs, i + 1);
            }
        } else if unicode_white_space(cs[i]) {
            lemma_skip_gap_run(cs, i + 1);
        }
    }
}

/// The whitespace skipped back from `i` is a run of whitespace, preceded by
/// a non-whitespace char or the start of the text.
proof fn lemma_skip_white_back_run(cs: Seq<char>, i: int)
    requires
        0 <= i <= cs.len(),
    ensures
        0 <= skip_white_back(cs, i) <= i,
        forall|m: int| skip_white_back(cs, i) <= m < i ==> unicode_white_space(#[trigger] cs[m]),
        skip_white_back(cs, i) > 0 ==> !unicode_white_space(cs[skip_white_back(cs, i) - 1]),
    decreases i,
{
    if i > 0 && unicode_white_space(cs[i - 1]) {
        lemma_skip_white_back_run(cs, i - 1);
    }
}

/// `W` (next WORD) from a non-whitespace char: the cursor passes the rest
/// of its WORD, which ends at `e` (returned) at whitespace or the end of the
/// text, then the whitespace after it, and lands on the next non-whitespace
/// char, on an empty line, or at the end of the text.
pub proof fn law_word_forward_big(cs: Seq<char>, k: int) -> (e: int)
    requires
        0 <= k < cs.len(),
        !unicode_white_space(cs[k]),
    ensures
        k < e <= word_forward_of(cs, k, true) <= cs.len(),
        forall|m: int| k <= m < e ==> !unicode_white_space(#[trigger] cs[m]),
        e < cs.len() ==> unicode_white_space(cs[e]),
        forall|m: int| e <= m < word_forward_of(cs, k, true) ==> unicode_white_space(#[trigger] cs[m]),
        word_forward_of(cs, k, true) == cs.len() || !unicode_white_space(
            cs[word_forward_of(cs, k, true)],
        ) || (cs[word_forward_of(cs, k, true)] == '\n' && cs[word_forward_of(cs, k, true) - 1]
            == '\n'),
{
    assert(class_of(cs[k], true) == CharClass::Word);
    assert('\n' as u32 == 10);
    lemma_run_end_big(cs, k);
    let e = run_end(cs, k, CharClass::Word, true);
    lemma_skip_gap_run(cs, e);
    e
}

/// `B` (previous WORD) when a non-whitespace char stands before `k` (such as
/// the one at `j`): the cursor passes back over the whitespace before `k`,
/// which starts at `e` (returned), and lands on the start of the WORD that
/// ends there: a run of non-whitespace chars preceded by whitespace or the
/// start of the text.
pub proof fn law_word_backward_big(cs: Seq<char>, k: int, j: int) -> (e: int)
    requires
        0 <= j < k <= cs.len(),
        !unicode_white_space(cs[j]),
    ensures
        0 <= word_backward_of(cs, k, true) < e <= k,
        forall|m: int| word_backward_of(cs, k, true) <= m < e ==> !unicode_white_space(#[trigger] cs[m]),
        forall|m: int| e <= m < k ==> unicode_white_space(#[trigger] cs[m]),
        word_backward_of(cs, k, true) == 0 || unicode_white_space(cs[word_backward_of(cs, k, true) - 1]),
{
    lemma_skip_white_back_run(cs, k);
    let i = skip_white_back(cs, k);
    if i <= j {
        assert(unicode_white_space(cs[j]));
    }
    assert(class_of(cs[i - 1], true) == CharClass::Word);
    assert('\n' as u32 == 10);
    lemma_run_start_big(cs, i);
    i
}

/// `e` (end of word): when some non-whitespace char follows `k` (such as the
/// one at `j`), the cursor lands on the last char of the first word after
/// `k`: past whitespace up to the word's start `s` (returned), a run of
/// chars of one class (word chars, or punctuation), ended by a char of
/// another class or the end of the text.
pub proof fn law_word_end_small(cs: Seq<char>, k: int, j: int) -> (s: int)
    requires
        0 <= k < j < cs.len(),
        !unicode_white_space(cs[j]),
    ensures
        k < s <= word_end_of(cs, k, false) < cs.len(),
        class_of(cs[s], false) != CharClass::Blank,
        forall|m: int| k < m < s ==> unicode_white_space(#[trigger] cs[m]),
        forall|m: int|
            s <= m <= word_end_of(cs, k, false) ==> class_of(#[trigger] cs[m], false) == class_of(
                cs[s],
                false,
            ),
        word_end_of(cs, k, false) + 1 == cs.len() || class_of(cs[word_end_of(cs, k, false) + 1], false)
            != class_of(cs[s], false),
{
    lemma_skip_white_run(cs, k + 1);
    let i = skip_white(cs, k + 1);
    if i > j {
        assert(unicode_white_space(cs[j]));
    }
    assert('\n' as u32 == 10);
    assert(cs[i] != '\n');
    lemma_run_end_class(cs, i, class_of(cs[i], false), false);
    i
}

/// `iw` (inner word) with the cursor on a non-whitespace char: the longest
/// range around the cursor whose chars all have the cursor char's class
/// (word chars, or punctuation).
pub proof fn law_inner_word_object_small(cs: Seq<char>, k: int)
    requires
        0 <= k < cs.len(),
        !unicode_white_space(cs[k]),
    ensures
        text_object_of(cs, k, 'w', false) matches Some((a, b)) && {
            &&& 0 <= a <= k < b <= cs.len()
            &&& forall|m: int| a <= m < b ==> class_of(#[trigger] cs[m], false) == class_of(cs[k], false)
            &&& (a == 0 || class_of(cs[a - 1], false) != class_of(cs[k], false))
            &&& (b == cs.len() || class_of(cs[b], false) != class_of(cs[k], false))
        },
{
    let c = class_of(cs[k], false);
    assert('\n' as u32 == 10);
    assert(cs[k] != '\n');
    lemma_run_end_class(cs, k, c, false);
    lemma_run_start_class(cs, k, c, false);
}

/// The blanks skipped from `j` toward `e` are whitespace, ended by a
/// non-whitespace char or `e`.
proof fn lemma_skip_blank_run(cs: Seq<char>, j: int, e: int)
    requires
        0 <= j <= e <= cs.len(),
    ensures
        j <= skip_blank(cs, j, e) <= e,
        forall|m: int| j <= m < skip_blank(cs, j, e) ==> unicode_white_space(#[trigger] cs[m]),
        skip_blank(cs, j, e) < e ==> !unicode_white_space(cs[skip_blank(cs, j, e)]),
    decreases e - j,
{
    if j < e && unicode_white_space(cs[j]) {
        lemma_skip_blank_run(cs, j + 1, e);
    }
}

/// `^`: the first non-whitespace char of the cursor's line, with only
/// whitespace before it on the line; the line's start when the line is
/// all whitespace.
pub proof fn law_first_nonblank(cs: Seq<char>, k: int)
    requires
        0 <= k <= cs.len(),
    ensures
        start_of_line(cs, k) <= first_nonblank_of(cs, k) <= end_of_line(cs, k),
        forall|m: int|
            start_of_line(cs, k) <= m < first_nonblank_of(cs, k) ==> unicode_white_space(
                #[trigger] cs[m],
            ),
        (first_nonblank_of(cs, k) < end_of_line(cs, k) && !unicode_white_space(
            cs[first_nonblank_of(cs, k)],
        )) || (first_nonblank_of(cs, k) == start_of_line(cs, k) && forall|m: int|
            start_of_line(cs, k) <= m < end_of_line(cs, k) ==> unicode_white_space(#[trigger] cs[m])),
{
    lemma_start_of_line(cs, k);
    lemma_end_of_line(cs, k);
    lemma_skip_blank_run(cs, start_of_line(cs, k), end_of_line(cs, k));
}

/// From the line start `line`, `empty_line_from` reaches the start of an
/// empty line, or the end, passing no other empty line.
proof fn lemma_empty_line_from_run(cs: Seq<char>, line: int)
    requires
        0 <= line <= cs.len(),
        line == 0 || line == cs.len() || cs[line - 1] == '\n',
    ensures
        line <= empty_line_from(cs, line) <= cs.len(),
        empty_line_from(cs, line) == cs.len() || (cs[empty_line_from(cs, line)] == '\n' && (
        empty_line_from(cs, line) == 0 || cs[empty_line_from(cs, line) - 1] == '\n')),
        forall|m: int|
            line <= m < empty_line_from(cs, line) ==> !(#[trigger] cs[m] == '\n' && (m == 0 || cs[m
                - 1] == '\n')),
    decreases cs.len() - line,
{
    if line < cs.len() && cs[line] != '\n' {
        lemma_end_of_line(cs, line);
        let e = end_of_line(cs, line);
        lemma_empty_line_from_run(cs, next_line_start_of(cs, line));
    }
}

/// `}`: the start of the next empty line after the cursor's line (one whose
/// only char is its newline), passing no other one, or the end of the text.
pub proof fn law_paragraph_forward(cs: Seq<char>, k: int)
    requires
        0 <= k <= cs.len(),
    ensures
        end_of_line(cs, k) < paragraph_forward_of(cs, k) <= cs.len() || paragraph_forward_of(cs, k)
            == cs.len(),
        paragraph_forward_of(cs, k) == cs.len() || (cs[paragraph_forward_of(cs, k)] == '\n'
            && cs[paragraph_forward_of(cs, k) - 1] == '\n'),
        forall|m: int|
            end_of_line(cs, k) < m < paragraph_forward_of(cs, k) ==> !(#[trigger] cs[m] == '\n'
                && cs[m - 1] == '\n'),
{
    lemma_end_of_line(cs, k);
    lemma_empty_line_from_run(cs, next_line_start_of(cs, k));
}

/// From the line start `line`, `empty_line_before` reaches back to the
/// start of an empty line, or the start of the text, passing no other empty line.
proof fn lemma_empty_line_before_run(cs: Seq<char>, line: int)
    requires
        0 <= line <= cs.len(),
        line == 0 || cs[line - 1] == '\n',
    ensures
        0 <= empty_line_before(cs, line) <= line,
        empty_line_before(cs, line) == 0 || (empty_line_before(cs, line) < cs.len()
            && cs[empty_line_before(cs, line)] == '\n' && cs[empty_line_before(cs, line) - 1]
            == '\n'),
        forall|m: int|
            empty_line_before(cs, line) < m < line ==> !(#[trigger] cs[m] == '\n' && cs[m - 1]
                == '\n'),
    decreases line,
{
    if 0 < line {
        lemma_start_of_line(cs, line - 1);
        let p = prev_line_start_of(cs, line);
        if !(p >= cs.len() || cs[p] == '\n') {
            lemma_empty_line_before_run(cs, p);
        }
    }
}

/// `{`: the start of the nearest empty line before the cursor's line,
/// passing no other one, or the start of the text.
pub proof fn law_paragraph_backward(cs: Seq<char>, k: int)
    requires
        0 <= k <= cs.len(),
    ensures
        0 <= paragraph_backward_of(cs, k) <= start_of_line(cs, k),
        paragraph_backward_of(cs, k) == 0 || (cs[paragraph_backward_of(cs, k)] == '\n'
            && cs[paragraph_backward_of(cs, k) - 1] == '\n'),
        forall|m: int|
            paragraph_backward_of(cs, k) < m < start_of_line(cs, k) ==> !(#[trigger] cs[m] == '\n'
                && cs[m - 1] == '\n'),
{
    lemma_start_of_line(cs, k);
    lemma_empty_line_before_run(cs, start_of_line(cs, k));
}

/// `quote_positions` lists, in increasing order, exactly the indices in
/// `[a, b)` that hold `q`.
proof fn lemma_quote_positions_all(cs: Seq<char>, a: int, b: int, q: char)
    requires
        0 <= a,
        b <= cs.len(),
    ensures
        forall|i: int|
            0 <= i < quote_positions(cs, a, b, q).len() ==> a <= #[trigger] quote_positions(
                cs,
                a,
                b,
                q,
            )[i] < b && cs[quote_positions(cs, a, b, q)[i]] == q,
        forall|i: int, j: int|
            0 <= i < j < quote_positions(cs, a, b, q).len() ==> #[trigger] quote_positions(
                cs,
                a,
                b,
                q,
            )[i] < #[trigger] quote_positions(cs, a, b, q)[j],
        forall|x: int|
            a <= x < b && #[trigger] cs[x] == q ==> exists|i: int|
                0 <= i < quote_positions(cs, a, b, q).len() && #[trigger] quote_positions(
                    cs,
                    a,
                    b,
                    q,
                )[i] == x,
    decreases b - a,
{
    if b > a {
        lemma_quote_positions_all(cs, a, b - 1, q);
        let p = quote_positions(cs, a, b - 1, q);
        let qs = quote_positions(cs, a, b, q);
        assert forall|i: int| 0 <= i < p.len() implies qs[i] == p[i] by {}
        assert forall|x: int| a <= x < b && #[trigger] cs[x] == q implies exists|i: int|
            0 <= i < qs.len() && #[trigger] qs[i] == x by {
            if x < b - 1 {
                let i = choose|i: int| 0 <= i < p.len() && #[trigger] p[i] == x;
                assert(qs[i] == x);
            } else {
                assert(qs[p.len() as int] == x);
            }
        }
    }
}

/// A pair `first_pair` picks is two consecutive entries of `qs`, the second
/// at or after `k`.
proof fn lemma_first_pair_at(qs: Seq<int>, i: int, k: int) -> (m: int)
    requires
        first_pair(qs, i, k) is Some,
    ensures
        0 <= i <= m,
        m + 1 < qs.len(),
        first_pair(qs, i, k) == Some((qs[m], qs[m + 1])),
        k <= qs[m + 1],
    decreases qs.len() - i,
{
    if k <= qs[i + 1] {
        i
    } else {
        lemma_first_pair_at(qs, i + 2, k)
    }
}

/// `i"` (inner quotes, and likewise `'` and `` ` ``): the text between two
/// `q` chars on the cursor's line with no `q` between them, the closing one
/// at or after the cursor; `a"` takes the quotes too.
pub proof fn law_inner_quote_object(cs: Seq<char>, k: int, q: char)
    requires
        0 <= k <= cs.len(),
    ensures
        quote_object_of(cs, k, q, false) matches Some((a, b)) ==> {
            &&& start_of_line(cs, k) < a <= b < end_of_line(cs, k)
            &&& cs[a - 1] == q
            &&& cs[b] == q
            &&& k <= b
            &&& forall|m: int| a <= m < b ==> #[trigger] cs[m] != q
        },
        quote_object_of(cs, k, q, true) == (match quote_object_of(cs, k, q, false) {
            Some((a, b)) => Some((a - 1, b + 1)),
            None => None,
        }),
{
    lemma_start_of_line(cs, k);
    lemma_end_of_line(cs, k);
    let st = start_of_line(cs, k);
    let en = end_of_line(cs, k);
    let qs = quote_positions(cs, st, en, q);
    lemma_quote_positions_all(cs, st, en, q);
    if first_pair(qs, 0, k) is Some {
        let m = lemma_first_pair_at(qs, 0, k);
        let open = qs[m];
        let close = qs[m + 1];
        assert(open < close);
        assert forall|x: int| open + 1 <= x < close implies #[trigger] cs[x] != q by {
            if cs[x] == q {
                let i = choose|i: int| 0 <= i < qs.len() && #[trigger] qs[i] == x;
                if i <= m {
                    if i < m {
                        assert(qs[i] < qs[m]);
                    }
                } else if i >= m + 1 {
                    if i > m + 1 {
                        assert(qs[m + 1] < qs[i]);
                    }
                }
            }
        }
    }
}

/// `w` (next word): from a non-whitespace char the cursor passes the rest
/// of the run of chars of its class (word chars, or punctuation), which ends
/// at `e` (returned); from whitespace `e` is the cursor itself. Then it
/// passes the whitespace after `e` and lands on the next non-whitespace
/// char, on an empty line, or at the end of the text.
pub proof fn law_word_forward_small(cs: Seq<char>, k: int) -> (e: int)
    requires
        0 <= k < cs.len(),
    ensures
        k <= e <= word_forward_of(cs, k, false) <= cs.len(),
        !unicode_white_space(cs[k]) ==> {
            &&& k < e
            &&& forall|m: int| k <= m < e ==> class_of(#[trigger] cs[m], false) == class_of(cs[k], false)
            &&& (e == cs.len() || class_of(cs[e], false) != class_of(cs[k], false))
        },
        unicode_white_space(cs[k]) ==> e == k,
        forall|m: int| e <= m < word_forward_of(cs, k, false) ==> unicode_white_space(#[trigger] cs[m]),
        word_forward_of(cs, k, false) == cs.len() || !unicode_white_space(
            cs[word_forward_of(cs, k, false)],
        ) || (cs[word_forward_of(cs, k, false)] == '\n' && cs[word_forward_of(cs, k, false) - 1]
            == '\n'),
{
    assert('\n' as u32 == 10);
    let c = class_of(cs[k], false);
    let e = if c != CharClass::Blank {
        lemma_run_end_class(cs, k, c, false);
        run_end(cs, k, c, false)
    } else {
        k
    };
    lemma_skip_gap_run(cs, e);
    e
}

/// `b` (previous word) when a non-whitespace char stands before `k` (such
/// as the one at `j`): the cursor passes back over the whitespace before
/// `k`, which starts at `e` (returned), and lands on the start of the run of
/// chars of one class (word chars, or punctuation) that ends there.
pub proof fn law_word_backward_small(cs: Seq<char>, k: int, j: int) -> (e: int)
    requires
        0 <= j < k <= cs.len(),
        !unicode_white_space(cs[j]),
    ensures
        0 <= word_backward_of(cs, k, false) < e <= k,
        forall|m: int|
            word_backward_of(cs, k, false) <= m < e ==> class_of(#[trigger] cs[m], false) == class_of(
                cs[e - 1],
                false,
            ),
        class_of(cs[e - 1], false) != CharClass::Blank,
        forall|m: int| e <= m < k ==> unicode_white_space(#[trigger] cs[m]),
        word_backward_of(cs, k, false) == 0 || class_of(cs[word_backward_of(cs, k, false) - 1], false)
            != class_of(cs[e - 1], false),
{
    lemma_skip_white_back_run(cs, k);
    let i = skip_white_back(cs, k);
    if i <= j {
        assert(unicode_white_space(cs[j]));
    }
    assert('\n' as u32 == 10);
    assert(cs[i - 1] != '\n');
    lemma_run_start_class(cs, i, class_of(cs[i - 1], false), false);
    i
}

} // verus!
