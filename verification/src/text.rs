//! A document as a sequence of chars, with the UTF-8 byte offset of each.
//!
//! Motions take and return byte offsets into a `&str`; their logic runs over
//! char indices. `bpos(cs, k)` is the byte offset at which char `k` starts.

use vstd::prelude::*;
use vstd::utf8::*;
use vstd::std_specs::iter::IteratorSpec;

verus! {

/// Bytes that `c` takes in UTF-8.
pub open spec fn char_width(c: char) -> nat {
    if (c as u32) < 0x80 {
        1
    } else if (c as u32) < 0x800 {
        2
    } else if (c as u32) < 0x10000 {
        3
    } else {
        4
    }
}

/// Byte length of the UTF-8 encoding of `cs`.
pub open spec fn byte_len(cs: Seq<char>) -> nat
    decreases cs.len(),
{
    if cs.len() == 0 {
        0
    } else {
        byte_len(cs.drop_last()) + char_width(cs.last())
    }
}

/// Byte offset at which char `k` of `cs` starts (the length when `k == cs.len()`).
pub open spec fn bpos(cs: Seq<char>, k: int) -> nat {
    byte_len(cs.take(k))
}

/// `off` is a char boundary of `cs`: the start of some char, or the end.
pub open spec fn is_boundary(cs: Seq<char>, off: int) -> bool {
    exists|k: int| 0 <= k <= cs.len() && bpos(cs, k) == off
}

/// The char index whose byte offset is `off` (meaningful when `is_boundary(cs, off)`).
pub open spec fn index_of(cs: Seq<char>, off: int) -> int {
    choose|k: int| 0 <= k <= cs.len() && bpos(cs, k) == off
}

/// The sub-sequence of chars between two char indices.
pub open spec fn slice(cs: Seq<char>, a: int, b: int) -> Seq<char> {
    cs.subrange(a, b)
}

/// The Unicode `White_Space` property, which `char::is_whitespace` tests:
/// the 25 code points listed in the Unicode Character Database (PropList.txt).
pub open spec fn unicode_white_space(c: char) -> bool {
    let u = c as u32;
    ||| 0x09 <= u <= 0x0D
    ||| u == 0x20
    ||| u == 0x85
    ||| u == 0xA0
    ||| u == 0x1680
    ||| 0x2000 <= u <= 0x200A
    ||| u == 0x2028
    ||| u == 0x2029
    ||| u == 0x202F
    ||| u == 0x205F
    ||| u == 0x3000
}

/// An ASCII letter or digit.
pub open spec fn ascii_alphanumeric(c: char) -> bool {
    ||| ('a' <= c && c <= 'z')
    ||| ('A' <= c && c <= 'Z')
    ||| ('0' <= c && c <= '9')
}

/// Letters and digits as `char::is_alphanumeric` decides them: among ASCII
/// chars the letters and digits, beyond ASCII the Unicode property.
pub open spec fn alphanumeric(c: char) -> bool {
    if (c as u32) < 0x80 {
        ascii_alphanumeric(c)
    } else {
        unicode_alphanumeric(c)
    }
}

/// Letters and digits as `char::is_alphanumeric` decides them (Unicode `Alphabetic` or `Numeric`).
pub uninterp spec fn unicode_alphanumeric(c: char) -> bool;

/// Calls `char::is_whitespace`, which its documentation defines as having
/// the Unicode `White_Space` property; claims exactly that.
#[verifier::external_body]
pub(crate) fn is_whitespace(c: char) -> (r: bool)
    ensures
        r == unicode_white_space(c),
{
    c.is_whitespace()
}

/// Calls `char::is_alphanumeric` (Unicode `Alphabetic` or `Numeric`). Claims
/// that its result is the fixed property `unicode_alphanumeric` of the char,
/// and that among ASCII chars exactly the letters and digits have it; which
/// other chars have it is left unsaid.
#[verifier::external_body]
pub(crate) fn is_alphanumeric(c: char) -> (r: bool)
    ensures
        r == unicode_alphanumeric(c),
        (c as u32) < 0x80 ==> (r <==> ascii_alphanumeric(c)),
{
    c.is_alphanumeric()
}

/// Calls `String::push`, which appends one char.
#[verifier::external_body]
pub(crate) fn push_char(s: &mut String, c: char)
    ensures
        final(s)@ == old(s)@.push(c),
{
    s.push(c)
}

/// Width in bytes of `c` in UTF-8.
pub fn char_width_exec(c: char) -> (w: usize)
    ensures
        w == char_width(c),
        1 <= w <= 4,
{
    let u = c as u32;
    if u < 0x80 {
        1
    } else if u < 0x800 {
        2
    } else if u < 0x10000 {
        3
    } else {
        4
    }
}

pub proof fn lemma_bpos_step(cs: Seq<char>, k: int)
    requires
        0 <= k < cs.len(),
    ensures
        bpos(cs, k + 1) == bpos(cs, k) + char_width(cs[k]),
{
    assert(cs.take(k + 1).drop_last() =~= cs.take(k));
}

pub proof fn lemma_bpos_zero(cs: Seq<char>)
    ensures
        bpos(cs, 0) == 0,
{
    assert(cs.take(0).len() == 0);
}

/// Byte offsets grow strictly with the char index.
pub proof fn lemma_bpos_strict(cs: Seq<char>, i: int, j: int)
    requires
        0 <= i < j <= cs.len(),
    ensures
        bpos(cs, i) < bpos(cs, j),
    decreases j - i,
{
    lemma_bpos_step(cs, j - 1);
    if i < j - 1 {
        lemma_bpos_strict(cs, i, j - 1);
    }
}

pub proof fn lemma_bpos_mono(cs: Seq<char>, i: int, j: int)
    requires
        0 <= i <= j <= cs.len(),
    ensures
        bpos(cs, i) <= bpos(cs, j),
{
    if i < j {
        lemma_bpos_strict(cs, i, j);
    }
}

/// The char index of a boundary is the one whose offset it is.
pub proof fn lemma_index_of(cs: Seq<char>, k: int)
    requires
        0 <= k <= cs.len(),
    ensures
        is_boundary(cs, bpos(cs, k) as int),
        index_of(cs, bpos(cs, k) as int) == k,
{
    let off = bpos(cs, k) as int;
    assert(0 <= k <= cs.len() && bpos(cs, k) == off);
    let j = index_of(cs, off);
    if j < k {
        lemma_bpos_strict(cs, j, k);
    } else if k < j {
        lemma_bpos_strict(cs, k, j);
    }
}

proof fn lemma_byte_len_front(cs: Seq<char>)
    requires
        cs.len() > 0,
    ensures
        byte_len(cs) == char_width(cs[0]) + byte_len(cs.drop_first()),
    decreases cs.len(),
{
    if cs.len() == 1 {
        assert(cs.drop_last().len() == 0);
        assert(cs.drop_first().len() == 0);
        assert(byte_len(cs.drop_last()) == 0);
        assert(byte_len(cs.drop_first()) == 0);
        assert(cs.last() == cs[0]);
    } else {
        let d = cs.drop_last();
        let f = cs.drop_first();
        lemma_byte_len_front(d);
        assert(d[0] == cs[0]);
        assert(d.drop_first() =~= f.drop_last());
        assert(f.last() == cs.last());
        assert(byte_len(f) == byte_len(f.drop_last()) + char_width(f.last()));
        assert(byte_len(cs) == byte_len(d) + char_width(cs.last()));
    }
}

/// `byte_len` is the length of the UTF-8 encoding that vstd defines.
pub proof fn lemma_byte_len_encode(cs: Seq<char>)
    ensures
        byte_len(cs) == encode_utf8(cs).len(),
    decreases cs.len(),
{
    if cs.len() > 0 {
        lemma_byte_len_front(cs);
        lemma_byte_len_encode(cs.drop_first());
        char_is_scalar(cs[0]);
    }
}

/// A text: its chars and the byte offset of each char (and of the end).
pub struct Text {
    pub chars: Vec<char>,
    pub offs: Vec<usize>,
}

impl Text {
    pub open spec fn view(&self) -> Seq<char> {
        self.chars@
    }

    pub open spec fn wf(&self) -> bool {
        &&& self.offs@.len() == self.chars@.len() + 1
        &&& forall|k: int| 0 <= k <= self.chars@.len() ==> #[trigger] self.offs@[k] == bpos(self.chars@, k)
    }

    /// Decodes `s` into its chars and their byte offsets.
    pub fn new(s: &str) -> (t: Text)
        ensures
            t.wf(),
            t.chars@ == s@,
    {
        let nbytes = s.as_bytes().len();
        proof {
            lemma_byte_len_encode(s@);
        }
        let mut chars: Vec<char> = Vec::new();
        let mut it = s.chars();
        let ghost all = s@;
        proof {
            broadcast use vstd::string::group_string_axioms;
        }
        loop
            invariant
                all == s@,
                it.remaining() == all.skip(chars@.len() as int),
                chars@ == all.take(chars@.len() as int),
                chars@.len() <= all.len(),
            ensures
                chars@ == s@,
            decreases all.len() - chars@.len(),
        {
            let ghost before = it.remaining();
            match it.next() {
                Some(c) => {
                    proof {
                        broadcast use vstd::string::group_string_axioms;
                    }
                    assert(before.len() > 0);
                    chars.push(c);
                    assert(chars@ =~= all.take(chars@.len() as int));
                    assert(it.remaining() =~= all.skip(chars@.len() as int));
                },
                None => {
                    proof {
                        broadcast use vstd::string::group_string_axioms;
                    }
                    assert(chars@ =~= all);
                    break ;
                },
            }
        }
        let n = chars.len();
        let mut offs: Vec<usize> = Vec::new();
        offs.push(0);
        proof {
            lemma_bpos_zero(chars@);
            assert(chars@.take(n as int) =~= chars@);
        }
        let mut pos: usize = 0;
        let mut k: usize = 0;
        while k < n
            invariant
                n == chars@.len(),
                byte_len(chars@) == nbytes,
                k <= n,
                offs@.len() == k + 1,
                pos == bpos(chars@, k as int),
                forall|j: int| 0 <= j <= k ==> #[trigger] offs@[j] == bpos(chars@, j),
                chars@.take(n as int) == chars@,
            decreases n - k,
        {
            proof {
                lemma_bpos_step(chars@, k as int);
                lemma_bpos_mono(chars@, k as int + 1, n as int);
            }
            let w = char_width_exec(chars[k]);
            pos = pos + w;
            k = k + 1;
            offs.push(pos);
        }
        Text { chars, offs }
    }

    /// The char index at byte offset `off`, which must be a char boundary.
    pub fn index_at(&self, off: usize) -> (k: usize)
        requires
            self.wf(),
            is_boundary(self.chars@, off as int),
        ensures
            k <= self.chars@.len(),
            bpos(self.chars@, k as int) == off,
            k == index_of(self.chars@, off as int),
    {
        let n = self.chars.len();
        let ghost w = index_of(self.chars@, off as int);
        let mut lo: usize = 0;
        let mut hi: usize = n;
        proof {
            if w < 0 || w > n {
                assert(false);
            }
            lemma_index_of(self.chars@, w);
        }
        while lo < hi
            invariant
                self.wf(),
                n == self.chars@.len(),
                lo <= w <= hi <= n,
                bpos(self.chars@, w) == off,
            decreases hi - lo,
        {
            let mid = lo + (hi - lo) / 2;
            if self.offs[mid] < off {
                proof {
                    if w <= mid {
                        lemma_bpos_mono(self.chars@, w, mid as int);
                    }
                }
                lo = mid + 1;
            } else {
                proof {
                    if mid < w {
                        lemma_bpos_strict(self.chars@, mid as int, w);
                    }
                }
                hi = mid;
            }
        }
        proof {
            lemma_index_of(self.chars@, w);
        }
        lo
    }

    /// Byte offset of char `k`.
    pub fn offset(&self, k: usize) -> (off: usize)
        requires
            self.wf(),
            k <= self.chars@.len(),
        ensures
            off == bpos(self.chars@, k as int),
    {
        self.offs[k]
    }

    /// Byte length of the whole text.
    pub fn byte_length(&self) -> (len: usize)
        requires
            self.wf(),
        ensures
            len == bpos(self.chars@, self.chars@.len() as int),
    {
        self.offs[self.chars.len()]
    }

    /// The chars between two char indices, as a `String`.
    pub fn substring(&self, a: usize, b: usize) -> (s: String)
        requires
            a <= b <= self.chars@.len(),
        ensures
            s@ == self.chars@.subrange(a as int, b as int),
    {
        let mut s = String::new();
        let mut i = a;
        while i < b
            invariant
                a <= i <= b <= self.chars@.len(),
                s@ == self.chars@.subrange(a as int, i as int),
            decreases b - i,
        {
            push_char(&mut s, self.chars[i]);
            i = i + 1;
            assert(s@ =~= self.chars@.subrange(a as int, i as int));
        }
        s
    }
}

} // verus!
