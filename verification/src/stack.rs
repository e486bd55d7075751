//! The 256-slot byte stack with ring semantics: an 8-bit cursor that wraps on
//! push and pop, so underflow and overflow are silent and deterministic.
//! Shorts are stored big-endian, high byte pushed first.

use vstd::prelude::*;
use vstd::string::*;

use crate::arith::{be_short, hi_byte, lo_byte, join_short, split_short, zeroed};

verus! {

/// The lowercase hex digit of a nibble.
pub open spec fn hex_digit(n: u8) -> Seq<char> {
    if n == 0 {
        "0"@
    } else if n == 1 {
        "1"@
    } else if n == 2 {
        "2"@
    } else if n == 3 {
        "3"@
    } else if n == 4 {
        "4"@
    } else if n == 5 {
        "5"@
    } else if n == 6 {
        "6"@
    } else if n == 7 {
        "7"@
    } else if n == 8 {
        "8"@
    } else if n == 9 {
        "9"@
    } else if n == 10 {
        "a"@
    } else if n == 11 {
        "b"@
    } else if n == 12 {
        "c"@
    } else if n == 13 {
        "d"@
    } else if n == 14 {
        "e"@
    } else {
        "f"@
    }
}

/// The two lowercase hex digits of a byte.
pub open spec fn hex_byte(b: u8) -> Seq<char> {
    hex_digit(b / 16) + hex_digit(b % 16)
}

/// The lowercase hex digit of a nibble, as a one-character string.
fn hex_str(n: u8) -> (r: &'static str)
    requires
        n < 16,
    ensures
        r@ == hex_digit(n),
{
    if n == 0 {
        "0"
    } else if n == 1 {
        "1"
    } else if n == 2 {
        "2"
    } else if n == 3 {
        "3"
    } else if n == 4 {
        "4"
    } else if n == 5 {
        "5"
    } else if n == 6 {
        "6"
    } else if n == 7 {
        "7"
    } else if n == 8 {
        "8"
    } else if n == 9 {
        "9"
    } else if n == 10 {
        "a"
    } else if n == 11 {
        "b"
    } else if n == 12 {
        "c"
    } else if n == 13 {
        "d"
    } else if n == 14 {
        "e"
    } else {
        "f"
    }
}

/// The dump text of slots `lo..hi` of a stack's bytes: two hex digits per
/// byte, with a single space between bytes.
pub open spec fn dump_window(data: Seq<u8>, lo: int, hi: int) -> Seq<char>
    decreases hi - lo,
{
    if hi <= lo {
        Seq::<char>::empty()
    } else {
        dump_window(data, lo, hi - 1) + (if hi - 1 == lo {
            Seq::<char>::empty()
        } else {
            " "@
        }) + hex_byte(data[hi - 1])
    }
}

/// The dump text of a stack: its bytes up to the current depth, truncated to
/// the last eight.
pub open spec fn stack_dump(s: StackView) -> Seq<char> {
    let n = s.depth() as int;
    let lo = if n >= 8 {
        n - 8
    } else {
        0
    };
    dump_window(s.data, lo, n)
}

/// Mathematical state of a ring stack: the 256 backing bytes and the cursor.
pub struct StackView {
    pub data: Seq<u8>,
    pub index: u8,
}

impl StackView {
    pub open spec fn wf(self) -> bool {
        self.data.len() == 256
    }

    /// Depth as `len` reports it: cursor plus one, wrapping to zero.
    pub open spec fn depth(self) -> nat {
        ((self.index + 1) % 256) as nat
    }

    /// State after a byte push: the cursor advances, then the slot is written.
    pub open spec fn push_byte(self, x: u8) -> StackView {
        let i = ((self.index + 1) % 256) as u8;
        StackView { data: self.data.update(i as int, x), index: i }
    }

    /// The byte a pop would return: the slot under the cursor.
    pub open spec fn top(self) -> u8 {
        self.data[self.index as int]
    }

    /// State after a byte pop: the cursor steps back, the data stays.
    pub open spec fn drop_byte(self) -> StackView {
        StackView { index: ((self.index + 255) % 256) as u8, ..self }
    }

    /// State after a short push: high byte first, then low byte.
    pub open spec fn push_short(self, x: u16) -> StackView {
        self.push_byte(hi_byte(x)).push_byte(lo_byte(x))
    }

    /// The short a double pop would return, reassembled big-endian.
    pub open spec fn top_short(self) -> u16 {
        be_short(self.drop_byte().top(), self.top())
    }

    /// State after a short pop: the cursor steps back twice.
    pub open spec fn drop_short(self) -> StackView {
        self.drop_byte().drop_byte()
    }
}

/// A short pushed onto a stack is what a short pop reads back.
pub proof fn lemma_push_short_top(s: StackView, v: u16)
    requires
        s.wf(),
    ensures
        s.push_short(v).top_short() == v,
        s.push_short(v).drop_short().index == s.index,
{
    crate::arith::lemma_split_join(v);
}

/// Fixed 256-slot byte stack addressed through a wrapping 8-bit cursor.
pub struct Stack {
    data: Vec<u8>,
    index: u8,
}

impl View for Stack {
    type V = StackView;

    closed spec fn view(&self) -> StackView {
        StackView { data: self.data@, index: self.index }
    }
}

impl Stack {
    pub open spec fn wf(self) -> bool {
        self@.wf()
    }

    /// An empty stack: all slots zero, cursor one step before slot zero.
    pub fn new() -> (r: Self)
        ensures
            r.wf(),
            r@.index == 255,
            forall|i: int| 0 <= i < 256 ==> r@.data[i] == 0u8,
    {
        Stack { data: zeroed(256), index: 255 }
    }

    /// Current depth; a stack that has wrapped past 256 reports a small depth.
    pub fn len(&self) -> (r: usize)
        ensures
            r == self@.depth(),
    {
        self.index.wrapping_add(1) as usize
    }

    pub fn push_byte(&mut self, x: u8)
        requires
            old(self).wf(),
        ensures
            final(self).wf(),
            final(self)@ == old(self)@.push_byte(x),
    {
        self.index = self.index.wrapping_add(1);
        self.data.set(self.index as usize, x);
    }

    pub fn pop_byte(&mut self) -> (r: u8)
        requires
            old(self).wf(),
        ensures
            final(self).wf(),
            r == old(self)@.top(),
            final(self)@ == old(self)@.drop_byte(),
    {
        let res = self.data[self.index as usize];
        self.index = self.index.wrapping_sub(1);
        res
    }

    pub fn push_short(&mut self, x: u16)
        requires
            old(self).wf(),
        ensures
            final(self).wf(),
            final(self)@ == old(self)@.push_short(x),
    {
        let (hi, lo) = split_short(x);
        self.push_byte(hi);
        self.push_byte(lo);
    }

    pub fn pop_short(&mut self) -> (r: u16)
        requires
            old(self).wf(),
        ensures
            final(self).wf(),
            r == old(self)@.top_short(),
            final(self)@ == old(self)@.drop_short(),
    {
        let lo = self.pop_byte();
        let hi = self.pop_byte();
        join_short(hi, lo)
    }

    /// The byte stored in slot `i`, regardless of the cursor.
    pub fn byte_at(&self, i: u8) -> (r: u8)
        requires
            self.wf(),
        ensures
            r == self@.data[i as int],
    {
        self.data[i as usize]
    }

    /// The big-endian short stored in slots `i` and `i + 1` (wrapping).
    pub fn short_at(&self, i: u8) -> (r: u16)
        requires
            self.wf(),
        ensures
            r == be_short(self@.data[i as int], self@.data[i.wrapping_add(1) as int]),
    {
        let hi = self.data[i as usize];
        let lo = self.data[i.wrapping_add(1) as usize];
        join_short(hi, lo)
    }

    /// The dump text of this stack: up to the last eight bytes in lowercase
    /// hex, separated by single spaces.
    pub fn dump(&self) -> (r: String)
        requires
            self.wf(),
        ensures
            r@ == stack_dump(self@),
    {
        let n: usize = self.len();
        let lo: usize = if n >= 8 {
            n - 8
        } else {
            0
        };
        let mut s = String::new();
        let mut i: usize = lo;
        while i < n
            invariant
                self.wf(),
                n == self@.depth(),
                n <= 255,
                lo == (if n >= 8 { (n - 8) as int } else { 0int }),
                lo <= i <= n,
                s@ == dump_window(self@.data, lo as int, i as int),
            decreases n - i,
        {
            if i > lo {
                s.append(" ");
            }
            let b = self.byte_at(i as u8);
            s.append(hex_str(b / 16));
            s.append(hex_str(b % 16));
            i = i + 1;
        }
        s
    }
}

} // verus!
