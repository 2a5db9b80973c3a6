//! The rolling text buffer: a bounded record of the most recently typed
//! characters, evicting from the front once the capacity is exceeded.

use vstd::prelude::*;
use crate::MAX_TEXT_LENGTH;

verus! {

/// `t` is a suffix of `b`.
pub open spec fn is_suffix_of(t: Seq<char>, b: Seq<char>) -> bool {
    t.len() <= b.len() && b.subrange(b.len() - t.len(), b.len() as int) == t
}

/// What pushing one character onto a bounded buffer yields: the character is
/// appended, and the oldest character is dropped first when the buffer is
/// already at capacity.
pub open spec fn spec_push(b: Seq<char>, c: char) -> Seq<char> {
    if b.len() < MAX_TEXT_LENGTH {
        b.push(c)
    } else {
        b.skip(1).push(c)
    }
}

/// An ordered, bounded sequence of characters with FIFO eviction from the
/// front. It reflects the most recently typed characters that have not yet
/// been consumed by a replacement.
pub struct RollingBuffer {
    chars: Vec<char>,
}

impl View for RollingBuffer {
    type V = Seq<char>;

    closed spec fn view(&self) -> Seq<char> {
        self.chars@
    }
}

impl RollingBuffer {
    /// The buffer never holds more than `MAX_TEXT_LENGTH` characters.
    pub open spec fn wf(&self) -> bool {
        self@.len() <= MAX_TEXT_LENGTH
    }

    pub fn new() -> (r: RollingBuffer)
        ensures
            r@ == Seq::<char>::empty(),
            r.wf(),
    {
        RollingBuffer { chars: Vec::new() }
    }

    pub fn len(&self) -> (r: usize)
        ensures
            r == self@.len(),
    {
        self.chars.len()
    }

    pub fn char_at(&self, i: usize) -> (r: char)
        requires
            i < self@.len(),
        ensures
            r == self@[i as int],
    {
        self.chars[i]
    }

    /// Append one character, evicting the oldest one first when the buffer is
    /// already full.
    pub fn push(&mut self, c: char)
        requires
            old(self).wf(),
        ensures
            final(self)@ == spec_push(old(self)@, c),
            final(self).wf(),
    {
        if self.chars.len() == MAX_TEXT_LENGTH {
            self.chars.remove(0);
            proof {
                assert(self.chars@ =~= old(self)@.skip(1));
            }
        }
        self.chars.push(c);
    }

    /// Drop the most recently typed character, if any.
    pub fn pop_back(&mut self) -> (r: Option<char>)
        ensures
            old(self)@.len() == 0 ==> r is None && final(self)@ == old(self)@,
            old(self)@.len() > 0 ==> r == Some(old(self)@.last())
                && final(self)@ == old(self)@.drop_last(),
            final(self)@.len() <= old(self)@.len(),
    {
        self.chars.pop()
    }

    /// Forget everything typed so far.
    pub fn clear(&mut self)
        ensures
            final(self)@ == Seq::<char>::empty(),
            final(self).wf(),
    {
        self.chars.clear();
    }

    /// Copy the buffered characters out, oldest first.
    pub fn contents(&self) -> (r: Vec<char>)
        ensures
            r@ == self@,
    {
        let n = self.chars.len();
        let mut out: Vec<char> = Vec::new();
        let mut i: usize = 0;
        while i < n
            invariant
                n == self@.len(),
                i <= n,
                out@ == self@.take(i as int),
            decreases n - i,
        {
            out.push(self.chars[i]);
            proof {
                assert(out@ =~= self@.take(i as int + 1));
            }
            i += 1;
        }
        proof {
            assert(self@.take(n as int) =~= self@);
        }
        out
    }

    /// Does the buffer end with the characters of `t`?
    pub fn ends_with_str(&self, t: &str) -> (r: bool)
        ensures
            r == is_suffix_of(t@, self@),
    {
        let tlen = t.unicode_len();
        let blen = self.chars.len();
        if tlen > blen {
            return false;
        }
        let mut k: usize = 0;
        while k < tlen
            invariant
                tlen == t@.len(),
                blen == self@.len(),
                tlen <= blen,
                k <= tlen,
                forall|j: int| 0 <= j < k ==> t@[j] == self@[blen - tlen + j],
            decreases tlen - k,
        {
            if t.get_char(k) != self.chars[blen - tlen + k] {
                return false;
            }
            k += 1;
        }
        proof {
            assert(self@.subrange(blen - tlen, blen as int) =~= t@);
        }
        true
    }
}

} // verus!
