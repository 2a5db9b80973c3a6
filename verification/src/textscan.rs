//! Low-level scanning over character sequences: whitespace skipping, line
//! ends, searches, trimming, and line/column computation. Each executable
//! helper is exact against its specification; the parser is built on them.

use vstd::prelude::*;

verus! {

/// Whitespace between entries.
pub open spec fn spec_is_ws(c: char) -> bool {
    c == ' ' || c == '\t' || c == '\r' || c == '\n'
}

/// Blank space inside a line.
pub open spec fn spec_is_blank(c: char) -> bool {
    c == ' ' || c == '\t'
}

/// Space trimmed from the ends of a piece of a line.
pub open spec fn spec_is_trimmable(c: char) -> bool {
    c == ' ' || c == '\t' || c == '\r'
}

/// First position at or after `i` that does not hold whitespace.
pub open spec fn spec_skip_ws(s: Seq<char>, i: int) -> int
    decreases s.len() - i when 0 <= i <= s.len()
{
    if i >= s.len() {
        s.len() as int
    } else if spec_is_ws(s[i]) {
        spec_skip_ws(s, i + 1)
    } else {
        i
    }
}

pub proof fn lemma_skip_ws_bounds(s: Seq<char>, i: int)
    requires
        0 <= i <= s.len(),
    ensures
        i <= spec_skip_ws(s, i) <= s.len(),
        spec_skip_ws(s, i) < s.len() ==> !spec_is_ws(s[spec_skip_ws(s, i)]),
    decreases s.len() - i,
{
    if i < s.len() && spec_is_ws(s[i]) {
        lemma_skip_ws_bounds(s, i + 1);
    }
}

/// First position at or after `i` that does not hold blank space.
pub open spec fn spec_skip_blank(s: Seq<char>, i: int) -> int
    decreases s.len() - i when 0 <= i <= s.len()
{
    if i >= s.len() {
        s.len() as int
    } else if spec_is_blank(s[i]) {
        spec_skip_blank(s, i + 1)
    } else {
        i
    }
}

pub proof fn lemma_skip_blank_bounds(s: Seq<char>, i: int)
    requires
        0 <= i <= s.len(),
    ensures
        i <= spec_skip_blank(s, i) <= s.len(),
        spec_skip_blank(s, i) < s.len() ==> !spec_is_blank(s[spec_skip_blank(s, i)]),
        forall|k: int| i <= k < spec_skip_blank(s, i) ==> spec_is_blank(s[k]),
    decreases s.len() - i,
{
    if i < s.len() && spec_is_blank(s[i]) {
        lemma_skip_blank_bounds(s, i + 1);
    }
}

/// Position of the line break at or after `i`, or the end of the text.
pub open spec fn spec_line_end(s: Seq<char>, i: int) -> int
    decreases s.len() - i when 0 <= i <= s.len()
{
    if i >= s.len() {
        s.len() as int
    } else if s[i] == '\n' {
        i
    } else {
        spec_line_end(s, i + 1)
    }
}

pub proof fn lemma_line_end_bounds(s: Seq<char>, i: int)
    requires
        0 <= i <= s.len(),
    ensures
        i <= spec_line_end(s, i) <= s.len(),
        spec_line_end(s, i) < s.len() ==> s[spec_line_end(s, i)] == '\n',
        forall|k: int| i <= k < spec_line_end(s, i) ==> s[k] != '\n',
    decreases s.len() - i,
{
    if i < s.len() && s[i] != '\n' {
        lemma_line_end_bounds(s, i + 1);
    }
}

/// Position of the first occurrence of `c` at or after `i`, if any.
pub open spec fn spec_find_from(s: Seq<char>, i: int, c: char) -> Option<int>
    decreases s.len() - i when 0 <= i <= s.len()
{
    if i >= s.len() {
        None
    } else if s[i] == c {
        Some(i)
    } else {
        spec_find_from(s, i + 1, c)
    }
}

pub proof fn lemma_find_from_bounds(s: Seq<char>, i: int, c: char)
    requires
        0 <= i <= s.len(),
    ensures
        match spec_find_from(s, i, c) {
            Some(p) => i <= p < s.len() && s[p] == c,
            None => forall|k: int| i <= k < s.len() ==> s[k] != c,
        },
    decreases s.len() - i,
{
    if i < s.len() && s[i] != c {
        lemma_find_from_bounds(s, i + 1, c);
    }
}

/// The characters of `p` stand at position `i` of `s`.
pub open spec fn spec_starts_with_at(s: Seq<char>, i: int, p: Seq<char>) -> bool {
    0 <= i && i + p.len() <= s.len() && s.subrange(i, i + p.len()) == p
}

/// Position of the first `=>` at or after `i` but before `end`, if any.
pub open spec fn spec_find_arrow(s: Seq<char>, i: int, end: int) -> Option<int>
    decreases end - i when 0 <= i && i <= end + 1 && end <= s.len()
{
    if i + 1 >= end {
        None
    } else if s[i] == '=' && s[i + 1] == '>' {
        Some(i)
    } else {
        spec_find_arrow(s, i + 1, end)
    }
}

pub proof fn lemma_find_arrow_bounds(s: Seq<char>, i: int, end: int)
    requires
        0 <= i,
        i <= end + 1,
        end <= s.len(),
    ensures
        match spec_find_arrow(s, i, end) {
            Some(p) => i <= p && p + 1 < end && s[p] == '=' && s[p + 1] == '>',
            None => forall|k: int|
                i <= k && k + 1 < end ==> !(#[trigger] s[k] == '=' && s[k + 1] == '>'),
        },
    decreases end - i,
{
    if i + 1 < end && !(s[i] == '=' && s[i + 1] == '>') {
        lemma_find_arrow_bounds(s, i + 1, end);
    }
}

/// Position of the first ``` fence at or after `i`, if any.
pub open spec fn spec_find_fence(s: Seq<char>, i: int) -> Option<int>
    decreases s.len() - i when 0 <= i <= s.len()
{
    if i + 3 > s.len() {
        None
    } else if s[i] == '`' && s[i + 1] == '`' && s[i + 2] == '`' {
        Some(i)
    } else {
        spec_find_fence(s, i + 1)
    }
}

pub proof fn lemma_find_fence_bounds(s: Seq<char>, i: int)
    requires
        0 <= i <= s.len(),
    ensures
        match spec_find_fence(s, i) {
            Some(p) => i <= p && p + 3 <= s.len() && s[p] == '`' && s[p + 1] == '`' && s[p + 2]
                == '`',
            None => forall|k: int|
                i <= k && k + 3 <= s.len() ==> !(#[trigger] s[k] == '`' && s[k + 1] == '`'
                    && s[k + 2] == '`'),
        },
    decreases s.len() - i,
{
    if i + 3 <= s.len() && !(s[i] == '`' && s[i + 1] == '`' && s[i + 2] == '`') {
        lemma_find_fence_bounds(s, i + 1);
    }
}

/// The sequence with leading trimmable space removed.
pub open spec fn spec_trim_start(t: Seq<char>) -> Seq<char>
    decreases t.len(),
{
    if t.len() > 0 && spec_is_trimmable(t[0]) {
        spec_trim_start(t.skip(1))
    } else {
        t
    }
}

/// The sequence with trailing trimmable space removed.
pub open spec fn spec_trim_end(t: Seq<char>) -> Seq<char>
    decreases t.len(),
{
    if t.len() > 0 && spec_is_trimmable(t.last()) {
        spec_trim_end(t.drop_last())
    } else {
        t
    }
}

/// The sequence with space removed from both ends.
pub open spec fn spec_trim(t: Seq<char>) -> Seq<char> {
    spec_trim_end(spec_trim_start(t))
}

proof fn lemma_trim_start_range(t: Seq<char>, k: int)
    requires
        0 <= k <= t.len(),
        forall|j: int| 0 <= j < k ==> spec_is_trimmable(t[j]),
        k < t.len() ==> !spec_is_trimmable(t[k]),
    ensures
        spec_trim_start(t) == t.skip(k),
    decreases k,
{
    if k == 0 {
        if t.len() > 0 {
            assert(!spec_is_trimmable(t[0]));
        }
        assert(t.skip(0) =~= t);
    } else {
        assert(spec_is_trimmable(t[0]));
        assert(t.skip(1).len() == t.len() - 1);
        lemma_trim_start_range(t.skip(1), k - 1);
        assert(t.skip(1).skip(k - 1) =~= t.skip(k));
    }
}

proof fn lemma_trim_end_range(t: Seq<char>, k: int)
    requires
        0 <= k <= t.len(),
        forall|j: int| k <= j < t.len() ==> spec_is_trimmable(t[j]),
        k > 0 ==> !spec_is_trimmable(t[k - 1]),
    ensures
        spec_trim_end(t) == t.take(k),
    decreases t.len() - k,
{
    if k == t.len() {
        if t.len() > 0 {
            assert(!spec_is_trimmable(t.last()));
        }
        assert(t.take(t.len() as int) =~= t);
    } else {
        assert(spec_is_trimmable(t.last()));
        lemma_trim_end_range(t.drop_last(), k);
        assert(t.drop_last().take(k) =~= t.take(k));
    }
}

/// Copy the characters of `v` between `start` and `end`.
pub fn segment(v: &Vec<char>, start: usize, end: usize) -> (r: Vec<char>)
    requires
        start <= end <= v@.len(),
    ensures
        r@ == v@.subrange(start as int, end as int),
{
    let mut out: Vec<char> = Vec::new();
    let mut i = start;
    while i < end
        invariant
            start <= i <= end,
            end <= v@.len(),
            out@ == v@.subrange(start as int, i as int),
        decreases end - i,
    {
        out.push(v[i]);
        proof {
            assert(v@.subrange(start as int, i as int).push(v@[i as int])
                =~= v@.subrange(start as int, i as int + 1));
        }
        i += 1;
    }
    out
}

/// Extract the characters of `v` between `start` and `end`, with space
/// trimmed from both ends.
pub fn trimmed_segment(v: &Vec<char>, start: usize, end: usize) -> (r: Vec<char>)
    requires
        start <= end <= v@.len(),
    ensures
        r@ == spec_trim(v@.subrange(start as int, end as int)),
{
    let ghost t = v@.subrange(start as int, end as int);
    let mut a = start;
    while a < end && is_trimmable_char(v[a])
        invariant
            start <= a <= end,
            end <= v@.len(),
            t == v@.subrange(start as int, end as int),
            forall|j: int| 0 <= j < a - start ==> spec_is_trimmable(t[j]),
        decreases end - a,
    {
        a += 1;
    }
    proof {
        lemma_trim_start_range(t, a - start);
    }
    let ghost t1 = t.skip(a - start);
    let mut b = end;
    while b > a && is_trimmable_char(v[b - 1])
        invariant
            a <= b <= end,
            end <= v@.len(),
            a >= start,
            t1 == v@.subrange(start as int, end as int).skip(a - start),
            forall|j: int| b - a <= j < t1.len() ==> spec_is_trimmable(t1[j]),
        decreases b,
    {
        b -= 1;
    }
    proof {
        lemma_trim_end_range(t1, b - a);
    }
    let mut out: Vec<char> = Vec::new();
    let mut i = a;
    while i < b
        invariant
            a <= i <= b,
            b <= v@.len(),
            out@ == v@.subrange(a as int, i as int),
        decreases b - i,
    {
        out.push(v[i]);
        proof {
            assert(v@.subrange(a as int, i as int).push(v@[i as int])
                =~= v@.subrange(a as int, i as int + 1));
        }
        i += 1;
    }
    proof {
        assert(out@ =~= t1.take(b - a));
    }
    out
}

/// Is this character trimmable space?
pub fn is_trimmable_char(c: char) -> (r: bool)
    ensures
        r == spec_is_trimmable(c),
{
    c == ' ' || c == '\t' || c == '\r'
}

/// Is this character whitespace between entries?
pub fn is_ws_char(c: char) -> (r: bool)
    ensures
        r == spec_is_ws(c),
{
    c == ' ' || c == '\t' || c == '\r' || c == '\n'
}

/// Is this character blank space inside a line?
pub fn is_blank_char(c: char) -> (r: bool)
    ensures
        r == spec_is_blank(c),
{
    c == ' ' || c == '\t'
}

/// Skip whitespace from `i`.
pub fn skip_ws(v: &Vec<char>, i: usize) -> (r: usize)
    requires
        i <= v@.len(),
    ensures
        r == spec_skip_ws(v@, i as int),
        i <= r <= v@.len(),
{
    let n = v.len();
    let mut k = i;
    while k < n && is_ws_char(v[k])
        invariant
            i <= k <= n,
            n == v@.len(),
            spec_skip_ws(v@, i as int) == spec_skip_ws(v@, k as int),
        decreases n - k,
    {
        k += 1;
    }
    proof {
        lemma_skip_ws_bounds(v@, i as int);
    }
    k
}

/// Skip blank space from `i`.
pub fn skip_blank(v: &Vec<char>, i: usize) -> (r: usize)
    requires
        i <= v@.len(),
    ensures
        r == spec_skip_blank(v@, i as int),
        i <= r <= v@.len(),
{
    let n = v.len();
    let mut k = i;
    while k < n && is_blank_char(v[k])
        invariant
            i <= k <= n,
            n == v@.len(),
            spec_skip_blank(v@, i as int) == spec_skip_blank(v@, k as int),
        decreases n - k,
    {
        k += 1;
    }
    proof {
        lemma_skip_blank_bounds(v@, i as int);
    }
    k
}

/// Find the end of the line starting at `i`.
pub fn line_end(v: &Vec<char>, i: usize) -> (r: usize)
    requires
        i <= v@.len(),
    ensures
        r == spec_line_end(v@, i as int),
        i <= r <= v@.len(),
{
    let n = v.len();
    let mut k = i;
    while k < n && v[k] != '\n'
        invariant
            i <= k <= n,
            n == v@.len(),
            spec_line_end(v@, i as int) == spec_line_end(v@, k as int),
        decreases n - k,
    {
        k += 1;
    }
    proof {
        lemma_line_end_bounds(v@, i as int);
    }
    k
}

/// Find the first occurrence of `c` at or after `i`.
pub fn find_from(v: &Vec<char>, i: usize, c: char) -> (r: Option<usize>)
    requires
        i <= v@.len(),
    ensures
        match r {
            Some(p) => spec_find_from(v@, i as int, c) == Some(p as int) && i <= p < v@.len(),
            None => spec_find_from(v@, i as int, c) is None,
        },
{
    let n = v.len();
    let mut k = i;
    while k < n
        invariant
            i <= k <= n,
            n == v@.len(),
            spec_find_from(v@, i as int, c) == spec_find_from(v@, k as int, c),
        decreases n - k,
    {
        if v[k] == c {
            return Some(k);
        }
        k += 1;
    }
    None
}

/// Find the first `=>` at or after `i` and before `end`.
pub fn find_arrow(v: &Vec<char>, i: usize, end: usize) -> (r: Option<usize>)
    requires
        i <= end,
        end <= v@.len(),
    ensures
        match r {
            Some(p) => spec_find_arrow(v@, i as int, end as int) == Some(p as int) && i <= p
                && p + 1 < end,
            None => spec_find_arrow(v@, i as int, end as int) is None,
        },
{
    let mut k = i;
    while end - k > 1
        invariant
            i <= k,
            k <= end,
            end <= v@.len(),
            spec_find_arrow(v@, i as int, end as int)
                == spec_find_arrow(v@, k as int, end as int),
        decreases end - k,
    {
        if v[k] == '=' && v[k + 1] == '>' {
            return Some(k);
        }
        k += 1;
    }
    None
}

/// Find the first ``` fence at or after `i`.
pub fn find_fence(v: &Vec<char>, i: usize) -> (r: Option<usize>)
    requires
        i <= v@.len(),
    ensures
        match r {
            Some(p) => spec_find_fence(v@, i as int) == Some(p as int) && i <= p
                && p + 3 <= v@.len(),
            None => spec_find_fence(v@, i as int) is None,
        },
{
    let n = v.len();
    let mut k = i;
    while n - k >= 3
        invariant
            i <= k,
            k <= n,
            n == v@.len(),
            spec_find_fence(v@, i as int) == spec_find_fence(v@, k as int),
        decreases n - k,
    {
        if v[k] == '`' && v[k + 1] == '`' && v[k + 2] == '`' {
            return Some(k);
        }
        k += 1;
    }
    None
}

/// Do the characters of `p` stand at position `i` of `v`?
pub fn starts_with_at(v: &Vec<char>, i: usize, p: &str) -> (r: bool)
    requires
        i <= v@.len(),
    ensures
        r == spec_starts_with_at(v@, i as int, p@),
{
    let plen = p.unicode_len();
    let n = v.len();
    if plen > n - i {
        proof {
            assert(!spec_starts_with_at(v@, i as int, p@));
        }
        return false;
    }
    let mut k: usize = 0;
    while k < plen
        invariant
            plen == p@.len(),
            n == v@.len(),
            i + plen <= n,
            k <= plen,
            forall|j: int| 0 <= j < k ==> v@[i + j] == p@[j],
        decreases plen - k,
    {
        if v[i + k] != p.get_char(k) {
            proof {
                assert(v@.subrange(i as int, i as int + p@.len())[k as int] != p@[k as int]);
            }
            return false;
        }
        k += 1;
    }
    proof {
        assert(v@.subrange(i as int, i as int + p@.len()) =~= p@);
    }
    true
}

/// Line and column of an offset into a text: lines are counted from one,
/// columns from zero, and each line break starts a new line.
pub open spec fn spec_line_col(s: Seq<char>, off: int) -> (int, int)
    decreases off when 0 <= off <= s.len()
{
    if off <= 0 {
        (1, 0)
    } else {
        let (l, c) = spec_line_col(s, off - 1);
        if s[off - 1] == '\n' {
            (l + 1, 0)
        } else {
            (l, c + 1)
        }
    }
}

/// Compute the line and column of an offset.
pub fn line_col(v: &Vec<char>, off: usize) -> (r: (usize, usize))
    requires
        off <= v@.len(),
        v@.len() < usize::MAX,
    ensures
        (r.0 as int, r.1 as int) == spec_line_col(v@, off as int),
        r.0 >= 1,
{
    let mut line: usize = 1;
    let mut col: usize = 0;
    let mut i: usize = 0;
    while i < off
        invariant
            i <= off,
            off <= v@.len(),
            v@.len() < usize::MAX,
            (line as int, col as int) == spec_line_col(v@, i as int),
            line >= 1,
            line <= i + 1,
            col <= i,
        decreases off - i,
    {
        if v[i] == '\n' {
            line += 1;
            col = 0;
        } else {
            col += 1;
        }
        i += 1;
    }
    (line, col)
}

} // verus!
