//! Computing the text that replaces a trigger: case propagation against the
//! trigger, date and time placeholder substitution, and the fallback text
//! for a failed code replacement.

use vstd::prelude::*;
use crate::text::chars_to_string;
use crate::text::str_to_chars;

verus! {

/// The Unicode uppercase property of a character, as `char::is_uppercase`
/// reports it.
pub uninterp spec fn spec_is_uppercase(c: char) -> bool;

/// The Unicode uppercase mapping of a character, as `char::to_uppercase`
/// yields it (one character can map to several).
pub uninterp spec fn upper_chars_of(c: char) -> Seq<char>;

/// Relies on char::is_uppercase: a property of the character alone.
#[verifier::external_body]
fn char_is_uppercase(c: char) -> (r: bool)
    ensures
        r == spec_is_uppercase(c),
{
    c.is_uppercase()
}

/// Relies on char::to_uppercase: the Unicode uppercase mapping of the
/// character alone.
#[verifier::external_body]
fn char_to_uppercase(c: char) -> (r: String)
    ensures
        r@ == upper_chars_of(c),
{
    c.to_uppercase().collect()
}

/// The uppercase mapping of a whole sequence: each character mapped by
/// `upper_chars_of`, in order.
pub open spec fn upper_seq_of(s: Seq<char>) -> Seq<char>
    decreases s.len(),
{
    if s.len() == 0 {
        Seq::<char>::empty()
    } else {
        upper_chars_of(s[0]) + upper_seq_of(s.skip(1))
    }
}

proof fn lemma_upper_seq_snoc(s: Seq<char>, c: char)
    ensures
        upper_seq_of(s.push(c)) == upper_seq_of(s) + upper_chars_of(c),
    decreases s.len(),
{
    if s.len() == 0 {
        assert(s.push(c)[0] == c);
        assert(s.push(c).skip(1) =~= Seq::<char>::empty());
        assert(upper_seq_of(Seq::<char>::empty()) == Seq::<char>::empty());
        assert(upper_seq_of(s.push(c))
            == upper_chars_of(c) + upper_seq_of(s.push(c).skip(1)));
        assert(upper_seq_of(s) == Seq::<char>::empty());
        assert(upper_seq_of(s.push(c)) =~= upper_seq_of(s) + upper_chars_of(c));
    } else {
        lemma_upper_seq_snoc(s.skip(1), c);
        assert(s.push(c).skip(1) =~= s.skip(1).push(c));
        assert(s.push(c)[0] == s[0]);
        assert(upper_seq_of(s.push(c)) =~= upper_seq_of(s) + upper_chars_of(c));
    }
}

/// Every character of `s` has the uppercase property.
pub open spec fn all_uppercase(s: Seq<char>) -> bool {
    forall|i: int| 0 <= i < s.len() ==> spec_is_uppercase(s[i])
}

/// The case pattern of the trigger applied to the replacement: an
/// all-uppercase trigger uppercases the whole replacement; a trigger whose
/// first character is uppercase uppercases only the replacement's first
/// character; any other trigger leaves the replacement unchanged.
pub open spec fn spec_propagate_case(orig: Seq<char>, repl: Seq<char>) -> Seq<char> {
    if orig.len() == 0 || repl.len() == 0 {
        repl
    } else if all_uppercase(orig) {
        upper_seq_of(repl)
    } else if spec_is_uppercase(orig[0]) {
        upper_chars_of(repl[0]) + repl.skip(1)
    } else {
        repl
    }
}

/// Uppercase every character of a string slice.
fn uppercase_all(s: &str) -> (r: String)
    ensures
        r@ == upper_seq_of(s@),
{
    let n = s.unicode_len();
    let mut out = String::new();
    let mut i: usize = 0;
    while i < n
        invariant
            n == s@.len(),
            i <= n,
            out@ == upper_seq_of(s@.take(i as int)),
        decreases n - i,
    {
        let u = char_to_uppercase(s.get_char(i));
        out.append(u.as_str());
        proof {
            lemma_upper_seq_snoc(s@.take(i as int), s@[i as int]);
            assert(s@.take(i as int).push(s@[i as int]) =~= s@.take(i as int + 1));
        }
        i += 1;
    }
    proof {
        assert(s@.take(n as int) =~= s@);
    }
    out
}

/// Derive the replacement's letter case from the trigger's case pattern.
pub fn propagate_case(original: &str, replacement: &str) -> (r: String)
    ensures
        r@ == spec_propagate_case(original@, replacement@),
{
    let olen = original.unicode_len();
    let rlen = replacement.unicode_len();
    if olen == 0 || rlen == 0 {
        return replacement.to_owned();
    }
    let mut i: usize = 0;
    let mut all_up: bool = true;
    while i < olen
        invariant
            olen == original@.len(),
            i <= olen,
            all_up == (forall|j: int| 0 <= j < i ==> spec_is_uppercase(original@[j])),
        decreases olen - i,
    {
        if !char_is_uppercase(original.get_char(i)) {
            all_up = false;
        }
        i += 1;
    }
    if all_up {
        uppercase_all(replacement)
    } else if char_is_uppercase(original.get_char(0)) {
        let first = char_to_uppercase(replacement.get_char(0));
        let rest = replacement.substring_char(1, rlen);
        proof {
            assert(replacement@.subrange(1, rlen as int) =~= replacement@.skip(1));
        }
        first.concat(rest)
    } else {
        replacement.to_owned()
    }
}

/// Leftmost, non-overlapping replacement of every occurrence of `pat` in
/// `s` by `sub`. An empty pattern leaves `s` unchanged.
pub open spec fn spec_replace_all(s: Seq<char>, pat: Seq<char>, sub: Seq<char>) -> Seq<char>
    decreases s.len(),
{
    if pat.len() == 0 || s.len() < pat.len() {
        s
    } else if s.take(pat.len() as int) == pat {
        sub + spec_replace_all(s.skip(pat.len() as int), pat, sub)
    } else {
        seq![s[0]] + spec_replace_all(s.skip(1), pat, sub)
    }
}

/// Replace every occurrence of `pat` in `s` by `sub`, scanning left to
/// right without overlap.
pub fn replace_all(s: &str, pat: &str, sub: &str) -> (r: String)
    ensures
        r@ == spec_replace_all(s@, pat@, sub@),
{
    let sv = str_to_chars(s);
    let pv = str_to_chars(pat);
    let bv = str_to_chars(sub);
    let n = sv.len();
    let m = pv.len();
    if m == 0 {
        return s.to_owned();
    }
    let mut out: Vec<char> = Vec::new();
    let mut i: usize = 0;
    proof {
        assert(s@.skip(0) =~= s@);
        assert(Seq::<char>::empty() + spec_replace_all(s@, pat@, sub@)
            =~= spec_replace_all(s@, pat@, sub@));
    }
    while i < n
        invariant
            n == s@.len(),
            m == pat@.len(),
            m > 0,
            sv@ == s@,
            pv@ == pat@,
            bv@ == sub@,
            i <= n,
            spec_replace_all(s@, pat@, sub@)
                == out@ + spec_replace_all(s@.skip(i as int), pat@, sub@),
        decreases n - i,
    {
        let mut matched = false;
        if m <= n - i {
            matched = true;
            let mut k: usize = 0;
            while k < m
                invariant
                    n == s@.len(),
                    m == pat@.len(),
                    sv@ == s@,
                    pv@ == pat@,
                    i + m <= n,
                    k <= m,
                    matched == (forall|j: int| 0 <= j < k ==> s@[i + j] == pat@[j]),
                decreases m - k,
            {
                if sv[i + k] != pv[k] {
                    matched = false;
                }
                k += 1;
            }
        }
        if matched {
            proof {
                assert(s@.skip(i as int).take(m as int) =~= pat@);
                assert(s@.skip(i as int).skip(m as int) =~= s@.skip(i as int + m as int));
            }
            let ghost out0 = out@;
            let blen = bv.len();
            let mut q: usize = 0;
            proof {
                assert(out0 + sub@.take(0) =~= out0);
            }
            while q < blen
                invariant
                    bv@ == sub@,
                    blen == sub@.len(),
                    q <= blen,
                    out@ == out0 + sub@.take(q as int),
                decreases blen - q,
            {
                out.push(bv[q]);
                proof {
                    assert(out0 + sub@.take(q as int) + seq![sub@[q as int]]
                        =~= out0 + sub@.take(q as int + 1));
                }
                q += 1;
            }
            proof {
                assert(out0 + sub@.take(blen as int) =~= out0 + sub@);
                assert(out0 + sub@ + spec_replace_all(s@.skip(i as int + m as int), pat@, sub@)
                    =~= out0 + (sub@ + spec_replace_all(s@.skip(i as int + m as int), pat@, sub@)));
            }
            i += m;
        } else {
            proof {
                assert(s@.skip(i as int)[0] == s@[i as int]);
                assert(s@.skip(i as int).skip(1) =~= s@.skip(i as int + 1));
                if i + m <= n {
                    assert(exists|j: int| 0 <= j < m && s@[i + j] != pat@[j]);
                    let j = choose|j: int| 0 <= j < m && s@[i + j] != pat@[j];
                    assert(s@.skip(i as int).take(m as int)[j] != pat@[j]);
                    assert(s@.skip(i as int).take(m as int) != pat@);
                } else {
                    assert(s@.skip(i as int).len() < m);
                    assert(s@.skip(i as int + 1).len() < m);
                    assert(seq![s@[i as int]] + s@.skip(i as int + 1) =~= s@.skip(i as int));
                }
                assert(out@ + seq![s@[i as int]]
                    + spec_replace_all(s@.skip(i as int + 1), pat@, sub@)
                    =~= out@ + (seq![s@[i as int]]
                        + spec_replace_all(s@.skip(i as int + 1), pat@, sub@)));
            }
            out.push(sv[i]);
            i += 1;
        }
    }
    proof {
        assert(s@.skip(n as int) =~= Seq::<char>::empty());
        assert(out@ + Seq::<char>::empty() =~= out@);
    }
    chars_to_string(&out)
}

/// Both placeholders substituted: every `{{date}}` replaced by `date`,
/// then every `{{time}}` in that result replaced by `time`.
pub open spec fn spec_substitute_datetime(
    template: Seq<char>,
    date: Seq<char>,
    time: Seq<char>,
) -> Seq<char> {
    spec_replace_all(spec_replace_all(template, "{{date}}"@, date), "{{time}}"@, time)
}

/// Fill the `{{date}}` and `{{time}}` placeholders of a template with the
/// given date and time texts.
pub fn substitute_datetime(template: &str, date: &str, time: &str) -> (r: String)
    ensures
        r@ == spec_substitute_datetime(template@, date@, time@),
{
    let with_date = replace_all(template, "{{date}}", date);
    replace_all(with_date.as_str(), "{{time}}", time)
}

/// Relies on chrono::Local::now and chrono's formatter: the current local
/// date, written as year, month and day separated by dashes.
#[verifier::external_body]
fn current_date_string() -> (r: String) {
    chrono::Local::now().format("%Y-%m-%d").to_string()
}

/// Relies on chrono::Local::now and chrono's formatter: the current local
/// time, written as hour, minute and second separated by colons.
#[verifier::external_body]
fn current_time_string() -> (r: String) {
    chrono::Local::now().format("%H:%M:%S").to_string()
}

/// Substitute the current date and time for the `{{date}}` and `{{time}}`
/// placeholders. Whatever texts the clock yields, the result is exactly the
/// template with those two placeholders substituted.
pub fn process_dynamic_replacement(replacement: &str) -> (r: String)
    ensures
        exists|d: Seq<char>, t: Seq<char>|
            r@ == spec_substitute_datetime(replacement@, d, t),
{
    let date = current_date_string();
    let time = current_time_string();
    let r = substitute_datetime(replacement, date.as_str(), time.as_str());
    proof {
        assert(r@ == spec_substitute_datetime(replacement@, date@, time@));
    }
    r
}

/// The text typed in place of a code replacement: the program's output on
/// success, an inline error message on failure — a failed execution never
/// aborts the engine.
pub fn code_replacement_text(result: Result<String, String>) -> (r: String)
    ensures
        match result {
            Ok(out) => r@ == out@,
            Err(msg) => r@ == "Error executing code: "@ + msg@,
        },
{
    match result {
        Ok(out) => out,
        Err(msg) => {
            let prefix = String::from_str("Error executing code: ");
            prefix.concat(msg.as_str())
        },
    }
}

} // verus!
