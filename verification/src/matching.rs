//! Trigger matching: scan the rules in declaration order and, within a
//! rule, its triggers in list order; the first trigger that is a suffix of
//! the buffer wins. No longest-match or ambiguity resolution is performed.

use vstd::prelude::*;
use crate::buffer::{is_suffix_of, RollingBuffer};
use crate::config::{RuleV, TextraConfig};

verus! {

/// Index of the first trigger at or after `j` that is a suffix of `b`.
pub open spec fn first_trigger_match_from(
    triggers: Seq<Seq<char>>,
    b: Seq<char>,
    j: int,
) -> Option<int>
    decreases triggers.len() - j when 0 <= j <= triggers.len()
{
    if j >= triggers.len() {
        None
    } else if is_suffix_of(triggers[j], b) {
        Some(j)
    } else {
        first_trigger_match_from(triggers, b, j + 1)
    }
}

/// The first rule at or after `i` one of whose triggers is a suffix of `b`,
/// together with the index of its first matching trigger.
pub open spec fn spec_find_match_from(
    rules: Seq<RuleV>,
    b: Seq<char>,
    i: int,
) -> Option<(int, int)>
    decreases rules.len() - i when 0 <= i <= rules.len()
{
    if i >= rules.len() {
        None
    } else {
        match first_trigger_match_from(rules[i].triggers, b, 0) {
            Some(j) => Some((i, j)),
            None => spec_find_match_from(rules, b, i + 1),
        }
    }
}

/// The match decision for a buffer: the first rule in declaration order
/// whose first matching trigger (in list order) is a suffix of the buffer.
pub open spec fn spec_find_match(rules: Seq<RuleV>, b: Seq<char>) -> Option<(int, int)> {
    spec_find_match_from(rules, b, 0)
}

proof fn lemma_trigger_scan_advance(triggers: Seq<Seq<char>>, b: Seq<char>, j: int)
    requires
        0 <= j <= triggers.len(),
        forall|l: int| 0 <= l < j ==> !is_suffix_of(triggers[l], b),
    ensures
        first_trigger_match_from(triggers, b, 0) == first_trigger_match_from(triggers, b, j),
    decreases j,
{
    if j > 0 {
        lemma_trigger_scan_advance(triggers, b, j - 1);
    }
}

proof fn lemma_trigger_scan_none(triggers: Seq<Seq<char>>, b: Seq<char>, j: int)
    requires
        0 <= j <= triggers.len(),
        forall|l: int| j <= l < triggers.len() ==> !is_suffix_of(triggers[l], b),
    ensures
        first_trigger_match_from(triggers, b, j) is None,
    decreases triggers.len() - j,
{
    if j < triggers.len() {
        lemma_trigger_scan_none(triggers, b, j + 1);
    }
}

proof fn lemma_rule_scan_advance(rules: Seq<RuleV>, b: Seq<char>, i: int)
    requires
        0 <= i <= rules.len(),
        forall|k: int, l: int|
            0 <= k < i && 0 <= l < rules[k].triggers.len()
                ==> !is_suffix_of(#[trigger] rules[k].triggers[l], b),
    ensures
        spec_find_match_from(rules, b, 0) == spec_find_match_from(rules, b, i),
    decreases i,
{
    if i > 0 {
        lemma_rule_scan_advance(rules, b, i - 1);
        lemma_trigger_scan_none(rules[i - 1].triggers, b, 0);
    }
}

/// Matching is order-dependent, never length-dependent: whenever rule `i`
/// holds a matching trigger `j`, no earlier rule holds any matching trigger,
/// and no earlier trigger of rule `i` matches, then the match decision is
/// exactly `(i, j)` — whatever the lengths of any other matching triggers.
pub proof fn lemma_match_declaration_order(rules: Seq<RuleV>, b: Seq<char>, i: int, j: int)
    requires
        0 <= i < rules.len(),
        0 <= j < rules[i].triggers.len(),
        is_suffix_of(rules[i].triggers[j], b),
        forall|k: int, l: int|
            0 <= k < i && 0 <= l < rules[k].triggers.len()
                ==> !is_suffix_of(#[trigger] rules[k].triggers[l], b),
        forall|l: int| 0 <= l < j ==> !is_suffix_of(rules[i].triggers[l], b),
    ensures
        spec_find_match(rules, b) == Some((i, j)),
{
    lemma_rule_scan_advance(rules, b, i);
    lemma_trigger_scan_advance(rules[i].triggers, b, j);
}

/// Matching is deterministic: the decision is a function of the rule list
/// and the buffer alone, so equal configurations and equal buffers always
/// yield the same decision.
pub proof fn lemma_match_deterministic(
    rules1: Seq<RuleV>,
    rules2: Seq<RuleV>,
    b1: Seq<char>,
    b2: Seq<char>,
)
    requires
        rules1 == rules2,
        b1 == b2,
    ensures
        spec_find_match(rules1, b1) == spec_find_match(rules2, b2),
{
}

/// Scan the rules in declaration order for the first whose trigger is a
/// suffix of the buffer; the result is the pair of rule index and trigger
/// index of the match decision.
pub fn find_match(config: &TextraConfig, buf: &RollingBuffer) -> (r: Option<(usize, usize)>)
    ensures
        match r {
            Some(p) => {
                &&& (p.0 as int) < config@.rules.len()
                &&& (p.1 as int) < config@.rules[p.0 as int].triggers.len()
                &&& spec_find_match(config@.rules, buf@) == Some((p.0 as int, p.1 as int))
            },
            None => spec_find_match(config@.rules, buf@) is None,
        },
{
    let nrules = config.rules.len();
    let mut i: usize = 0;
    while i < nrules
        invariant
            nrules == config@.rules.len(),
            i <= nrules,
            spec_find_match(config@.rules, buf@)
                == spec_find_match_from(config@.rules, buf@, i as int),
        decreases nrules - i,
    {
        let ntrig = config.rules[i].triggers.len();
        let mut j: usize = 0;
        while j < ntrig
            invariant
                nrules == config@.rules.len(),
                i < nrules,
                ntrig == config@.rules[i as int].triggers.len(),
                j <= ntrig,
                spec_find_match(config@.rules, buf@)
                    == spec_find_match_from(config@.rules, buf@, i as int),
                first_trigger_match_from(config@.rules[i as int].triggers, buf@, 0)
                    == first_trigger_match_from(config@.rules[i as int].triggers, buf@, j as int),
            decreases ntrig - j,
        {
            if buf.ends_with_str(config.rules[i].triggers[j].as_str()) {
                proof {
                    assert(config@.rules[i as int].triggers[j as int]
                        == config.rules@[i as int].triggers@[j as int]@);
                    assert(first_trigger_match_from(
                        config@.rules[i as int].triggers, buf@, j as int) == Some(j as int));
                    assert(spec_find_match_from(config@.rules, buf@, i as int)
                        == Some((i as int, j as int)));
                    assert(spec_find_match(config@.rules, buf@)
                        == Some((i as int, j as int)));
                }
                return Some((i, j));
            }
            proof {
                assert(config@.rules[i as int].triggers[j as int]
                    == config.rules@[i as int].triggers@[j as int]@);
            }
            j += 1;
        }
        i += 1;
    }
    None
}

} // verus!
