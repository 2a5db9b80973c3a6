//! The configuration syntax: lines of the form `trigger1 | trigger2 =>
//! replacement`, where the replacement is a single line of text, a
//! backtick-delimited multiline block, or a fenced block tagged with a
//! language name. Leading `///key:value` lines populate the metadata;
//! leading `///` prose lines populate the documentation; `//` lines are
//! comments. Parse errors carry a line and column derived from the offset
//! of the unconsumed input.

use vstd::prelude::*;
use crate::config::{ConfigV, OverlayConfig, ReplacementV, RuleV, Replacement, TextraConfig,
    TextraRule};
use crate::text::{chars_to_string, str_to_chars};
use crate::textscan::{find_arrow, find_fence, find_from, is_blank_char, line_col, line_end,
    segment, skip_blank,
    skip_ws, spec_find_arrow, spec_find_fence, spec_find_from, spec_is_blank, spec_line_col,
    spec_line_end, spec_skip_blank, spec_skip_ws, spec_starts_with_at, spec_trim,
    lemma_find_arrow_bounds, lemma_find_fence_bounds, lemma_find_from_bounds,
    lemma_line_end_bounds, lemma_skip_blank_bounds, lemma_skip_ws_bounds, spec_is_ws,
    starts_with_at, trimmed_segment};

verus! {

/// A parse failure, reported at the line and column of the unconsumed
/// input. Lines are counted from one, columns from zero.
#[derive(Debug, Clone, PartialEq)]
pub struct ParseError {
    pub message: String,
    pub line: usize,
    pub column: usize,
}

/// A line's content with one trailing carriage return removed.
pub open spec fn spec_strip_cr(t: Seq<char>) -> Seq<char> {
    if t.len() > 0 && t.last() == '\r' {
        t.drop_last()
    } else {
        t
    }
}

/// A `///` line holds a metadata pair when a colon follows a non-empty,
/// blank-free key; any other `///` line is documentation.
pub open spec fn spec_metadata_shape(content: Seq<char>) -> bool {
    match spec_find_from(content, 0, ':') {
        Some(p) => p > 0 && forall|q: int| 0 <= q < p ==> !spec_is_blank(content[q]),
        None => false,
    }
}

/// The trigger list of a rule line: the text before `=>` split on `|`,
/// each piece trimmed.
pub open spec fn spec_split_trim_from(t: Seq<char>, i: int) -> Seq<Seq<char>>
    decreases t.len() - i when 0 <= i <= t.len() via spec_split_trim_from_dec
{
    match spec_find_from(t, i, '|') {
        None => seq![spec_trim(t.subrange(i, t.len() as int))],
        Some(p) => seq![spec_trim(t.subrange(i, p))] + spec_split_trim_from(t, p + 1),
    }
}

#[via_fn]
proof fn spec_split_trim_from_dec(t: Seq<char>, i: int) {
    lemma_find_from_bounds(t, i, '|');
}

/// Every trigger of the list is non-empty; an empty trigger would be a
/// suffix of every buffer, so the parser rejects it.
pub open spec fn spec_triggers_ok(ts: Seq<Seq<char>>) -> bool {
    &&& ts.len() >= 1
    &&& forall|i: int| 0 <= i < ts.len() ==> (#[trigger] ts[i]).len() > 0
}

/// An empty configuration body.
pub open spec fn spec_empty_config() -> ConfigV {
    ConfigV {
        metadata: Seq::<(Seq<char>, Seq<char>)>::empty(),
        documentation: Seq::<Seq<char>>::empty(),
        rules: Seq::<RuleV>::empty(),
    }
}

/// The parse of the entries of `s` from position `i` on: the metadata
/// pairs, documentation lines and rules they define, in order, or the
/// offset of the first malformed entry. An entry is a `///` line, a `//`
/// comment line, or a rule line; a rule's replacement is a fenced code
/// block, a backtick block, or the rest of the line.
pub open spec fn spec_parse_entries(s: Seq<char>, i: int) -> Result<ConfigV, int>
    decreases s.len() - i when 0 <= i <= s.len() via spec_parse_entries_dec
{
    let j = spec_skip_ws(s, i);
    if j >= s.len() {
        Ok(spec_empty_config())
    } else if spec_starts_with_at(s, j, "///"@) {
        let e = spec_line_end(s, j);
        let content = spec_strip_cr(s.subrange(j + 3, e));
        let next = if e < s.len() { e + 1 } else { e };
        match spec_parse_entries(s, next) {
            Ok(rest) => if spec_metadata_shape(content) {
                let p = spec_find_from(content, 0, ':').unwrap();
                Ok(ConfigV {
                    metadata: seq![(content.take(p), content.skip(p + 1))] + rest.metadata,
                    ..rest
                })
            } else {
                Ok(ConfigV { documentation: seq![spec_trim(content)] + rest.documentation, ..rest })
            },
            Err(x) => Err(x),
        }
    } else if spec_starts_with_at(s, j, "//"@) {
        let e = spec_line_end(s, j);
        let next = if e < s.len() { e + 1 } else { e };
        spec_parse_entries(s, next)
    } else {
        let e = spec_line_end(s, j);
        match spec_find_arrow(s, j, e) {
            None => Err(j),
            Some(a) => {
                let triggers = spec_split_trim_from(s.subrange(j, a), 0);
                if !spec_triggers_ok(triggers) {
                    Err(j)
                } else {
                    let k = spec_skip_blank(s, a + 2);
                    if spec_starts_with_at(s, k, "```"@) {
                        let le = spec_line_end(s, k + 3);
                        let language = spec_trim(s.subrange(k + 3, le));
                        if le >= s.len() {
                            Err(k)
                        } else {
                            match spec_find_fence(s, le + 1) {
                                None => Err(k),
                                Some(f) => {
                                    let content = s.subrange(le + 1, f);
                                    let e2 = spec_line_end(s, f + 3);
                                    let next = if e2 < s.len() { e2 + 1 } else { e2 };
                                    match spec_parse_entries(s, next) {
                                        Ok(rest) => Ok(ConfigV {
                                            rules: seq![RuleV {
                                                triggers: triggers,
                                                replacement: ReplacementV::Code {
                                                    language: language,
                                                    content: content,
                                                },
                                                description: None,
                                                category: None,
                                            }] + rest.rules,
                                            ..rest
                                        }),
                                        Err(x) => Err(x),
                                    }
                                },
                            }
                        }
                    } else if k < e && s[k] == '`' {
                        match spec_find_from(s, k + 1, '`') {
                            None => Err(k),
                            Some(q) => {
                                let content = s.subrange(k + 1, q);
                                let e2 = spec_line_end(s, q + 1);
                                let next = if e2 < s.len() { e2 + 1 } else { e2 };
                                match spec_parse_entries(s, next) {
                                    Ok(rest) => Ok(ConfigV {
                                        rules: seq![RuleV {
                                            triggers: triggers,
                                            replacement: ReplacementV::Multiline(content),
                                            description: None,
                                            category: None,
                                        }] + rest.rules,
                                        ..rest
                                    }),
                                    Err(x) => Err(x),
                                }
                            },
                        }
                    } else {
                        let text = spec_trim(s.subrange(k, e));
                        let next = if e < s.len() { e + 1 } else { e };
                        match spec_parse_entries(s, next) {
                            Ok(rest) => Ok(ConfigV {
                                rules: seq![RuleV {
                                    triggers: triggers,
                                    replacement: ReplacementV::Simple(text),
                                    description: None,
                                    category: None,
                                }] + rest.rules,
                                ..rest
                            }),
                            Err(x) => Err(x),
                        }
                    }
                }
            },
        }
    }
}

#[via_fn]
proof fn spec_parse_entries_dec(s: Seq<char>, i: int) {
    reveal_strlit("///");
    reveal_strlit("//");
    reveal_strlit("```");
    lemma_skip_ws_bounds(s, i);
    let j = spec_skip_ws(s, i);
    if j < s.len() {
        lemma_line_end_bounds(s, j);
        let e = spec_line_end(s, j);
        assert(!spec_is_ws(s[j]));
        assert(s[j] != '\n');
        assert(e > j);
        lemma_find_arrow_bounds(s, j, e);
        match spec_find_arrow(s, j, e) {
            None => {},
            Some(a) => {
                lemma_skip_blank_bounds(s, a + 2);
                let k = spec_skip_blank(s, a + 2);
                if spec_starts_with_at(s, k, "```"@) {
                    lemma_line_end_bounds(s, k + 3);
                    let le = spec_line_end(s, k + 3);
                    if le < s.len() {
                        lemma_find_fence_bounds(s, le + 1);
                        match spec_find_fence(s, le + 1) {
                            None => {},
                            Some(f) => {
                                lemma_line_end_bounds(s, f + 3);
                            },
                        }
                    }
                } else if k < e && s[k] == '`' {
                    lemma_find_from_bounds(s, k + 1, '`');
                    match spec_find_from(s, k + 1, '`') {
                        None => {},
                        Some(q) => {
                            lemma_line_end_bounds(s, q + 1);
                        },
                    }
                }
            },
        }
    }
}

/// The configuration body seen as metadata, documentation and rule
/// models, taken from the vectors a parse accumulates.
pub open spec fn meta_view(m: Vec<(String, String)>) -> Seq<(Seq<char>, Seq<char>)> {
    Seq::new(m@.len(), |i: int| (m@[i].0@, m@[i].1@))
}

/// The rule models of a rule vector.
pub open spec fn rules_view(r: Vec<TextraRule>) -> Seq<RuleV> {
    Seq::new(r@.len(), |i: int| r@[i]@)
}

/// Copy a line's content and remove one trailing carriage return.
fn strip_cr(v: &Vec<char>) -> (r: Vec<char>)
    ensures
        r@ == spec_strip_cr(v@),
{
    let n = v.len();
    if n > 0 && v[n - 1] == '\r' {
        let r = segment(v, 0, n - 1);
        proof {
            assert(v@.subrange(0, n - 1) =~= v@.drop_last());
        }
        r
    } else {
        let r = segment(v, 0, n);
        proof {
            assert(v@.subrange(0, n as int) =~= v@);
        }
        r
    }
}

/// Decide whether a `///` line is a metadata pair; on success the position
/// of the separating colon is returned.
fn metadata_colon(v: &Vec<char>) -> (r: Option<usize>)
    ensures
        match r {
            Some(p) => spec_metadata_shape(v@) && spec_find_from(v@, 0, ':') == Some(p as int)
                && p < v@.len(),
            None => !spec_metadata_shape(v@),
        },
{
    match find_from(v, 0, ':') {
        None => None,
        Some(p) => {
            if p == 0 {
                return None;
            }
            let mut q: usize = 0;
            while q < p
                invariant
                    q <= p,
                    p < v@.len(),
                    p > 0,
                    spec_find_from(v@, 0, ':') == Some(p as int),
                    forall|x: int| 0 <= x < q ==> !spec_is_blank(v@[x]),
                decreases p - q,
            {
                if is_blank_char(v[q]) {
                    return None;
                }
                q += 1;
            }
            Some(p)
        },
    }
}

/// Split the text before `=>` on `|` and trim each piece.
fn split_triggers(tv: &Vec<char>) -> (r: Vec<String>)
    ensures
        r.deep_view() == spec_split_trim_from(tv@, 0),
{
    let n = tv.len();
    let mut out: Vec<String> = Vec::new();
    let mut cur: usize = 0;
    let mut done = false;
    while !done
        invariant
            cur <= n,
            n == tv@.len(),
            !done ==> spec_split_trim_from(tv@, 0)
                == out.deep_view() + spec_split_trim_from(tv@, cur as int),
            done ==> out.deep_view() == spec_split_trim_from(tv@, 0),
        decreases n - cur + (if done { 0int } else { 1int }),
    {
        match find_from(tv, cur, '|') {
            Some(p) => {
                let piece = chars_to_string(&trimmed_segment(tv, cur, p));
                let ghost d0 = out.deep_view();
                out.push(piece);
                proof {
                    assert(out.deep_view() =~= d0 + seq![piece@]);
                    assert(d0 + (seq![piece@] + spec_split_trim_from(tv@, p + 1))
                        =~= (d0 + seq![piece@]) + spec_split_trim_from(tv@, p + 1));
                }
                cur = p + 1;
            },
            None => {
                let piece = chars_to_string(&trimmed_segment(tv, cur, n));
                let ghost d0 = out.deep_view();
                out.push(piece);
                proof {
                    assert(out.deep_view() =~= d0 + seq![piece@]);
                    assert(tv@.subrange(cur as int, n as int)
                        =~= tv@.subrange(cur as int, tv@.len() as int));
                    assert(d0 + seq![piece@] =~= spec_split_trim_from(tv@, 0));
                }
                done = true;
            },
        }
    }
    out
}

/// Every trigger of the list is non-empty, checked over owned strings.
fn triggers_nonempty(ts: &Vec<String>) -> (r: bool)
    ensures
        r == spec_triggers_ok(ts.deep_view()),
{
    let n = ts.len();
    if n == 0 {
        return false;
    }
    let mut i: usize = 0;
    while i < n
        invariant
            n == ts@.len(),
            i <= n,
            forall|j: int| 0 <= j < i ==> (#[trigger] ts.deep_view()[j]).len() > 0,
        decreases n - i,
    {
        if ts[i].as_str().unicode_len() == 0 {
            proof {
                assert(ts.deep_view()[i as int] == ts@[i as int]@);
            }
            return false;
        }
        proof {
            assert(ts.deep_view()[i as int] == ts@[i as int]@);
        }
        i += 1;
    }
    true
}

/// Build a parse error at an offset of the input.
fn make_error(sv: &Vec<char>, off: usize, msg: &str) -> (r: ParseError)
    requires
        off <= sv@.len(),
        sv@.len() < usize::MAX,
    ensures
        (r.line as int, r.column as int) == spec_line_col(sv@, off as int),
{
    let (line, column) = line_col(sv, off);
    ParseError { message: msg.to_owned(), line, column }
}

/// Does the invariant of the parse loop hold: the final parse result is
/// the accumulated entries followed by whatever parsing from `i` yields.
pub open spec fn parse_acc_ok(
    s: Seq<char>,
    m: Seq<(Seq<char>, Seq<char>)>,
    d: Seq<Seq<char>>,
    r: Seq<RuleV>,
    i: int,
) -> bool {
    match spec_parse_entries(s, i) {
        Ok(rest) => spec_parse_entries(s, 0) == Ok::<ConfigV, int>(
            ConfigV {
                metadata: m + rest.metadata,
                documentation: d + rest.documentation,
                rules: r + rest.rules,
            },
        ),
        Err(x) => spec_parse_entries(s, 0) == Err::<ConfigV, int>(x),
    }
}

/// Parse a configuration text. On success the result is exactly the parse
/// of the text's entries, with the default overlay style; on failure the
/// error's line and column are those of the offset at which parsing
/// stopped. The input's character count must leave one to spare in a
/// machine word.
pub fn parse_textra_config(input: &str) -> (r: Result<TextraConfig, ParseError>)
    requires
        input@.len() < usize::MAX,
    ensures
        match r {
            Ok(c) => {
                &&& spec_parse_entries(input@, 0) == Ok::<ConfigV, int>(c@)
                &&& c.wf()
            },
            Err(e) => {
                &&& spec_parse_entries(input@, 0) is Err
                &&& (e.line as int, e.column as int) == spec_line_col(
                    input@,
                    spec_parse_entries(input@, 0)->Err_0,
                )
            },
        },
{
    let sv = str_to_chars(input);
    let n = sv.len();
    let mut metadata: Vec<(String, String)> = Vec::new();
    let mut documentation: Vec<String> = Vec::new();
    let mut rules: Vec<TextraRule> = Vec::new();
    let mut i: usize = 0;
    proof {
        assert(meta_view(metadata) =~= Seq::<(Seq<char>, Seq<char>)>::empty());
        assert(documentation.deep_view() =~= Seq::<Seq<char>>::empty());
        assert(rules_view(rules) =~= Seq::<RuleV>::empty());
        match spec_parse_entries(input@, 0) {
            Ok(rest) => {
                assert(ConfigV {
                    metadata: meta_view(metadata) + rest.metadata,
                    documentation: documentation.deep_view() + rest.documentation,
                    rules: rules_view(rules) + rest.rules,
                } =~= rest);
            },
            Err(_) => {},
        }
    }
    while i < n
        invariant
            sv@ == input@,
            n == sv@.len(),
            i <= n,
            n < usize::MAX,
            crate::config::wf_rules(rules_view(rules)),
            parse_acc_ok(
                input@,
                meta_view(metadata),
                documentation.deep_view(),
                rules_view(rules),
                i as int,
            ),
        decreases n - i,
    {
        proof {
            reveal_strlit("///");
            reveal_strlit("//");
            reveal_strlit("```");
        }
        let j = skip_ws(&sv, i);
        if j == n {
            i = n;
        } else if starts_with_at(&sv, j, "///") {
            let e = line_end(&sv, j);
            proof {
                lemma_line_end_bounds(input@, j as int);
                assert(input@.subrange(j as int, j as int + 3) == "///"@);
                assert(input@[j as int] == "///"@[0]);
                assert(input@[j as int + 1] == "///"@[1]);
                assert(input@[j as int + 2] == "///"@[2]);
            }
            let content = strip_cr(&segment(&sv, j + 3, e));
            let next = if e < n {
                e + 1
            } else {
                e
            };
            let ghost m0 = meta_view(metadata);
            let ghost d0 = documentation.deep_view();
            match metadata_colon(&content) {
                Some(p) => {
                    let clen = content.len();
                    let key = chars_to_string(&segment(&content, 0, p));
                    proof {
                        assert(p < clen);
                    }
                    let value = chars_to_string(&segment(&content, p + 1, clen));
                    proof {
                        assert(key@ =~= content@.take(p as int));
                        assert(value@ =~= content@.skip(p + 1));
                    }
                    metadata.push((key, value));
                    proof {
                        assert(meta_view(metadata) =~= m0 + seq![(content@.take(p as int),
                            content@.skip(p + 1))]);
                        restore_acc_prepend_meta(input@, i as int, next as int, m0, d0,
                            rules_view(rules), content@, p as int);
                    }
                },
                None => {
                    let doc = chars_to_string(&trimmed_segment(&content, 0, content.len()));
                    proof {
                        assert(content@.subrange(0, content@.len() as int) =~= content@);
                    }
                    documentation.push(doc);
                    proof {
                        assert(documentation.deep_view() =~= d0 + seq![spec_trim(content@)]);
                        restore_acc_prepend_doc(input@, i as int, next as int, m0, d0,
                            rules_view(rules), content@);
                    }
                },
            }
            i = next;
        } else if starts_with_at(&sv, j, "//") {
            let e = line_end(&sv, j);
            let next = if e < n {
                e + 1
            } else {
                e
            };
            i = next;
        } else {
            let e = line_end(&sv, j);
            match find_arrow(&sv, j, e) {
                None => {
                    return Err(make_error(&sv, j, "expected '=>'"));
                },
                Some(a) => {
                    let tseg = segment(&sv, j, a);
                    let triggers = split_triggers(&tseg);
                    if !triggers_nonempty(&triggers) {
                        return Err(make_error(&sv, j, "empty trigger"));
                    }
                    let k = skip_blank(&sv, a + 2);
                    proof {
                        lemma_skip_blank_bounds(input@, a + 2);
                        lemma_line_end_bounds(input@, j as int);
                        if k > e {
                            assert(spec_is_blank(input@[e as int]));
                            assert(false);
                        }
                    }
                    let ghost m0 = meta_view(metadata);
                    let ghost d0 = documentation.deep_view();
                    let ghost r0 = rules_view(rules);
                    let ghost tv = triggers.deep_view();
                    if starts_with_at(&sv, k, "```") {
                        let le = line_end(&sv, k + 3);
                        let language = chars_to_string(&trimmed_segment(&sv, k + 3, le));
                        if le == n {
                            return Err(make_error(&sv, k, "unterminated code block"));
                        }
                        match find_fence(&sv, le + 1) {
                            None => {
                                return Err(make_error(&sv, k, "unterminated code block"));
                            },
                            Some(f) => {
                                proof {
                                    lemma_find_fence_bounds(input@, le + 1);
                                }
                                let content = chars_to_string(&segment(&sv, le + 1, f));
                                let e2 = line_end(&sv, f + 3);
                                let next = if e2 < n {
                                    e2 + 1
                                } else {
                                    e2
                                };
                                let rule = TextraRule {
                                    triggers,
                                    replacement: Replacement::Code { language, content },
                                    description: None,
                                    category: None,
                                };
                                proof {
                                    assert(rule@.triggers == tv);
                                }
                                rules.push(rule);
                                proof {
                                    assert(rules_view(rules) =~= r0 + seq![RuleV {
                                        triggers: tv,
                                        replacement: ReplacementV::Code {
                                            language: spec_trim(input@.subrange(k + 3, le as int)),
                                            content: input@.subrange(le + 1, f as int),
                                        },
                                        description: None,
                                        category: None,
                                    }]);
                                    restore_acc_prepend_rule(input@, i as int, next as int, m0,
                                        d0, r0, RuleV {
                                        triggers: tv,
                                        replacement: ReplacementV::Code {
                                            language: spec_trim(input@.subrange(k + 3, le as int)),
                                            content: input@.subrange(le + 1, f as int),
                                        },
                                        description: None,
                                        category: None,
                                    });
                                }
                                i = next;
                            },
                        }
                    } else if k < e && sv[k] == '`' {
                        match find_from(&sv, k + 1, '`') {
                            None => {
                                return Err(make_error(&sv, k,
                                    "unterminated multiline replacement"));
                            },
                            Some(q) => {
                                let content = chars_to_string(&segment(&sv, k + 1, q));
                                let e2 = line_end(&sv, q + 1);
                                let next = if e2 < n {
                                    e2 + 1
                                } else {
                                    e2
                                };
                                let rule = TextraRule {
                                    triggers,
                                    replacement: Replacement::Multiline(content),
                                    description: None,
                                    category: None,
                                };
                                rules.push(rule);
                                proof {
                                    assert(rules_view(rules) =~= r0 + seq![RuleV {
                                        triggers: tv,
                                        replacement: ReplacementV::Multiline(
                                            input@.subrange(k + 1, q as int)),
                                        description: None,
                                        category: None,
                                    }]);
                                    restore_acc_prepend_rule(input@, i as int, next as int, m0,
                                        d0, r0, RuleV {
                                        triggers: tv,
                                        replacement: ReplacementV::Multiline(
                                            input@.subrange(k + 1, q as int)),
                                        description: None,
                                        category: None,
                                    });
                                }
                                i = next;
                            },
                        }
                    } else {
                        let text = chars_to_string(&trimmed_segment(&sv, k, e));
                        let next = if e < n {
                            e + 1
                        } else {
                            e
                        };
                        let rule = TextraRule {
                            triggers,
                            replacement: Replacement::Simple(text),
                            description: None,
                            category: None,
                        };
                        rules.push(rule);
                        proof {
                            assert(rules_view(rules) =~= r0 + seq![RuleV {
                                triggers: tv,
                                replacement: ReplacementV::Simple(
                                    spec_trim(input@.subrange(k as int, e as int))),
                                description: None,
                                category: None,
                            }]);
                            restore_acc_prepend_rule(input@, i as int, next as int, m0, d0, r0,
                                RuleV {
                                triggers: tv,
                                replacement: ReplacementV::Simple(
                                    spec_trim(input@.subrange(k as int, e as int))),
                                description: None,
                                category: None,
                            });
                        }
                        i = next;
                    }
                },
            }
        }
    }
    proof {
        match spec_parse_entries(input@, n as int) {
            Ok(rest) => {
                assert(meta_view(metadata) + rest.metadata =~= meta_view(metadata));
                assert(documentation.deep_view() + rest.documentation
                    =~= documentation.deep_view());
                assert(rules_view(rules) + rest.rules =~= rules_view(rules));
            },
            Err(_) => {
                assert(false);
            },
        }
    }
    let c = TextraConfig { metadata, documentation, rules, overlay: OverlayConfig::default() };
    proof {
        assert(c@.metadata =~= meta_view(c.metadata));
        assert(c@.rules =~= rules_view(c.rules));
        assert(c@ =~= ConfigV {
            metadata: meta_view(c.metadata),
            documentation: c.documentation.deep_view(),
            rules: rules_view(c.rules),
        });
    }
    Ok(c)
}

/// Line and column of the point where parsing stopped, derived from the
/// unconsumed suffix of the input.
pub fn position_in_input(full_input: &str, error_input: &str) -> (r: (usize, usize))
    requires
        error_input@.len() <= full_input@.len(),
        full_input@.len() < usize::MAX,
    ensures
        (r.0 as int, r.1 as int) == spec_line_col(
            full_input@,
            full_input@.len() - error_input@.len(),
        ),
{
    let sv = str_to_chars(full_input);
    let elen = error_input.unicode_len();
    let off = sv.len() - elen;
    line_col(&sv, off)
}

/// The texts produced by a mapping, one after another.
pub open spec fn spec_concat_map<T>(s: Seq<T>, f: spec_fn(T) -> Seq<char>) -> Seq<char>
    decreases s.len(),
{
    if s.len() == 0 {
        Seq::<char>::empty()
    } else {
        f(s[0]) + spec_concat_map(s.skip(1), f)
    }
}

pub proof fn lemma_concat_map_snoc<T>(s: Seq<T>, x: T, f: spec_fn(T) -> Seq<char>)
    ensures
        spec_concat_map(s.push(x), f) == spec_concat_map(s, f) + f(x),
    decreases s.len(),
{
    if s.len() == 0 {
        assert(s.push(x)[0] == x);
        assert(s.push(x).skip(1) =~= Seq::<T>::empty());
        assert(spec_concat_map(Seq::<T>::empty(), f) == Seq::<char>::empty());
        assert(spec_concat_map(s.push(x), f) == f(x) + spec_concat_map(s.push(x).skip(1), f));
        assert(spec_concat_map(s, f) == Seq::<char>::empty());
        assert(spec_concat_map(s.push(x), f) =~= spec_concat_map(s, f) + f(x));
    } else {
        lemma_concat_map_snoc(s.skip(1), x, f);
        assert(s.push(x).skip(1) =~= s.skip(1).push(x));
        assert(s.push(x)[0] == s[0]);
        assert(spec_concat_map(s.push(x), f) =~= spec_concat_map(s, f) + f(x));
    }
}

/// The serialized form of a metadata pair.
pub open spec fn spec_meta_line(p: (Seq<char>, Seq<char>)) -> Seq<char> {
    "///"@ + p.0 + ":"@ + p.1 + "\n"@
}

/// The serialized form of a documentation line.
pub open spec fn spec_doc_line(d: Seq<char>) -> Seq<char> {
    "/// "@ + d + "\n"@
}

/// The triggers joined with ` | `.
pub open spec fn spec_join_triggers(ts: Seq<Seq<char>>) -> Seq<char>
    decreases ts.len(),
{
    if ts.len() == 0 {
        Seq::<char>::empty()
    } else if ts.len() == 1 {
        ts[0]
    } else {
        spec_join_triggers(ts.drop_last()) + " | "@ + ts.last()
    }
}

/// The serialized form of a replacement: the line itself, a backtick
/// block, or a fenced block tagged with the language.
pub open spec fn spec_serialize_replacement(r: ReplacementV) -> Seq<char> {
    match r {
        ReplacementV::Simple(t) => t,
        ReplacementV::Multiline(t) => "`"@ + t + "`"@,
        ReplacementV::Code { language, content } => "```"@ + language + "\n"@ + content + "```"@,
    }
}

/// The serialized form of a rule: its description and category as comment
/// lines where present, then the trigger list, the arrow, and the
/// replacement.
pub open spec fn spec_rule_text(r: RuleV) -> Seq<char> {
    (match r.description {
        Some(d) => "// "@ + d + "\n"@,
        None => Seq::<char>::empty(),
    }) + (match r.category {
        Some(c) => "// Category: "@ + c + "\n"@,
        None => Seq::<char>::empty(),
    }) + spec_join_triggers(r.triggers) + " => "@ + spec_serialize_replacement(r.replacement)
        + "\n"@
}

/// The serialized form of a whole configuration: metadata lines, then
/// documentation lines, then rules. Serialization is the structural
/// inverse of parsing, but descriptions and categories come back out as
/// plain comments that a reparse does not restore: the round trip is lossy
/// for them.
pub open spec fn spec_serialize_config(c: ConfigV) -> Seq<char> {
    spec_concat_map(c.metadata, |p: (Seq<char>, Seq<char>)| spec_meta_line(p))
        + spec_concat_map(c.documentation, |d: Seq<char>| spec_doc_line(d))
        + spec_concat_map(c.rules, |r: RuleV| spec_rule_text(r))
}

/// Write a configuration back out in the configuration syntax.
pub fn serialize_textra_config(config: &TextraConfig) -> (r: String)
    ensures
        r@ == spec_serialize_config(config@),
{
    let ghost fm = |p: (Seq<char>, Seq<char>)| spec_meta_line(p);
    let ghost fd = |d: Seq<char>| spec_doc_line(d);
    let ghost fr = |r: RuleV| spec_rule_text(r);
    let mut out = String::new();
    let nm = config.metadata.len();
    let mut i: usize = 0;
    proof {
        assert(config@.metadata.take(0) =~= Seq::<(Seq<char>, Seq<char>)>::empty());
    }
    while i < nm
        invariant
            nm == config@.metadata.len(),
            i <= nm,
            fm == (|p: (Seq<char>, Seq<char>)| spec_meta_line(p)),
            out@ == spec_concat_map(config@.metadata.take(i as int), fm),
        decreases nm - i,
    {
        out.append("///");
        out.append(config.metadata[i].0.as_str());
        out.append(":");
        out.append(config.metadata[i].1.as_str());
        out.append("\n");
        proof {
            lemma_concat_map_snoc(config@.metadata.take(i as int), config@.metadata[i as int],
                fm);
            assert(config@.metadata.take(i as int).push(config@.metadata[i as int])
                =~= config@.metadata.take(i as int + 1));
            assert(out@ =~= spec_concat_map(config@.metadata.take(i as int), fm)
                + spec_meta_line(config@.metadata[i as int]));
        }
        i += 1;
    }
    proof {
        assert(config@.metadata.take(nm as int) =~= config@.metadata);
    }
    let ghost meta_part = out@;
    let nd = config.documentation.len();
    let mut i: usize = 0;
    proof {
        assert(config@.documentation.take(0) =~= Seq::<Seq<char>>::empty());
        assert(meta_part + Seq::<char>::empty() =~= meta_part);
    }
    while i < nd
        invariant
            nd == config@.documentation.len(),
            i <= nd,
            fd == (|d: Seq<char>| spec_doc_line(d)),
            out@ == meta_part + spec_concat_map(config@.documentation.take(i as int), fd),
        decreases nd - i,
    {
        out.append("/// ");
        out.append(config.documentation[i].as_str());
        out.append("\n");
        proof {
            lemma_concat_map_snoc(config@.documentation.take(i as int),
                config@.documentation[i as int], fd);
            assert(config@.documentation.take(i as int).push(config@.documentation[i as int])
                =~= config@.documentation.take(i as int + 1));
            assert(config@.documentation[i as int] == config.documentation@[i as int]@);
            assert(out@ =~= meta_part + spec_concat_map(config@.documentation.take(i as int + 1),
                fd));
        }
        i += 1;
    }
    proof {
        assert(config@.documentation.take(nd as int) =~= config@.documentation);
    }
    let ghost head_part = out@;
    let nr = config.rules.len();
    let mut i: usize = 0;
    proof {
        assert(config@.rules.take(0) =~= Seq::<RuleV>::empty());
        assert(head_part + Seq::<char>::empty() =~= head_part);
    }
    while i < nr
        invariant
            nr == config@.rules.len(),
            i <= nr,
            fr == (|r: RuleV| spec_rule_text(r)),
            out@ == head_part + spec_concat_map(config@.rules.take(i as int), fr),
        decreases nr - i,
    {
        let piece = rule_text(&config.rules[i]);
        out.append(piece.as_str());
        proof {
            lemma_concat_map_snoc(config@.rules.take(i as int), config@.rules[i as int], fr);
            assert(config@.rules.take(i as int).push(config@.rules[i as int])
                =~= config@.rules.take(i as int + 1));
            assert(config@.rules[i as int] == config.rules@[i as int]@);
            assert(out@ =~= head_part + spec_concat_map(config@.rules.take(i as int + 1), fr));
        }
        i += 1;
    }
    proof {
        assert(config@.rules.take(nr as int) =~= config@.rules);
    }
    out
}

/// Write one rule out.
#[verifier::rlimit(60)]
fn rule_text(rule: &TextraRule) -> (r: String)
    ensures
        r@ == spec_rule_text(rule@),
{
    let mut line = String::new();
    match &rule.description {
        Some(d) => {
            line.append("// ");
            line.append(d.as_str());
            line.append("\n");
        },
        None => {},
    }
    match &rule.category {
        Some(c) => {
            line.append("// Category: ");
            line.append(c.as_str());
            line.append("\n");
        },
        None => {},
    }
    let ghost prefix = line@;
    let nt = rule.triggers.len();
    let mut i: usize = 0;
    proof {
        assert(rule@.triggers.take(0) =~= Seq::<Seq<char>>::empty());
    }
    while i < nt
        invariant
            nt == rule@.triggers.len(),
            rule@.triggers == rule.triggers.deep_view(),
            i <= nt,
            line@ == prefix + spec_join_triggers(rule@.triggers.take(i as int)),
        decreases nt - i,
    {
        if i > 0 {
            line.append(" | ");
        }
        line.append(rule.triggers[i].as_str());
        proof {
            assert(rule@.triggers[i as int] == rule.triggers@[i as int]@);
            assert(rule@.triggers.take(i as int + 1).drop_last()
                =~= rule@.triggers.take(i as int));
            assert(rule@.triggers.take(i as int + 1).last() == rule@.triggers[i as int]);
            if i == 0 {
                assert(prefix + Seq::<char>::empty() =~= prefix);
                assert(line@ =~= prefix + spec_join_triggers(rule@.triggers.take(1)));
            } else {
                assert(line@ =~= prefix + spec_join_triggers(rule@.triggers.take(i as int + 1)));
            }
        }
        i += 1;
    }
    proof {
        assert(rule@.triggers.take(nt as int) =~= rule@.triggers);
    }
    line.append(" => ");
    match &rule.replacement {
        Replacement::Simple(t) => {
            line.append(t.as_str());
        },
        Replacement::Multiline(t) => {
            line.append("`");
            line.append(t.as_str());
            line.append("`");
        },
        Replacement::Code { language, content } => {
            line.append("```");
            line.append(language.as_str());
            line.append("\n");
            line.append(content.as_str());
            line.append("```");
        },
    }
    line.append("\n");
    proof {
        assert(line@ =~= spec_rule_text(rule@));
    }
    line
}

/// Invariant restoration for a metadata entry: prepending on the spec side
/// matches appending on the executable side.
proof fn restore_acc_prepend_meta(
    s: Seq<char>,
    i: int,
    next: int,
    m0: Seq<(Seq<char>, Seq<char>)>,
    d0: Seq<Seq<char>>,
    r0: Seq<RuleV>,
    content: Seq<char>,
    p: int,
)
    requires
        parse_acc_ok(s, m0, d0, r0, i),
        spec_parse_entries(s, i) == (match spec_parse_entries(s, next) {
            Ok(rest) => Ok::<ConfigV, int>(ConfigV {
                metadata: seq![(content.take(p), content.skip(p + 1))] + rest.metadata,
                ..rest
            }),
            Err(x) => Err::<ConfigV, int>(x),
        }),
    ensures
        parse_acc_ok(s, m0 + seq![(content.take(p), content.skip(p + 1))], d0, r0, next),
{
    match spec_parse_entries(s, next) {
        Ok(rest) => {
            assert(m0 + (seq![(content.take(p), content.skip(p + 1))] + rest.metadata)
                =~= (m0 + seq![(content.take(p), content.skip(p + 1))]) + rest.metadata);
        },
        Err(_) => {},
    }
}

/// Invariant restoration for a documentation entry.
proof fn restore_acc_prepend_doc(
    s: Seq<char>,
    i: int,
    next: int,
    m0: Seq<(Seq<char>, Seq<char>)>,
    d0: Seq<Seq<char>>,
    r0: Seq<RuleV>,
    content: Seq<char>,
)
    requires
        parse_acc_ok(s, m0, d0, r0, i),
        spec_parse_entries(s, i) == (match spec_parse_entries(s, next) {
            Ok(rest) => Ok::<ConfigV, int>(ConfigV {
                documentation: seq![spec_trim(content)] + rest.documentation,
                ..rest
            }),
            Err(x) => Err::<ConfigV, int>(x),
        }),
    ensures
        parse_acc_ok(s, m0, d0 + seq![spec_trim(content)], r0, next),
{
    match spec_parse_entries(s, next) {
        Ok(rest) => {
            assert(d0 + (seq![spec_trim(content)] + rest.documentation)
                =~= (d0 + seq![spec_trim(content)]) + rest.documentation);
        },
        Err(_) => {},
    }
}

/// Invariant restoration for a rule entry.
proof fn restore_acc_prepend_rule(
    s: Seq<char>,
    i: int,
    next: int,
    m0: Seq<(Seq<char>, Seq<char>)>,
    d0: Seq<Seq<char>>,
    r0: Seq<RuleV>,
    rule: RuleV,
)
    requires
        parse_acc_ok(s, m0, d0, r0, i),
        spec_parse_entries(s, i) == (match spec_parse_entries(s, next) {
            Ok(rest) => Ok::<ConfigV, int>(ConfigV { rules: seq![rule] + rest.rules, ..rest }),
            Err(x) => Err::<ConfigV, int>(x),
        }),
    ensures
        parse_acc_ok(s, m0, d0, r0 + seq![rule], next),
{
    match spec_parse_entries(s, next) {
        Ok(rest) => {
            assert(r0 + (seq![rule] + rest.rules) =~= (r0 + seq![rule]) + rest.rules);
        },
        Err(_) => {},
    }
}

} // verus!
