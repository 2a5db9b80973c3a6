//! The configuration model: immutable rule records, their metadata and
//! documentation, and the overlay style. A configuration is built by the
//! parser, swapped wholesale on reload, and never mutated in place.

use vstd::prelude::*;

verus! {

/// Mathematical model of a replacement.
#[verifier::ext_equal]
pub ghost enum ReplacementV {
    Simple(Seq<char>),
    Multiline(Seq<char>),
    Code { language: Seq<char>, content: Seq<char> },
}

/// Mathematical model of a rule.
#[verifier::ext_equal]
pub ghost struct RuleV {
    pub triggers: Seq<Seq<char>>,
    pub replacement: ReplacementV,
    pub description: Option<Seq<char>>,
    pub category: Option<Seq<char>>,
}

/// Mathematical model of a configuration.
#[verifier::ext_equal]
pub ghost struct ConfigV {
    pub metadata: Seq<(Seq<char>, Seq<char>)>,
    pub documentation: Seq<Seq<char>>,
    pub rules: Seq<RuleV>,
}

/// What replaces a trigger: a single line (case-propagated against the
/// trigger), a literal multiline block, or the output of a program run
/// through an external interpreter at match time.
#[derive(Debug, Clone, PartialEq)]
pub enum Replacement {
    Simple(String),
    Multiline(String),
    Code { language: String, content: String },
}

impl View for Replacement {
    type V = ReplacementV;

    open spec fn view(&self) -> ReplacementV {
        match self {
            Replacement::Simple(s) => ReplacementV::Simple(s@),
            Replacement::Multiline(s) => ReplacementV::Multiline(s@),
            Replacement::Code { language, content } => ReplacementV::Code {
                language: language@,
                content: content@,
            },
        }
    }
}

/// One rule: any of its triggers firing selects its replacement. Triggers
/// are compared by exact, case-sensitive suffix match in declaration order.
#[derive(Debug, Clone, PartialEq)]
pub struct TextraRule {
    pub triggers: Vec<String>,
    pub replacement: Replacement,
    pub description: Option<String>,
    pub category: Option<String>,
}

impl View for TextraRule {
    type V = RuleV;

    open spec fn view(&self) -> RuleV {
        RuleV {
            triggers: self.triggers.deep_view(),
            replacement: self.replacement@,
            description: self.description.deep_view(),
            category: self.category.deep_view(),
        }
    }
}

/// A rule is well formed when it has at least one trigger and every trigger
/// is non-empty: an empty trigger would be a suffix of every buffer.
pub open spec fn wf_rule(r: RuleV) -> bool {
    &&& r.triggers.len() >= 1
    &&& forall|i: int| 0 <= i < r.triggers.len() ==> r.triggers[i].len() > 0
}

/// Every rule of the configuration is well formed.
pub open spec fn wf_rules(rules: Seq<RuleV>) -> bool {
    forall|i: int| 0 <= i < rules.len() ==> wf_rule(#[trigger] rules[i])
}

/// Style of the template-picker overlay. All quantities are plain integers;
/// the opacity is carried as a percentage.
#[derive(Debug, Clone, PartialEq)]
pub struct OverlayConfig {
    pub width: u32,
    pub height: u32,
    pub font_size: u32,
    pub font_family: String,
    pub opacity_percent: u32,
    pub primary_color: String,
    pub secondary_color: String,
    pub text_color: String,
    pub border_radius: u32,
}

impl Default for OverlayConfig {
    fn default() -> (r: OverlayConfig)
        ensures
            r.width == 800,
            r.height == 600,
            r.font_size == 14,
            r.font_family@ == "Segoe UI"@,
            r.opacity_percent == 90,
            r.primary_color@ == "#2c3e50"@,
            r.secondary_color@ == "#3498db"@,
            r.text_color@ == "#ecf0f1"@,
            r.border_radius == 8,
    {
        OverlayConfig {
            width: 800,
            height: 600,
            font_size: 14,
            font_family: String::from_str("Segoe UI"),
            opacity_percent: 90,
            primary_color: String::from_str("#2c3e50"),
            secondary_color: String::from_str("#3498db"),
            text_color: String::from_str("#ecf0f1"),
            border_radius: 8,
        }
    }
}

/// A full configuration: metadata pairs, documentation lines, the ordered
/// rule list, and the overlay style. Metadata pairs keep the order in which
/// they were written; looking a key up takes the last pair with that key,
/// so a repeated key behaves as an overwrite.
#[derive(Debug, Clone, PartialEq)]
pub struct TextraConfig {
    pub metadata: Vec<(String, String)>,
    pub documentation: Vec<String>,
    pub rules: Vec<TextraRule>,
    pub overlay: OverlayConfig,
}

impl View for TextraConfig {
    type V = ConfigV;

    open spec fn view(&self) -> ConfigV {
        ConfigV {
            metadata: Seq::new(
                self.metadata@.len(),
                |i: int| (self.metadata@[i].0@, self.metadata@[i].1@),
            ),
            documentation: self.documentation.deep_view(),
            rules: Seq::new(self.rules@.len(), |i: int| self.rules@[i]@),
        }
    }
}

/// The value stored under `key` in a metadata pair sequence: the last pair
/// with that key, if any — so a repeated key behaves as an overwrite.
pub open spec fn spec_metadata_lookup(
    pairs: Seq<(Seq<char>, Seq<char>)>,
    key: Seq<char>,
) -> Option<Seq<char>>
    decreases pairs.len(),
{
    if pairs.len() == 0 {
        None
    } else if pairs.last().0 == key {
        Some(pairs.last().1)
    } else {
        spec_metadata_lookup(pairs.drop_last(), key)
    }
}

impl TextraConfig {
    /// All rules are well formed.
    pub open spec fn wf(&self) -> bool {
        wf_rules(self@.rules)
    }

    /// A configuration with nothing in it and the default overlay style.
    pub fn empty() -> (r: TextraConfig)
        ensures
            r@.metadata == Seq::<(Seq<char>, Seq<char>)>::empty(),
            r@.documentation == Seq::<Seq<char>>::empty(),
            r@.rules == Seq::<RuleV>::empty(),
            r.wf(),
    {
        let r = TextraConfig {
            metadata: Vec::new(),
            documentation: Vec::new(),
            rules: Vec::new(),
            overlay: OverlayConfig::default(),
        };
        proof {
            assert(r@.metadata =~= Seq::<(Seq<char>, Seq<char>)>::empty());
            assert(r@.documentation =~= Seq::<Seq<char>>::empty());
            assert(r@.rules =~= Seq::<RuleV>::empty());
        }
        r
    }

    /// Look a metadata key up; the last pair with that key wins.
    pub fn metadata_get(&self, key: &str) -> (r: Option<&String>)
        ensures
            match r {
                Some(v) => spec_metadata_lookup(self@.metadata, key@) == Some(v@),
                None => spec_metadata_lookup(self@.metadata, key@) is None,
            },
    {
        let n = self.metadata.len();
        let mut i: usize = n;
        proof {
            assert(self@.metadata.take(n as int) =~= self@.metadata);
        }
        while i > 0
            invariant
                n == self.metadata@.len(),
                i <= n,
                spec_metadata_lookup(self@.metadata, key@)
                    == spec_metadata_lookup(self@.metadata.take(i as int), key@),
            decreases i,
        {
            let idx = i - 1;
            proof {
                assert(self@.metadata.take(i as int).last() == self@.metadata[idx as int]);
            }
            if str_eq_string(key, &self.metadata[idx].0) {
                return Some(&self.metadata[idx].1);
            }
            proof {
                assert(self@.metadata.take(i as int).drop_last()
                    =~= self@.metadata.take(idx as int));
            }
            i = idx;
        }
        proof {
            assert(self@.metadata.take(0) =~= Seq::<(Seq<char>, Seq<char>)>::empty());
        }
        None
    }
}

/// Character-for-character equality of a string slice and an owned string.
pub fn str_eq_string(a: &str, b: &String) -> (r: bool)
    ensures
        r == (a@ == b@),
{
    let alen = a.unicode_len();
    let blen = b.as_str().unicode_len();
    if alen != blen {
        proof {
            assert(a@ != b@);
        }
        return false;
    }
    let mut k: usize = 0;
    while k < alen
        invariant
            alen == a@.len(),
            alen == b@.len(),
            k <= alen,
            forall|j: int| 0 <= j < k ==> a@[j] == b@[j],
        decreases alen - k,
    {
        if a.get_char(k) != b.as_str().get_char(k) {
            return false;
        }
        k += 1;
    }
    proof {
        assert(a@ =~= b@);
    }
    true
}

} // verus!
