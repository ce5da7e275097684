//! Pattern classification and matching for candidate addresses.
//!
//! Raw pattern strings are folded to lowercase and classified into three
//! disjoint rule groups: a leading `^` makes a prefix rule, a trailing `$`
//! (on a string that does not start with `^`) makes a suffix rule, and
//! anything else is a contains rule. Patterns are regular expressions;
//! for the common case of a plain hex-digit pattern the match semantics
//! is pinned down exactly (starts-with, ends-with, substring), while the
//! general case is stated through an uninterpreted model of the regex
//! engine.

use vstd::prelude::*;

use crate::addresses::ascii_lower;
use crate::addresses::is_lower_hex_digit_char;
use crate::addresses::lemma_ascii_lower_is_ascii;
use crate::addresses::lemma_valid_address_is_ascii;
use crate::addresses::spec_is_valid_address;
use crate::addresses::to_lowercase;
use crate::addresses::unicode_lower;

verus! {

/// The three disjoint classes a pattern can fall into.
#[derive(Clone, Copy, PartialEq, Eq, Structural, Debug)]
pub enum RuleKind {
    Prefix,
    Suffix,
    Contains,
}

/// `p` appears at the start of `s`.
pub open spec fn starts_with(s: Seq<char>, p: Seq<char>) -> bool {
    p.len() <= s.len() && s.subrange(0, p.len() as int) == p
}

/// `p` appears at the end of `s`.
pub open spec fn ends_with(s: Seq<char>, p: Seq<char>) -> bool {
    p.len() <= s.len() && s.subrange(s.len() - p.len(), s.len() as int) == p
}

/// `p` appears somewhere inside `s`.
pub open spec fn contains_seq(s: Seq<char>, p: Seq<char>) -> bool {
    exists|i: int|
        0 <= i && i + p.len() <= s.len() && #[trigger] s.subrange(i, i + p.len()) == p
}

/// A pattern made of lowercase hex digits alone: no regex metacharacters,
/// so its match semantics is plain substring search.
pub open spec fn all_hex_literal(p: Seq<char>) -> bool {
    forall|i: int| 0 <= i < p.len() ==> is_lower_hex_digit_char(#[trigger] p[i])
}

/// Classification of a folded pattern string, total by construction.
pub open spec fn classify(p: Seq<char>) -> RuleKind {
    if p.len() > 0 && p[0] == '^' {
        RuleKind::Prefix
    } else if p.len() > 0 && p[p.len() - 1] == '$' {
        RuleKind::Suffix
    } else {
        RuleKind::Contains
    }
}

/// The pattern with its anchor character removed.
pub open spec fn strip_anchors(p: Seq<char>) -> Seq<char> {
    match classify(p) {
        RuleKind::Prefix => p.skip(1),
        RuleKind::Suffix => p.take(p.len() - 1),
        RuleKind::Contains => p,
    }
}

/// Whether `regex::Regex::new` accepts the pattern.
pub uninterp spec fn regex_valid(p: Seq<char>) -> bool;

/// Whether the compiled pattern matches somewhere in the text.
pub uninterp spec fn regex_matches(p: Seq<char>, text: Seq<char>) -> bool;

/// Relies on `regex::Regex::new`: success depends on the pattern alone
/// (the default compile configuration is fixed).
#[verifier::external_body]
fn regex_compiles(pattern: &str) -> (r: bool)
    ensures
        r == regex_valid(pattern@),
{
    regex::Regex::new(pattern).is_ok()
}

/// Relies on `regex::Regex::new` and `regex::Regex::is_match`: the result
/// depends on pattern and haystack alone; a hex-digit pattern that
/// compiles matches iff it occurs as a substring, `^` anchors it to the
/// start of the haystack, and `$` anchors it to the end.
#[verifier::external_body]
fn regex_is_match(pattern: &str, text: &str) -> (r: bool)
    ensures
        regex_valid(pattern@) ==> r == regex_matches(pattern@, text@),
        !regex_valid(pattern@) ==> !r,
        (regex_valid(pattern@) && all_hex_literal(pattern@)) ==> r == contains_seq(
            text@,
            pattern@,
        ),
        (regex_valid(pattern@) && pattern@.len() > 0 && pattern@[0] == '^' && all_hex_literal(
            pattern@.skip(1),
        )) ==> r == starts_with(text@, pattern@.skip(1)),
        (regex_valid(pattern@) && pattern@.len() > 0 && pattern@[pattern@.len() - 1] == '$'
            && all_hex_literal(pattern@.take(pattern@.len() - 1))) ==> r == ends_with(
            text@,
            pattern@.take(pattern@.len() - 1),
        ),
{
    match regex::Regex::new(pattern) {
        Ok(re) => re.is_match(text),
        Err(_) => false,
    }
}

/// One compiled matching rule: its class, the anchor-stripped text, and
/// the full folded pattern handed to the regex engine.
pub struct PatternRule {
    pub kind: RuleKind,
    pub text: String,
    pub pattern: String,
}

impl PatternRule {
    /// The rule is the faithful image of its pattern string.
    pub open spec fn wf(self) -> bool {
        &&& self.kind == classify(self.pattern@)
        &&& self.text@ == strip_anchors(self.pattern@)
        &&& regex_valid(self.pattern@)
    }

    /// What the rule means on a folded 40-character hex body.
    pub open spec fn spec_matches(self, body: Seq<char>) -> bool {
        if all_hex_literal(self.text@) {
            match self.kind {
                RuleKind::Prefix => starts_with(body, self.text@),
                RuleKind::Suffix => ends_with(body, self.text@),
                RuleKind::Contains => contains_seq(body, self.text@),
            }
        } else {
            regex_matches(self.pattern@, body)
        }
    }
}

/// How a raw pattern string is folded before classification.
pub open spec fn spec_fold(p: Seq<char>) -> Seq<char> {
    if vstd::utf8::is_ascii_chars(p) {
        ascii_lower(p)
    } else {
        unicode_lower(p)
    }
}

/// The folded patterns of a raw pattern list that classify as `kind`,
/// in input order.
pub open spec fn group_of(ps: Seq<Seq<char>>, kind: RuleKind) -> Seq<Seq<char>>
    decreases ps.len(),
{
    if ps.len() == 0 {
        Seq::empty()
    } else {
        let init = group_of(ps.drop_last(), kind);
        if classify(ps.last()) == kind {
            init.push(ps.last())
        } else {
            init
        }
    }
}

/// A rule group matches a body when some rule in it matches.
pub open spec fn group_matches(rules: Seq<PatternRule>, body: Seq<char>) -> bool {
    exists|i: int| 0 <= i < rules.len() && (#[trigger] rules[i]).spec_matches(body)
}

/// An immutable set of compiled rules, grouped by class. Never mutated
/// after construction, so concurrent readers need no lock.
pub struct PatternMatcher {
    prefix_patterns: Vec<PatternRule>,
    suffix_patterns: Vec<PatternRule>,
    contains_patterns: Vec<PatternRule>,
}

impl PatternMatcher {
    #[verifier::type_invariant]
    spec fn inv(self) -> bool {
        &&& forall|i: int|
            0 <= i < self.prefix_patterns@.len() ==> (#[trigger] self.prefix_patterns@[i]).wf()
                && self.prefix_patterns@[i].kind == RuleKind::Prefix
        &&& forall|i: int|
            0 <= i < self.suffix_patterns@.len() ==> (#[trigger] self.suffix_patterns@[i]).wf()
                && self.suffix_patterns@[i].kind == RuleKind::Suffix
        &&& forall|i: int|
            0 <= i < self.contains_patterns@.len() ==> (#[trigger] self.contains_patterns@[i]).wf()
                && self.contains_patterns@[i].kind == RuleKind::Contains
    }

    /// The prefix rules, in the order their patterns were given.
    pub closed spec fn prefix_rules(self) -> Seq<PatternRule> {
        self.prefix_patterns@
    }

    /// The suffix rules, in the order their patterns were given.
    pub closed spec fn suffix_rules(self) -> Seq<PatternRule> {
        self.suffix_patterns@
    }

    /// The contains rules, in the order their patterns were given.
    pub closed spec fn contains_rules(self) -> Seq<PatternRule> {
        self.contains_patterns@
    }

    /// What `matches_any` returns: the format guard must pass, and then
    /// some rule of some group must match the folded hex body.
    pub open spec fn spec_matches_any(self, address: Seq<char>) -> bool {
        &&& spec_is_valid_address(address)
        &&& {
            let body = ascii_lower(address).subrange(2, 42);
            ||| group_matches(self.prefix_rules(), body)
            ||| group_matches(self.suffix_rules(), body)
            ||| group_matches(self.contains_rules(), body)
        }
    }

    /// Compiles a matcher from raw pattern strings. Each string is folded
    /// to lowercase, classified, and placed in exactly one rule group in
    /// input order.
    pub fn new(patterns: Vec<String>) -> (r: Self)
        requires
            forall|i: int|
                0 <= i < patterns@.len() ==> regex_valid(spec_fold(#[trigger] patterns@[i]@)),
        ensures
            r.prefix_rules().map_values(|rule: PatternRule| rule.pattern@) == group_of(
                folded_all(patterns@),
                RuleKind::Prefix,
            ),
            r.suffix_rules().map_values(|rule: PatternRule| rule.pattern@) == group_of(
                folded_all(patterns@),
                RuleKind::Suffix,
            ),
            r.contains_rules().map_values(|rule: PatternRule| rule.pattern@) == group_of(
                folded_all(patterns@),
                RuleKind::Contains,
            ),
            forall|i: int|
                0 <= i < r.prefix_rules().len() ==> (#[trigger] r.prefix_rules()[i]).wf()
                    && r.prefix_rules()[i].kind == RuleKind::Prefix,
            forall|i: int|
                0 <= i < r.suffix_rules().len() ==> (#[trigger] r.suffix_rules()[i]).wf()
                    && r.suffix_rules()[i].kind == RuleKind::Suffix,
            forall|i: int|
                0 <= i < r.contains_rules().len() ==> (#[trigger] r.contains_rules()[i]).wf()
                    && r.contains_rules()[i].kind == RuleKind::Contains,
    {
        let ghost all = folded_all(patterns@);
        let mut prefix_patterns: Vec<PatternRule> = Vec::new();
        let mut suffix_patterns: Vec<PatternRule> = Vec::new();
        let mut contains_patterns: Vec<PatternRule> = Vec::new();
        let mut i: usize = 0;
        while i < patterns.len()
            invariant
                0 <= i <= patterns@.len(),
                all == folded_all(patterns@),
                forall|j: int|
                    0 <= j < patterns@.len() ==> regex_valid(spec_fold(#[trigger] patterns@[j]@)),
                prefix_patterns@.map_values(|rule: PatternRule| rule.pattern@) == group_of(
                    all.take(i as int),
                    RuleKind::Prefix,
                ),
                suffix_patterns@.map_values(|rule: PatternRule| rule.pattern@) == group_of(
                    all.take(i as int),
                    RuleKind::Suffix,
                ),
                contains_patterns@.map_values(|rule: PatternRule| rule.pattern@) == group_of(
                    all.take(i as int),
                    RuleKind::Contains,
                ),
                forall|j: int|
                    0 <= j < prefix_patterns@.len() ==> (#[trigger] prefix_patterns@[j]).wf()
                        && prefix_patterns@[j].kind == RuleKind::Prefix,
                forall|j: int|
                    0 <= j < suffix_patterns@.len() ==> (#[trigger] suffix_patterns@[j]).wf()
                        && suffix_patterns@[j].kind == RuleKind::Suffix,
                forall|j: int|
                    0 <= j < contains_patterns@.len() ==> (#[trigger] contains_patterns@[j]).wf()
                        && contains_patterns@[j].kind == RuleKind::Contains,
            decreases patterns@.len() - i,
        {
            let folded = to_lowercase(patterns[i].as_str());
            proof {
                assert(folded@ == spec_fold(patterns@[i as int]@));
                assert(all.take(i + 1).drop_last() =~= all.take(i as int));
                assert(all.take(i + 1).last() == folded@);
            }
            let n = folded.as_str().unicode_len();
            if n > 0 && folded.as_str().get_char(0) == '^' {
                let text = folded.as_str().substring_char(1, n).to_owned();
                proof {
                    assert(text@ =~= strip_anchors(folded@));
                }
                let rule = PatternRule { kind: RuleKind::Prefix, text, pattern: folded };
                prefix_patterns.push(rule);
                proof {
                    assert(prefix_patterns@.map_values(|rule: PatternRule| rule.pattern@)
                        =~= group_of(all.take(i + 1), RuleKind::Prefix));
                    assert(suffix_patterns@.map_values(|rule: PatternRule| rule.pattern@)
                        =~= group_of(all.take(i + 1), RuleKind::Suffix));
                    assert(contains_patterns@.map_values(|rule: PatternRule| rule.pattern@)
                        =~= group_of(all.take(i + 1), RuleKind::Contains));
                }
            } else if n > 0 && folded.as_str().get_char(n - 1) == '$' {
                let text = folded.as_str().substring_char(0, n - 1).to_owned();
                proof {
                    assert(text@ =~= strip_anchors(folded@));
                }
                let rule = PatternRule { kind: RuleKind::Suffix, text, pattern: folded };
                suffix_patterns.push(rule);
                proof {
                    assert(prefix_patterns@.map_values(|rule: PatternRule| rule.pattern@)
                        =~= group_of(all.take(i + 1), RuleKind::Prefix));
                    assert(suffix_patterns@.map_values(|rule: PatternRule| rule.pattern@)
                        =~= group_of(all.take(i + 1), RuleKind::Suffix));
                    assert(contains_patterns@.map_values(|rule: PatternRule| rule.pattern@)
                        =~= group_of(all.take(i + 1), RuleKind::Contains));
                }
            } else {
                let text = folded.clone();
                let rule = PatternRule { kind: RuleKind::Contains, text, pattern: folded };
                contains_patterns.push(rule);
                proof {
                    assert(prefix_patterns@.map_values(|rule: PatternRule| rule.pattern@)
                        =~= group_of(all.take(i + 1), RuleKind::Prefix));
                    assert(suffix_patterns@.map_values(|rule: PatternRule| rule.pattern@)
                        =~= group_of(all.take(i + 1), RuleKind::Suffix));
                    assert(contains_patterns@.map_values(|rule: PatternRule| rule.pattern@)
                        =~= group_of(all.take(i + 1), RuleKind::Contains));
                }
            }
            i = i + 1;
        }
        proof {
            assert(all.take(patterns@.len() as int) =~= all);
        }
        PatternMatcher { prefix_patterns, suffix_patterns, contains_patterns }
    }

    /// Compiles a matcher, reporting failure instead of demanding valid
    /// patterns up front: `None` exactly when some pattern does not
    /// compile as a regular expression. A bad pattern is a fatal
    /// configuration error, never silently dropped.
    pub fn try_new(patterns: Vec<String>) -> (r: Option<PatternMatcher>)
        ensures
            r is Some ==> forall|i: int|
                0 <= i < patterns@.len() ==> regex_valid(spec_fold(#[trigger] patterns@[i]@)),
            r is None ==> exists|i: int|
                0 <= i < patterns@.len() && !regex_valid(spec_fold(#[trigger] patterns@[i]@)),
            r is Some ==> {
                let m = r->0;
                &&& m.prefix_rules().map_values(|rule: PatternRule| rule.pattern@) == group_of(
                    folded_all(patterns@),
                    RuleKind::Prefix,
                )
                &&& m.suffix_rules().map_values(|rule: PatternRule| rule.pattern@) == group_of(
                    folded_all(patterns@),
                    RuleKind::Suffix,
                )
                &&& m.contains_rules().map_values(|rule: PatternRule| rule.pattern@) == group_of(
                    folded_all(patterns@),
                    RuleKind::Contains,
                )
                &&& forall|i: int|
                    0 <= i < m.prefix_rules().len() ==> (#[trigger] m.prefix_rules()[i]).wf()
                        && m.prefix_rules()[i].kind == RuleKind::Prefix
                &&& forall|i: int|
                    0 <= i < m.suffix_rules().len() ==> (#[trigger] m.suffix_rules()[i]).wf()
                        && m.suffix_rules()[i].kind == RuleKind::Suffix
                &&& forall|i: int|
                    0 <= i < m.contains_rules().len() ==> (#[trigger] m.contains_rules()[i]).wf()
                        && m.contains_rules()[i].kind == RuleKind::Contains
            },
    {
        let mut i: usize = 0;
        while i < patterns.len()
            invariant
                0 <= i <= patterns@.len(),
                forall|j: int|
                    0 <= j < i ==> regex_valid(spec_fold(#[trigger] patterns@[j]@)),
            decreases patterns@.len() - i,
        {
            let folded = to_lowercase(patterns[i].as_str());
            proof {
                assert(folded@ == spec_fold(patterns@[i as int]@));
            }
            if !regex_compiles(folded.as_str()) {
                return None;
            }
            i = i + 1;
        }
        Some(Self::new(patterns))
    }

    /// Tests a candidate address against every rule group, short-circuiting
    /// on the first match. Pure: the result is a function of the matcher
    /// and the address alone, and `&self` is never mutated, so repeated
    /// and concurrent calls agree.
    pub fn matches_any(&self, address: &str) -> (r: bool)
        ensures
            r == self.spec_matches_any(address@),
    {
        proof {
            use_type_invariant(self);
        }
        if !crate::addresses::is_valid_address(address) {
            return false;
        }
        proof {
            lemma_valid_address_is_ascii(address@);
            lemma_ascii_lower_is_ascii(address@);
        }
        let lower = to_lowercase(address);
        let body = lower.as_str().substring_ascii(2, 42);
        if any_rule_matches(&self.prefix_patterns, body) {
            return true;
        }
        if any_rule_matches(&self.suffix_patterns, body) {
            return true;
        }
        any_rule_matches(&self.contains_patterns, body)
    }
}

/// The folded images of a list of raw pattern strings.
pub open spec fn folded_all(ps: Seq<String>) -> Seq<Seq<char>> {
    ps.map_values(|s: String| spec_fold(s@))
}

/// Law: an input that fails the format guard matches no matcher, whatever
/// rules it holds.
pub proof fn lemma_invalid_address_never_matches(m: PatternMatcher, address: Seq<char>)
    requires
        !spec_is_valid_address(address),
    ensures
        !m.spec_matches_any(address),
{
}

/// Law: classification is total and mutually exclusive — every pattern
/// string is assigned exactly one rule kind.
pub proof fn lemma_classification_total(p: Seq<char>)
    ensures
        classify(p) == RuleKind::Prefix || classify(p) == RuleKind::Suffix || classify(p)
            == RuleKind::Contains,
        classify(p) == RuleKind::Prefix ==> classify(p) != RuleKind::Suffix && classify(p)
            != RuleKind::Contains,
        classify(p) == RuleKind::Suffix ==> classify(p) != RuleKind::Prefix && classify(p)
            != RuleKind::Contains,
        classify(p) == RuleKind::Contains ==> classify(p) != RuleKind::Prefix && classify(p)
            != RuleKind::Suffix,
{
}

/// Law: the three rule groups partition the pattern list — each pattern
/// lands in exactly one group, so no pattern is dropped or duplicated.
pub proof fn lemma_groups_partition(ps: Seq<Seq<char>>)
    ensures
        group_of(ps, RuleKind::Prefix).len() + group_of(ps, RuleKind::Suffix).len() + group_of(
            ps,
            RuleKind::Contains,
        ).len() == ps.len(),
    decreases ps.len(),
{
    if ps.len() > 0 {
        lemma_groups_partition(ps.drop_last());
    }
}

/// Law: a matcher holding a single prefix rule over plain hex digits
/// matches exactly the valid addresses whose folded hex body starts with
/// the rule's text.
pub proof fn lemma_prefix_rule_semantics(m: PatternMatcher, address: Seq<char>)
    requires
        m.prefix_rules().len() == 1,
        m.suffix_rules().len() == 0,
        m.contains_rules().len() == 0,
        m.prefix_rules()[0].kind == RuleKind::Prefix,
        all_hex_literal(m.prefix_rules()[0].text@),
    ensures
        m.spec_matches_any(address) <==> (spec_is_valid_address(address) && starts_with(
            ascii_lower(address).subrange(2, 42),
            m.prefix_rules()[0].text@,
        )),
{
    let body = ascii_lower(address).subrange(2, 42);
    if m.prefix_rules()[0].spec_matches(body) {
        assert(group_matches(m.prefix_rules(), body));
    }
}

/// Law: a matcher holding a single suffix rule over plain hex digits
/// matches exactly the valid addresses whose folded hex body ends with
/// the rule's text.
pub proof fn lemma_suffix_rule_semantics(m: PatternMatcher, address: Seq<char>)
    requires
        m.prefix_rules().len() == 0,
        m.suffix_rules().len() == 1,
        m.contains_rules().len() == 0,
        m.suffix_rules()[0].kind == RuleKind::Suffix,
        all_hex_literal(m.suffix_rules()[0].text@),
    ensures
        m.spec_matches_any(address) <==> (spec_is_valid_address(address) && ends_with(
            ascii_lower(address).subrange(2, 42),
            m.suffix_rules()[0].text@,
        )),
{
    let body = ascii_lower(address).subrange(2, 42);
    if m.suffix_rules()[0].spec_matches(body) {
        assert(group_matches(m.suffix_rules(), body));
    }
}

/// Law: a matcher holding a single contains rule over plain hex digits
/// matches exactly the valid addresses whose folded hex body holds the
/// rule's text as a substring.
pub proof fn lemma_contains_rule_semantics(m: PatternMatcher, address: Seq<char>)
    requires
        m.prefix_rules().len() == 0,
        m.suffix_rules().len() == 0,
        m.contains_rules().len() == 1,
        m.contains_rules()[0].kind == RuleKind::Contains,
        all_hex_literal(m.contains_rules()[0].text@),
    ensures
        m.spec_matches_any(address) <==> (spec_is_valid_address(address) && contains_seq(
            ascii_lower(address).subrange(2, 42),
            m.contains_rules()[0].text@,
        )),
{
    let body = ascii_lower(address).subrange(2, 42);
    if m.contains_rules()[0].spec_matches(body) {
        assert(group_matches(m.contains_rules(), body));
    }
}

/// Evaluates one rule group against a folded hex body.
fn any_rule_matches(rules: &Vec<PatternRule>, body: &str) -> (r: bool)
    requires
        forall|i: int| 0 <= i < rules@.len() ==> (#[trigger] rules@[i]).wf(),
    ensures
        r == group_matches(rules@, body@),
{
    let mut i: usize = 0;
    while i < rules.len()
        invariant
            0 <= i <= rules@.len(),
            forall|j: int| 0 <= j < rules@.len() ==> (#[trigger] rules@[j]).wf(),
            forall|j: int| 0 <= j < i ==> !(#[trigger] rules@[j]).spec_matches(body@),
        decreases rules@.len() - i,
    {
        let rule = &rules[i];
        if regex_is_match(rule.pattern.as_str(), body) {
            return true;
        }
        i = i + 1;
    }
    false
}

} // verus!
