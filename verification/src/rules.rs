//! Rule matchers and filter definitions.
//!
//! A filter definition holds an initial keep/drop policy and an ordered
//! sequence of include/exclude rules. A key's fate is decided by the last
//! rule that matches it; a key matching no rule keeps the initial policy.

use vstd::prelude::*;

use crate::regex_support::{regex_compile_result, regex_match, CompiledRegex, RegexView};

verus! {

/// Default behavior when a key does not match any include/exclude rule.
#[derive(Clone, Copy, Debug, Default, PartialEq, Eq, Structural)]
pub enum InitialPolicy {
    /// Keep no keys unless rules include them.
    #[default]
    KeepNone,
    /// Keep all keys unless rules exclude them.
    KeepAll,
}

/// Whether a matching rule keeps or drops the key.
#[derive(Clone, Copy, Debug, PartialEq, Eq, Structural)]
pub enum RuleAction {
    Include,
    Exclude,
}

/// One predicate over a key: an exact byte literal or a compiled pattern.
#[derive(Debug)]
pub enum RuleMatcher {
    Literal(Vec<u8>),
    Regex(CompiledRegex),
}

/// One include/exclude rule.
#[derive(Debug)]
pub struct Rule {
    pub action: RuleAction,
    pub matcher: RuleMatcher,
}

/// Full configuration for one filtered-arguments variable.
#[derive(Debug)]
pub struct ArgsFilterDef {
    pub initial: InitialPolicy,
    pub initial_set: bool,
    /// If true, the surrounding system must not cache the evaluated value.
    pub volatile: bool,
    pub rules: Vec<Rule>,
}

/// Mathematical content of a matcher.
pub enum MatcherView {
    Literal(Seq<u8>),
    Regex(RegexView),
}

/// Mathematical content of a rule.
pub struct RuleView {
    pub action: RuleAction,
    pub matcher: MatcherView,
}

/// Mathematical content of a filter definition.
pub struct DefView {
    pub initial: InitialPolicy,
    pub initial_set: bool,
    pub volatile: bool,
    pub rules: Seq<RuleView>,
}

impl View for RuleMatcher {
    type V = MatcherView;

    open spec fn view(&self) -> MatcherView {
        match self {
            RuleMatcher::Literal(lit) => MatcherView::Literal(lit@),
            RuleMatcher::Regex(re) => MatcherView::Regex(re@),
        }
    }
}

impl View for Rule {
    type V = RuleView;

    open spec fn view(&self) -> RuleView {
        RuleView { action: self.action, matcher: self.matcher@ }
    }
}

impl View for ArgsFilterDef {
    type V = DefView;

    open spec fn view(&self) -> DefView {
        DefView {
            initial: self.initial,
            initial_set: self.initial_set,
            volatile: self.volatile,
            rules: Seq::new(self.rules@.len(), |i: int| self.rules@[i]@),
        }
    }
}

/// Whether a rule's matcher matches a key.
pub open spec fn rule_matches(r: RuleView, key: Seq<u8>) -> bool {
    match r.matcher {
        MatcherView::Literal(lit) => lit == key,
        MatcherView::Regex(rv) => regex_match(rv.pattern, rv.case_insensitive, key),
    }
}

/// The keep/drop decision after evaluating `rules` in declaration order,
/// starting from `keep0`: the last matching rule wins.
pub open spec fn keep_decision(rules: Seq<RuleView>, keep0: bool, key: Seq<u8>) -> bool
    decreases rules.len(),
{
    if rules.len() == 0 {
        keep0
    } else if rule_matches(rules.last(), key) {
        rules.last().action == RuleAction::Include
    } else {
        keep_decision(rules.drop_last(), keep0, key)
    }
}

/// The content of a freshly created definition: keep nothing, no rules,
/// not volatile.
pub open spec fn default_def() -> DefView {
    DefView {
        initial: InitialPolicy::KeepNone,
        initial_set: false,
        volatile: false,
        rules: Seq::<RuleView>::empty(),
    }
}

/// Whether a definition keeps `key`.
pub open spec fn spec_should_keep(d: DefView, key: Seq<u8>) -> bool {
    keep_decision(d.rules, d.initial == InitialPolicy::KeepAll, key)
}

/// Whether a definition reproduces every query unchanged.
pub open spec fn spec_is_identity(d: DefView) -> bool {
    d.initial == InitialPolicy::KeepAll && d.rules.len() == 0
}

impl Rule {
    /// Whether this rule's matcher matches `key`.
    fn matches_key(&self, key: &[u8]) -> (r: bool)
        ensures
            r == rule_matches(self@, key@),
    {
        match &self.matcher {
            RuleMatcher::Literal(expected) => crate::bytes::bytes_eq(expected.as_slice(), key),
            RuleMatcher::Regex(re) => re.is_match(key),
        }
    }
}

impl ArgsFilterDef {
    /// Create a new filter definition with default semantics.
    pub fn new() -> (d: ArgsFilterDef)
        ensures
            d@ == default_def(),
    {
        let d = ArgsFilterDef {
            initial: InitialPolicy::KeepNone,
            initial_set: false,
            volatile: false,
            rules: Vec::new(),
        };
        proof {
            assert(d@.rules =~= Seq::<RuleView>::empty());
        }
        d
    }

    /// Return true when `key` should be kept.
    /// Rules are evaluated in declaration order; the last match wins.
    pub fn should_keep_key(&self, key: &[u8]) -> (keep: bool)
        ensures
            keep == spec_should_keep(self@, key@),
    {
        let mut keep = self.initial == InitialPolicy::KeepAll;
        let mut i: usize = 0;
        while i < self.rules.len()
            invariant
                0 <= i <= self.rules@.len(),
                self@.rules.len() == self.rules@.len(),
                keep == keep_decision(
                    self@.rules.take(i as int),
                    self.initial == InitialPolicy::KeepAll,
                    key@,
                ),
            decreases self.rules@.len() - i,
        {
            let rule = &self.rules[i];
            if rule.matches_key(key) {
                keep = rule.action == RuleAction::Include;
            }
            proof {
                assert(self@.rules.take(i + 1).drop_last() =~= self@.rules.take(i as int));
                assert(self@.rules.take(i + 1).last() == self@.rules[i as int]);
            }
            i += 1;
        }
        proof {
            assert(self@.rules.take(self.rules@.len() as int) =~= self@.rules);
        }
        keep
    }

    /// Returns true when output is always identical to input query args.
    pub fn is_identity_filter(&self) -> (r: bool)
        ensures
            r == spec_is_identity(self@),
    {
        self.initial == InitialPolicy::KeepAll && self.rules.len() == 0
    }

    /// Append a rule that keeps keys equal to `key`.
    pub fn add_include_literal(&mut self, key: Vec<u8>)
        ensures
            final(self)@ == (DefView {
                rules: old(self)@.rules.push(
                    RuleView { action: RuleAction::Include, matcher: MatcherView::Literal(key@) },
                ),
                ..old(self)@
            }),
    {
        self.push_rule(RuleAction::Include, RuleMatcher::Literal(key));
    }

    /// Append a rule that drops keys equal to `key`.
    pub fn add_exclude_literal(&mut self, key: Vec<u8>)
        ensures
            final(self)@ == (DefView {
                rules: old(self)@.rules.push(
                    RuleView { action: RuleAction::Exclude, matcher: MatcherView::Literal(key@) },
                ),
                ..old(self)@
            }),
    {
        self.push_rule(RuleAction::Exclude, RuleMatcher::Literal(key));
    }

    /// Compile `pattern` and append a rule that keeps keys it matches.
    /// On a compile failure the definition is unchanged and the engine's
    /// diagnostic is returned.
    pub fn add_include_regex(&mut self, pattern: &[u8], case_insensitive: bool) -> (r: Result<
        (),
        String,
    >)
        ensures
            (r is Ok) == (regex_compile_result(pattern@, case_insensitive) is None),
            r is Ok ==> final(self)@ == (DefView {
                rules: old(self)@.rules.push(
                    RuleView {
                        action: RuleAction::Include,
                        matcher: MatcherView::Regex(
                            RegexView { pattern: pattern@, case_insensitive },
                        ),
                    },
                ),
                ..old(self)@
            }),
            r is Err ==> final(self)@ == old(self)@ && Some(r->Err_0@) == regex_compile_result(
                pattern@,
                case_insensitive,
            ),
    {
        match crate::regex_support::compile_regex(pattern, case_insensitive) {
            Ok(re) => {
                self.push_rule(RuleAction::Include, RuleMatcher::Regex(re));
                Ok(())
            },
            Err(diag) => Err(diag),
        }
    }

    /// Compile `pattern` and append a rule that drops keys it matches.
    /// On a compile failure the definition is unchanged and the engine's
    /// diagnostic is returned.
    pub fn add_exclude_regex(&mut self, pattern: &[u8], case_insensitive: bool) -> (r: Result<
        (),
        String,
    >)
        ensures
            (r is Ok) == (regex_compile_result(pattern@, case_insensitive) is None),
            r is Ok ==> final(self)@ == (DefView {
                rules: old(self)@.rules.push(
                    RuleView {
                        action: RuleAction::Exclude,
                        matcher: MatcherView::Regex(
                            RegexView { pattern: pattern@, case_insensitive },
                        ),
                    },
                ),
                ..old(self)@
            }),
            r is Err ==> final(self)@ == old(self)@ && Some(r->Err_0@) == regex_compile_result(
                pattern@,
                case_insensitive,
            ),
    {
        match crate::regex_support::compile_regex(pattern, case_insensitive) {
            Ok(re) => {
                self.push_rule(RuleAction::Exclude, RuleMatcher::Regex(re));
                Ok(())
            },
            Err(diag) => Err(diag),
        }
    }

    fn push_rule(&mut self, action: RuleAction, matcher: RuleMatcher)
        ensures
            final(self)@ == (DefView {
                rules: old(self)@.rules.push(RuleView { action, matcher: matcher@ }),
                ..old(self)@
            }),
    {
        let ghost prev = self@;
        self.rules.push(Rule { action, matcher });
        proof {
            assert(self@.rules =~= prev.rules.push(
                RuleView { action, matcher: matcher@ },
            ));
        }
    }
}

/// Rule evaluation order matches declaration order: with the rules
/// `[Exclude literal k, Include literal k]` the key `k` is kept, and with
/// the reversed order it is dropped, whatever the initial policy says.
pub proof fn lemma_declaration_order_decides(
    d_include_last: DefView,
    d_exclude_last: DefView,
    key: Seq<u8>,
)
    requires
        d_include_last.rules =~= seq![
            RuleView { action: RuleAction::Exclude, matcher: MatcherView::Literal(key) },
            RuleView { action: RuleAction::Include, matcher: MatcherView::Literal(key) },
        ],
        d_exclude_last.rules =~= seq![
            RuleView { action: RuleAction::Include, matcher: MatcherView::Literal(key) },
            RuleView { action: RuleAction::Exclude, matcher: MatcherView::Literal(key) },
        ],
    ensures
        spec_should_keep(d_include_last, key),
        !spec_should_keep(d_exclude_last, key),
{
    assert(rule_matches(d_include_last.rules.last(), key));
    assert(rule_matches(d_exclude_last.rules.last(), key));
}

} // verus!
