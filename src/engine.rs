//! The ordered rule chain: short-circuits on the first denial and fails closed.
use vstd::prelude::*;

use crate::rules::{
    FirewallInput, FirewallVerdict, InputView, Judgement, LengthRule, PatternError, RegexBlockRule,
    Rule, StandardRule, pattern_compiles,
};

verus! {

/// The reason given when a rule could not be evaluated.
pub open spec fn evaluation_error_reason() -> Seq<char> {
    "policy evaluation error"@
}

/// What the chain decides when one rule's outcome is `o`: a failure counts as a denial.
pub open spec fn fail_closed(o: Option<Judgement>) -> Judgement {
    match o {
        Some(j) => j,
        None => Judgement::Deny(evaluation_error_reason()),
    }
}

/// The verdict of `rules` on `input`, taken in order: the first rule that does not
/// allow decides; when all allow, the request is allowed.
pub open spec fn chain_judgement<R: Rule>(rules: Seq<R>, input: InputView) -> Judgement
    decreases rules.len(),
{
    if rules.len() == 0 {
        Judgement::Allow
    } else if rules[0].outcome(input) == Some(Judgement::Allow) {
        chain_judgement(rules.drop_first(), input)
    } else {
        fail_closed(rules[0].outcome(input))
    }
}

/// Settings for building the default firewall.
#[derive(Clone, Copy, Debug, Default)]
pub struct AppConfig;

/// The token limit of the default length rule.
pub const DEFAULT_MAX_TOKENS: usize = 4096;

/// An ordered, immutable chain of rules.
pub struct Firewall<R> {
    rules: Vec<R>,
}

impl<R: Rule> Firewall<R> {
    pub closed spec fn rules(&self) -> Seq<R> {
        self.rules@
    }

    /// A chain that evaluates `rules` in the order given.
    pub fn from_rules(rules: Vec<R>) -> (r: Firewall<R>)
        ensures
            r.rules() == rules@,
    {
        Firewall { rules }
    }

    /// Evaluates the chain on `input`: the first rule that denies or fails decides,
    /// and a failure gives a denial with reason "policy evaluation error".
    pub fn evaluate(&self, input: &FirewallInput) -> (r: FirewallVerdict)
        ensures
            r.wf(),
            r.judgement() == chain_judgement(self.rules(), input@),
    {
        let n = self.rules.len();
        let mut i: usize = 0;
        assert(self.rules@.subrange(0, n as int) =~= self.rules@);
        while i < n
            invariant
                n == self.rules@.len(),
                i <= n,
                chain_judgement(self.rules@, input@) == chain_judgement(
                    self.rules@.subrange(i as int, n as int),
                    input@,
                ),
            decreases n - i,
        {
            let ghost rest = self.rules@.subrange(i as int, n as int);
            assert(rest.drop_first() =~= self.rules@.subrange(i + 1, n as int));
            match self.rules[i].check(input) {
                Ok(v) => {
                    if !v.allowed {
                        return v;
                    }
                },
                Err(_) => {
                    return FirewallVerdict::deny("policy evaluation error");
                },
            }
            i = i + 1;
        }
        assert(self.rules@.subrange(n as int, n as int).len() == 0);
        FirewallVerdict::allow()
    }
}

impl Firewall<StandardRule> {
    /// The default chain: a length rule of `DEFAULT_MAX_TOKENS` tokens, then a rule
    /// blocking the word "kill" in any letter case.
    pub fn new(cfg: AppConfig) -> (r: Result<Firewall<StandardRule>, PatternError>)
        ensures
            r is Ok <==> pattern_compiles(default_blocked_pattern()),
            r matches Ok(fw) ==> is_default_chain(fw.rules()),
    {
        let pattern = match RegexBlockRule::new("\\bkill\\b") {
            Ok(p) => p,
            Err(e) => {
                return Err(e);
            },
        };
        let mut rules: Vec<StandardRule> = Vec::new();
        rules.push(StandardRule::Length(LengthRule { max_tokens: DEFAULT_MAX_TOKENS }));
        rules.push(StandardRule::Pattern(pattern));
        Ok(Firewall { rules })
    }
}

/// The pattern of the default blocking rule.
pub open spec fn default_blocked_pattern() -> Seq<char> {
    "\\bkill\\b"@
}

/// The default chain: the length rule, then the blocking rule.
pub open spec fn is_default_chain(rules: Seq<StandardRule>) -> bool {
    &&& rules.len() == 2
    &&& rules[0] == StandardRule::Length(LengthRule { max_tokens: DEFAULT_MAX_TOKENS })
    &&& rules[1] matches StandardRule::Pattern(p) && p.pattern_view() == default_blocked_pattern()
}

/// When every rule allows, the chain allows.
pub proof fn lemma_all_allow<R: Rule>(rules: Seq<R>, input: InputView)
    requires
        forall|j: int| 0 <= j < rules.len() ==> #[trigger] rules[j].outcome(input) == Some(
            Judgement::Allow,
        ),
    ensures
        chain_judgement(rules, input) == Judgement::Allow,
    decreases rules.len(),
{
    if rules.len() > 0 {
        assert(rules[0].outcome(input) == Some(Judgement::Allow));
        let rest = rules.drop_first();
        assert forall|j: int| 0 <= j < rest.len() implies #[trigger] rest[j].outcome(input)
            == Some(Judgement::Allow) by {
            assert(rest[j] == rules[j + 1]);
        }
        lemma_all_allow(rest, input);
    }
}

/// For any order of rules, the chain's verdict is that of the first rule, in that
/// order, that does not allow (a failure counting as a denial).
pub proof fn lemma_first_denial<R: Rule>(rules: Seq<R>, input: InputView, i: int)
    requires
        0 <= i < rules.len(),
        forall|j: int| 0 <= j < i ==> #[trigger] rules[j].outcome(input) == Some(
            Judgement::Allow,
        ),
        rules[i].outcome(input) != Some(Judgement::Allow),
    ensures
        chain_judgement(rules, input) == fail_closed(rules[i].outcome(input)),
    decreases i,
{
    if i > 0 {
        assert(rules[0].outcome(input) == Some(Judgement::Allow));
        let rest = rules.drop_first();
        assert forall|j: int| 0 <= j < i - 1 implies #[trigger] rest[j].outcome(input)
            == Some(Judgement::Allow) by {
            assert(rest[j] == rules[j + 1]);
        }
        assert(rest[i - 1] == rules[i]);
        lemma_first_denial(rest, input, i - 1);
    }
}

/// A rule that cannot be evaluated makes the chain deny, whatever the rules after it
/// would say, once every rule before it has allowed.
pub proof fn lemma_fail_closed<R: Rule>(rules: Seq<R>, input: InputView, i: int)
    requires
        0 <= i < rules.len(),
        forall|j: int| 0 <= j < i ==> #[trigger] rules[j].outcome(input) == Some(
            Judgement::Allow,
        ),
        rules[i].outcome(input) is None,
    ensures
        chain_judgement(rules, input) == Judgement::Deny(evaluation_error_reason()),
{
    lemma_first_denial(rules, input, i);
}

} // verus!
