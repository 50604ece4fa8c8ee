//! Single policy checks over a request, and the verdict they produce.
use vstd::prelude::*;
use vstd::std_specs::iter::IteratorSpec;
use vstd::string::{StrSliceExecFns, StringExecFns};

verus! {

broadcast use vstd::string::group_string_axioms;

/// What a rule or a chain of rules decides about a request.
pub enum Judgement {
    Allow,
    Deny(Seq<char>),
}

/// A request as the rules see it.
#[derive(Clone, Debug)]
pub struct FirewallInput {
    pub prompt: String,
    pub model: String,
    pub user_id: Option<String>,
}

/// What the rules read of a request.
pub struct InputView {
    pub prompt: Seq<char>,
    pub model: Seq<char>,
    pub user_id: Option<Seq<char>>,
}

impl View for FirewallInput {
    type V = InputView;

    open spec fn view(&self) -> InputView {
        InputView {
            prompt: self.prompt@,
            model: self.model@,
            user_id: match self.user_id {
                Some(u) => Some(u@),
                None => None,
            },
        }
    }
}

/// The allow/deny outcome of a rule; `reason` is set exactly when denied.
#[derive(Clone, Debug)]
pub struct FirewallVerdict {
    pub allowed: bool,
    pub reason: Option<String>,
}

/// A rule could not be evaluated.
#[derive(Clone, Debug)]
pub struct EvaluationError {
    pub detail: String,
}

impl FirewallVerdict {
    pub open spec fn wf(&self) -> bool {
        self.allowed <==> self.reason is None
    }

    pub open spec fn judgement(&self) -> Judgement {
        match self.reason {
            Some(r) if !self.allowed => Judgement::Deny(r@),
            _ => Judgement::Allow,
        }
    }

    /// The verdict that lets a request through.
    pub fn allow() -> (r: FirewallVerdict)
        ensures
            r.wf(),
            r.judgement() == Judgement::Allow,
    {
        FirewallVerdict { allowed: true, reason: None }
    }

    /// A denying verdict carrying `reason`.
    pub fn deny(reason: &str) -> (r: FirewallVerdict)
        ensures
            r.wf(),
            r.judgement() == Judgement::Deny(reason@),
    {
        FirewallVerdict { allowed: false, reason: Some(String::from_str(reason)) }
    }
}

/// What a call of `check` amounts to: `None` when it failed.
pub open spec fn outcome_of(r: Result<FirewallVerdict, EvaluationError>) -> Option<Judgement> {
    match r {
        Ok(v) => Some(v.judgement()),
        Err(_) => None,
    }
}

/// A single policy check over a request.
pub trait Rule {
    /// What this rule decides on `input`; `None` when it cannot be evaluated.
    spec fn outcome(&self, input: InputView) -> Option<Judgement>;

    fn check(&self, input: &FirewallInput) -> (r: Result<FirewallVerdict, EvaluationError>)
        ensures
            outcome_of(r) == self.outcome(input@),
            r matches Ok(v) ==> v.wf(),
    ;
}

/// The characters with the Unicode White_Space property.
pub open spec fn is_white_space(c: char) -> bool {
    let u = c as u32;
    (0x9 <= u <= 0xd) || u == 0x20 || u == 0x85 || u == 0xa0 || u == 0x1680 || (0x2000 <= u
        <= 0x200a) || u == 0x2028 || u == 0x2029 || u == 0x202f || u == 0x205f || u == 0x3000
}

/// Whether position `i` of `s` starts a whitespace-separated token.
pub open spec fn starts_token(s: Seq<char>, i: int) -> bool {
    !is_white_space(s[i]) && (i == 0 || is_white_space(s[i - 1]))
}

/// The number of maximal runs of non-whitespace characters in `s`.
pub open spec fn token_count(s: Seq<char>) -> nat
    decreases s.len(),
{
    if s.len() == 0 {
        0
    } else {
        token_count(s.drop_last()) + if starts_token(s, s.len() - 1) {
            1nat
        } else {
            0nat
        }
    }
}

pub fn is_space(c: char) -> (r: bool)
    ensures
        r == is_white_space(c),
{
    let u = c as u32;
    (0x9 <= u && u <= 0xd) || u == 0x20 || u == 0x85 || u == 0xa0 || u == 0x1680 || (0x2000 <= u
        && u <= 0x200a) || u == 0x2028 || u == 0x2029 || u == 0x202f || u == 0x205f || u == 0x3000
}

/// Counts the whitespace-separated tokens of `s`.
pub fn count_tokens(s: &str) -> (r: usize)
    ensures
        r == token_count(s@),
{
    let n = s.unicode_len();
    let mut it = s.chars();
    let ghost mut i: int = 0;
    let mut count: usize = 0;
    let mut prev_space = true;
    loop
        invariant
            0 <= i <= s@.len(),
            n == s@.len(),
            it.remaining() == s@.subrange(i, s@.len() as int),
            count == token_count(s@.subrange(0, i)),
            count <= i,
            prev_space == (i == 0 || is_white_space(s@[i - 1])),
        ensures
            count == token_count(s@),
        decreases s@.len() - i,
    {
        let ghost pre = it.remaining();
        match it.next() {
            Some(c) => {
                proof {
                    assert(pre.len() > 0);
                    assert(c == s@[i]);
                    let t = s@.subrange(0, i + 1);
                    assert(t.drop_last() =~= s@.subrange(0, i));
                }
                let space = is_space(c);
                if !space && prev_space {
                    count = count + 1;
                }
                prev_space = space;
                proof {
                    i = i + 1;
                }
            },
            None => {
                assert(pre.len() == 0);
                assert(s@.subrange(0, i) =~= s@);
                break;
            },
        }
    }
    count
}

/// Denies a prompt with more whitespace-separated tokens than `max_tokens`.
pub struct LengthRule {
    pub max_tokens: usize,
}

impl Rule for LengthRule {
    open spec fn outcome(&self, input: InputView) -> Option<Judgement> {
        if token_count(input.prompt) > self.max_tokens {
            Some(Judgement::Deny("prompt too long"@))
        } else {
            Some(Judgement::Allow)
        }
    }

    fn check(&self, input: &FirewallInput) -> (r: Result<FirewallVerdict, EvaluationError>) {
        if count_tokens(input.prompt.as_str()) > self.max_tokens {
            return Ok(FirewallVerdict::deny("prompt too long"));
        }
        Ok(FirewallVerdict::allow())
    }
}

/// A prompt of exactly `max_tokens` tokens passes the length rule; one more token
/// makes it deny with reason "prompt too long".
pub proof fn lemma_length_boundary(rule: LengthRule, input: InputView)
    ensures
        token_count(input.prompt) == rule.max_tokens ==> rule.outcome(input) == Some(
            Judgement::Allow,
        ),
        token_count(input.prompt) == rule.max_tokens + 1 ==> rule.outcome(input) == Some(
            Judgement::Deny("prompt too long"@),
        ),
{
}

/// Whether `regex`, compiled case-insensitively with default limits, accepts `pattern`.
pub uninterp spec fn pattern_compiles(pattern: Seq<char>) -> bool;

/// Whether `pattern`, compiled case-insensitively, matches anywhere in `text`.
pub uninterp spec fn pattern_matches(pattern: Seq<char>, text: Seq<char>) -> bool;

#[verifier::external_type_specification]
#[verifier::external_body]
pub struct ExRegexError(regex::Error);

/// Relies on `regex::RegexBuilder::new(..).case_insensitive(true).build()`, which fails
/// exactly on patterns it cannot compile, and on `regex::Regex::is_match`, which reports
/// whether the compiled pattern matches anywhere in `text`.
#[verifier::external_body]
fn search_ignoring_case(pattern: &str, text: &str) -> (r: Result<bool, regex::Error>)
    ensures
        r is Ok <==> pattern_compiles(pattern@),
        r matches Ok(b) ==> b == pattern_matches(pattern@, text@),
{
    match regex::RegexBuilder::new(pattern).case_insensitive(true).build() {
        Ok(re) => Ok(re.is_match(text)),
        Err(e) => Err(e),
    }
}

/// A pattern was rejected when a rule was built.
#[derive(Clone, Debug)]
pub struct PatternError {
    pub detail: String,
}

/// Denies a prompt in which a pattern matches anywhere, ignoring letter case.
/// The pattern is validated when the rule is built and compiled again for each check,
/// so that what a check decides is a function of the pattern text and the prompt.
pub struct RegexBlockRule {
    pattern: String,
}

impl RegexBlockRule {
    pub closed spec fn pattern_view(&self) -> Seq<char> {
        self.pattern@
    }

    /// Builds the rule; fails exactly when `pattern` does not compile.
    pub fn new(pattern: &str) -> (r: Result<RegexBlockRule, PatternError>)
        ensures
            r is Ok <==> pattern_compiles(pattern@),
            r matches Ok(rule) ==> rule.pattern_view() == pattern@,
    {
        match search_ignoring_case(pattern, "") {
            Ok(_) => Ok(RegexBlockRule { pattern: String::from_str(pattern) }),
            Err(_) => Err(PatternError { detail: String::from_str("malformed pattern") }),
        }
    }

    pub fn pattern(&self) -> (r: &str)
        ensures
            r@ == self.pattern_view(),
    {
        self.pattern.as_str()
    }
}

impl Rule for RegexBlockRule {
    open spec fn outcome(&self, input: InputView) -> Option<Judgement> {
        if !pattern_compiles(self.pattern_view()) {
            None
        } else if pattern_matches(self.pattern_view(), input.prompt) {
            Some(Judgement::Deny("matches blocked pattern"@))
        } else {
            Some(Judgement::Allow)
        }
    }

    fn check(&self, input: &FirewallInput) -> (r: Result<FirewallVerdict, EvaluationError>) {
        match search_ignoring_case(self.pattern.as_str(), input.prompt.as_str()) {
            Ok(true) => Ok(FirewallVerdict::deny("matches blocked pattern")),
            Ok(false) => Ok(FirewallVerdict::allow()),
            Err(_) => Err(EvaluationError { detail: String::from_str("pattern does not compile") }),
        }
    }
}

/// The rule variants this library provides.
pub enum StandardRule {
    Length(LengthRule),
    Pattern(RegexBlockRule),
}

impl Rule for StandardRule {
    open spec fn outcome(&self, input: InputView) -> Option<Judgement> {
        match self {
            StandardRule::Length(r) => r.outcome(input),
            StandardRule::Pattern(r) => r.outcome(input),
        }
    }

    fn check(&self, input: &FirewallInput) -> (r: Result<FirewallVerdict, EvaluationError>) {
        match self {
            StandardRule::Length(r) => r.check(input),
            StandardRule::Pattern(r) => r.check(input),
        }
    }
}

} // verus!
