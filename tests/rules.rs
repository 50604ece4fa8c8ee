use prompt_firewall::rules::{count_tokens, is_space};
use prompt_firewall::{
    EvaluationError, Firewall, FirewallInput, FirewallVerdict, InputView, Judgement, LengthRule,
    RegexBlockRule, Rule, StandardRule,
};

fn input(prompt: &str) -> FirewallInput {
    FirewallInput { prompt: prompt.to_string(), model: "gpt-4".to_string(), user_id: None }
}

fn words(n: usize) -> String {
    vec!["word"; n].join(" ")
}

#[test]
fn length_rule_allows_exactly_max_tokens() {
    let rule = LengthRule { max_tokens: 3 };
    let v = rule.check(&input("a b c")).unwrap();
    assert!(v.allowed);
    assert_eq!(v.reason, None);
}

#[test]
fn length_rule_denies_one_token_over() {
    let rule = LengthRule { max_tokens: 3 };
    let v = rule.check(&input("a b  c\td")).unwrap();
    assert!(!v.allowed);
    assert_eq!(v.reason.as_deref(), Some("prompt too long"));
}

#[test]
fn length_rule_default_limit_boundary() {
    let rule = LengthRule { max_tokens: 4096 };
    assert!(rule.check(&input(&words(4096))).unwrap().allowed);
    assert!(!rule.check(&input(&words(4097))).unwrap().allowed);
}

#[test]
fn token_count_agrees_with_split_whitespace() {
    let samples = [
        "",
        "   ",
        "one",
        "  leading and trailing  ",
        "tabs\tand\nnewlines\r\nmixed",
        "no\u{a0}break\u{3000}ideographic\u{2028}line",
        "zero\u{200b}width is not space",
        "caf\u{e9} na\u{ef}ve",
    ];
    for s in samples {
        assert_eq!(count_tokens(s), s.split_whitespace().count(), "{:?}", s);
    }
}

#[test]
fn is_space_agrees_with_std() {
    for u in 0u32..0x11000 {
        if let Some(c) = char::from_u32(u) {
            assert_eq!(is_space(c), c.is_whitespace(), "{:x}", u);
        }
    }
}

#[test]
fn pattern_rule_denies_in_any_letter_case() {
    let rule = RegexBlockRule::new("\\bkill\\b").unwrap();
    for p in ["kill", "KILL", "please KiLl it", "kIlL."] {
        let v = rule.check(&input(p)).unwrap();
        assert!(!v.allowed, "{}", p);
        assert_eq!(v.reason.as_deref(), Some("matches blocked pattern"));
    }
}

#[test]
fn pattern_rule_allows_without_match() {
    let rule = RegexBlockRule::new("\\bkill\\b").unwrap();
    for p in ["hello", "skills", "killer whale", ""] {
        let v = rule.check(&input(p)).unwrap();
        assert!(v.allowed, "{}", p);
        assert_eq!(v.reason, None);
    }
}

#[test]
fn malformed_pattern_fails_construction() {
    assert!(RegexBlockRule::new("(unclosed").is_err());
    assert!(RegexBlockRule::new("[z-a]").is_err());
    assert_eq!(RegexBlockRule::new("ab+").unwrap().pattern(), "ab+");
}

/// A rule that can never be evaluated.
struct Failing;

impl Rule for Failing {
    fn outcome(&self, _input: InputView) -> Option<Judgement> {
        None
    }

    fn check(&self, _input: &FirewallInput) -> Result<FirewallVerdict, EvaluationError> {
        Err(EvaluationError { detail: "broken".to_string() })
    }
}

fn length(n: usize) -> StandardRule {
    StandardRule::Length(LengthRule { max_tokens: n })
}

fn block(p: &str) -> StandardRule {
    StandardRule::Pattern(RegexBlockRule::new(p).unwrap())
}

#[test]
fn chain_result_is_first_denial_in_order() {
    let fw = Firewall::from_rules(vec![length(10), block("foo"), length(1)]);
    assert_eq!(fw.evaluate(&input("foo bar")).reason.as_deref(), Some("matches blocked pattern"));
    let fw = Firewall::from_rules(vec![length(1), length(10), block("foo")]);
    assert_eq!(fw.evaluate(&input("foo bar")).reason.as_deref(), Some("prompt too long"));
}

#[test]
fn chain_allows_when_all_allow() {
    let fw = Firewall::from_rules(vec![length(10), block("foo")]);
    let v = fw.evaluate(&input("bar baz"));
    assert!(v.allowed);
    assert_eq!(v.reason, None);
    let empty: Firewall<StandardRule> = Firewall::from_rules(Vec::new());
    assert!(empty.evaluate(&input("x")).allowed);
}

#[test]
fn chain_fails_closed_on_evaluation_error() {
    let fw = Firewall::from_rules(vec![Failing]);
    let v = fw.evaluate(&input("x"));
    assert!(!v.allowed);
    assert_eq!(v.reason.as_deref(), Some("policy evaluation error"));
}

#[test]
fn standard_rules_in_either_order() {
    let long_kill = format!("{} kill", words(4096));
    let fw = Firewall::from_rules(vec![
        StandardRule::Length(LengthRule { max_tokens: 4096 }),
        StandardRule::Pattern(RegexBlockRule::new("\\bkill\\b").unwrap()),
    ]);
    assert_eq!(fw.evaluate(&input(&long_kill)).reason.as_deref(), Some("prompt too long"));
    let fw = Firewall::from_rules(vec![
        StandardRule::Pattern(RegexBlockRule::new("\\bkill\\b").unwrap()),
        StandardRule::Length(LengthRule { max_tokens: 4096 }),
    ]);
    assert_eq!(fw.evaluate(&input(&long_kill)).reason.as_deref(), Some("matches blocked pattern"));
}
