use tron_vanity::pattern::PatternChecker;
use tron_vanity::pattern::PatternConfig;
use tron_vanity::pattern::WordPattern;

fn checker(words: Vec<&str>, same_four: bool, same_five: bool, same_six: bool) -> PatternChecker {
    PatternChecker::from_config(PatternConfig {
        words: words.into_iter().map(|w| w.to_string()).collect(),
        same_four,
        same_five,
        same_six,
    })
}

#[test]
fn parse_plain_word() {
    let p = WordPattern::from_config("BOSS");
    assert_eq!(p.text, "BOSS");
    assert!(p.case_sensitive);
    assert_eq!(p.length, 4);
    assert!(!p.require_readable_prefix);
}

#[test]
fn parse_case_insensitive_marker() {
    let p = WordPattern::from_config("*USDT");
    assert_eq!(p.text, "USDT");
    assert!(!p.case_sensitive);
    assert_eq!(p.length, 4);
    assert!(!p.require_readable_prefix);
}

#[test]
fn parse_readable_marker() {
    let p = WordPattern::from_config("@USDT");
    assert_eq!(p.text, "USDT");
    assert!(p.case_sensitive);
    assert!(p.require_readable_prefix);
}

#[test]
fn parse_both_markers() {
    let p = WordPattern::from_config("@*GOLD");
    assert_eq!(p.text, "GOLD");
    assert!(!p.case_sensitive);
    assert_eq!(p.length, 4);
    assert!(p.require_readable_prefix);
}

#[test]
fn readable_characters() {
    assert!(WordPattern::is_readable_char('a'));
    assert!(WordPattern::is_readable_char('E'));
    assert!(WordPattern::is_readable_char('0'));
    assert!(WordPattern::is_readable_char('9'));
    assert!(!WordPattern::is_readable_char('k'));
    assert!(!WordPattern::is_readable_char('Z'));
    assert!(!WordPattern::is_readable_char('|'));
}

#[test]
fn case_insensitive_word_matches_any_case() {
    let c = checker(vec!["*USDT"], false, false, false);
    assert_eq!(c.check("TxxxUSDT"), Some("USDT (i)".to_string()));
    assert_eq!(c.check("Txxxusdt"), Some("USDT (i)".to_string()));
    assert_eq!(c.check("TxxxUsDt"), Some("USDT (i)".to_string()));
    assert_eq!(c.check("xUSDT"), Some("USDT (i)".to_string()));
    // the word alone, nothing before it: too short
    assert_eq!(c.check("USDT"), None);
}

#[test]
fn readable_prefix_gates_the_word() {
    let c = checker(vec!["@USDT"], false, false, false);
    assert_eq!(c.check("Txx1USDT"), Some("USDT".to_string()));
    assert_eq!(c.check("TxxkUSDT"), None);
}

#[test]
fn case_sensitive_word_is_exact() {
    let c = checker(vec!["Gold"], false, false, false);
    assert_eq!(c.check("TxxGold"), Some("Gold".to_string()));
    assert_eq!(c.check("Txxgold"), None);
    assert_eq!(c.check("TxxGOLD"), None);
}

#[test]
fn short_addresses_never_match() {
    let c = checker(vec!["bcd"], true, true, true);
    assert_eq!(c.check("abcd"), None);
    assert_eq!(c.check(""), None);
}

#[test]
fn first_declared_word_wins() {
    let c = checker(vec!["*AAA", "*AAAA"], false, false, false);
    assert_eq!(c.check("TxAAAA"), Some("AAA (i)".to_string()));
}

#[test]
fn five_same_beats_four_same() {
    let c = checker(vec![], true, true, false);
    assert_eq!(c.check("Taaaaa"), Some("5SAME(aaaaa)".to_string()));
}

#[test]
fn five_identical_characters_alone_fall_to_the_four_rule() {
    let c = checker(vec![], true, true, false);
    // too short for the five rule: one character must precede the run
    assert_eq!(c.check("aaaaa"), Some("4SAME(aaaa)".to_string()));
}

#[test]
fn six_same_beats_five_and_four() {
    let c = checker(vec![], true, true, true);
    assert_eq!(c.check("Tcccccc"), Some("6SAME(cccccc)".to_string()));
}

#[test]
fn six_rule_disabled_falls_to_five() {
    let c = checker(vec![], true, true, false);
    assert_eq!(c.check("Tcccccc"), Some("5SAME(ccccc)".to_string()));
}

#[test]
fn word_outranks_same_characters() {
    let c = checker(vec!["*TTTT"], true, false, false);
    assert_eq!(c.check("TxTTTT"), Some("TTTT (i)".to_string()));
}

#[test]
fn same_rules_off_give_no_match() {
    let c = checker(vec![], false, false, false);
    assert_eq!(c.check("Taaaaaa"), None);
}

#[test]
fn default_fallback_patterns() {
    let c = checker(vec!["*USDT", "*BOSS", "*GOLD"], true, true, false);
    assert_eq!(c.check("Txxb0ss"), None);
    assert_eq!(c.check("TxxBoSS"), Some("BOSS (i)".to_string()));
    assert_eq!(c.check("Txxgold"), Some("GOLD (i)".to_string()));
    assert_eq!(c.check("Tzzzz"), Some("4SAME(zzzz)".to_string()));
    assert_eq!(c.check("Tqrst"), None);
}

#[test]
fn check_is_deterministic_on_repeat() {
    let c = checker(vec!["*USDT"], true, true, false);
    let first = c.check("TxxxUSDT");
    for _ in 0..100 {
        assert_eq!(c.check("TxxxUSDT"), first);
    }
}
