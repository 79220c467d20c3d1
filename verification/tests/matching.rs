//! End-to-end behavior of the matching engine: priority-list scoring,
//! policy resolution, aggregate scores, and ranking.

use qdmatch::db_models::DocPerson;
use qdmatch::matcher::{Match, MatchError};
use qdmatch::model::CandidatePerson;
use qdmatch::priority::MatcherFilter;
use qdmatch::rules::{Policy, Rule, RuleConfig, RuleRow};
use qdmatch::score::Score;

fn s(x: &str) -> String {
    x.to_string()
}

fn row_str(self_value: &str, seeks: &[&str]) -> RuleRow {
    RuleRow {
        self_value: s(self_value),
        seek_strings: seeks.iter().map(|x| x.to_string()).collect(),
        seek_offsets: Vec::new(),
    }
}

fn row_off(self_value: &str, offsets: &[i64]) -> RuleRow {
    RuleRow {
        self_value: s(self_value),
        seek_strings: Vec::new(),
        seek_offsets: offsets.to_vec(),
    }
}

fn rule(id: i64, rows: Vec<RuleRow>) -> Rule {
    Rule { rule_id: id, rule_data: rows }
}

fn policy(self_attribute: &str, ids: &[i64]) -> Policy {
    Policy { self_attribute: s(self_attribute), rule_ids: ids.to_vec() }
}

fn person(gender: &str, age: i64, education: &str, verbal: &str) -> DocPerson {
    DocPerson {
        qid: s("Q-1"),
        name: s("self"),
        gender: s(gender),
        age,
        email: s("a@b.c"),
        phone: s("1"),
        city: s("city"),
        languages: vec![s("English")],
        profession: s("p"),
        education: s(education),
        response_rating: s("5"),
        verbal_ability: s(verbal),
        seeking: s("partner"),
    }
}

fn candidate(qid: &str, gender: &str, age: i64, education: &str, verbal: &str) -> CandidatePerson {
    CandidatePerson {
        qid: s(qid),
        name: s(qid),
        gender: s(gender),
        age,
        education: s(education),
        verbal: s(verbal),
        email: s("c@d.e"),
        phone: s("2"),
        match_score: Score { num: 0, den: 1 },
    }
}

fn std_config() -> RuleConfig {
    RuleConfig {
        policies: vec![policy("male", &[1, 2, 3, 5])],
        rules: vec![
            rule(1, vec![row_off("male", &[-2, 0, 5])]),
            rule(2, vec![row_str("male", &["female"])]),
            rule(3, vec![row_str("college", &["college", "school"])]),
            rule(5, vec![row_str("good", &["good"])]),
        ],
    }
}

fn std_person() -> DocPerson {
    person("male", 30, "college", "good")
}

/// The score value `sc` equals the rational `num / den`.
fn frac_eq(sc: &Score, num: u64, den: u64) -> bool {
    (sc.num as u128) * (den as u128) == (num as u128) * (sc.den as u128)
}

#[test]
fn first_position_scores_exactly_100() {
    let m = MatcherFilter::<i64>::new(vec![10, 20, 30]).unwrap();
    let top = m.calculate(&10);
    assert!(frac_eq(&top, 100, 1));
    assert_eq!((top.num as f64) / (top.den as f64), 100.0);
}

#[test]
fn last_position_scores_100_over_n() {
    let m = MatcherFilter::<i64>::new(vec![10, 20, 30]).unwrap();
    let bottom = m.calculate(&30);
    assert_eq!(bottom.num, 100);
    assert_eq!(bottom.den, 3);
    let v = (bottom.num as f64) / (bottom.den as f64);
    assert!((v - 100.0 / 3.0).abs() < 1e-9);
}

#[test]
fn absent_value_scores_zero() {
    let m = MatcherFilter::<i64>::new(vec![10, 20, 30]).unwrap();
    assert_eq!(m.calculate(&99).num, 0);
    let t = MatcherFilter::<String>::new(vec![s("a"), s("b")]).unwrap();
    assert_eq!(t.calculate(&s("c")).num, 0);
    assert!(!t.seeks(&s("c")));
}

#[test]
fn empty_list_scores_zero_and_seeks_nothing() {
    let m = MatcherFilter::<i64>::new(Vec::new()).unwrap();
    assert_eq!(m.calculate(&5).num, 0);
    assert!(!m.seeks(&5));
    let t = MatcherFilter::<String>::new(Vec::new()).unwrap();
    assert_eq!(t.calculate(&s("anything")).num, 0);
    assert!(!t.seeks(&s("anything")));
}

#[test]
fn last_match_wins_when_value_repeats() {
    let m = MatcherFilter::<i64>::new(vec![10, 20, 10]).unwrap();
    let sc = m.calculate(&10);
    // exhaustive scan: the last occurrence (position 2 of 3) sets the weight
    assert_eq!(sc.num, 100);
    assert_eq!(sc.den, 3);
}

#[test]
fn seeks_is_true_exactly_for_positive_scores() {
    let m = MatcherFilter::<i64>::new(vec![7, 8]).unwrap();
    assert!(m.seeks(&7));
    assert!(m.seeks(&8));
    assert!(!m.seeks(&9));
}

#[test]
fn age_rule_offsets_become_absolute_target_ages() {
    let m = Match::new(std_person(), &std_config()).ok().unwrap();
    assert_eq!(m.age.getList(), &vec![28, 30, 35]);
}

#[test]
fn resolved_lists_match_the_rule_document() {
    let m = Match::new(std_person(), &std_config()).ok().unwrap();
    assert_eq!(m.gender.getList(), &vec![s("female")]);
    assert_eq!(m.education.getList(), &vec![s("college"), s("school")]);
    assert_eq!(m.verbal.getList(), &vec![s("good")]);
}

#[test]
fn first_matching_policy_wins() {
    let mut config = std_config();
    // a later policy for the same gender that would fail resolution
    config.policies.push(policy("male", &[]));
    let m = Match::new(std_person(), &config);
    assert!(m.is_ok());
    let mut config2 = std_config();
    config2.policies.insert(0, policy("male", &[]));
    let m2 = Match::new(std_person(), &config2);
    assert!(matches!(m2, Err(MatchError::NoRulesFound)));
}

#[test]
fn policy_key_match_is_case_sensitive() {
    let r = Match::new(person("Male", 30, "college", "good"), &std_config());
    assert!(matches!(r, Err(MatchError::NoPolicyMatched)));
}

#[test]
fn rule_row_match_is_case_insensitive() {
    let config = RuleConfig {
        policies: vec![policy("male", &[1, 2, 3, 5])],
        rules: vec![
            rule(1, vec![row_off("MALE", &[-2, 0, 5])]),
            rule(2, vec![row_str("Male", &["female"])]),
            rule(3, vec![row_str("COLLEGE", &["college"])]),
            rule(5, vec![row_str("Good", &["good"])]),
        ],
    };
    let m = Match::new(std_person(), &config).ok().unwrap();
    assert_eq!(m.age.getList(), &vec![28, 30, 35]);
    assert_eq!(m.gender.getList(), &vec![s("female")]);
}

#[test]
fn no_policy_matched_when_gender_unknown() {
    let r = Match::new(person("female", 30, "college", "good"), &std_config());
    assert!(matches!(r, Err(MatchError::NoPolicyMatched)));
}

#[test]
fn no_rules_found_when_age_rule_not_referenced() {
    let mut config = std_config();
    config.policies[0].rule_ids = vec![2, 3, 5];
    let r = Match::new(std_person(), &config);
    assert!(matches!(r, Err(MatchError::NoRulesFound)));
}

#[test]
fn no_rules_found_when_gender_row_misses() {
    let mut config = std_config();
    config.rules[1] = rule(2, vec![row_str("somebody-else", &["female"])]);
    let r = Match::new(std_person(), &config);
    assert!(matches!(r, Err(MatchError::NoRulesFound)));
}

#[test]
fn education_row_miss_degrades_to_empty_list() {
    let mut config = std_config();
    config.rules[2] = rule(3, vec![row_str("unrelated", &["college"])]);
    let m = Match::new(std_person(), &config).ok().unwrap();
    assert!(m.education.getList().is_empty());
}

#[test]
fn referenced_but_missing_rule_resolves_to_empty_list() {
    let mut config = std_config();
    config.rules.remove(3);
    let m = Match::new(std_person(), &config).ok().unwrap();
    assert!(m.verbal.getList().is_empty());
}

#[test]
fn config_error_when_offset_out_of_bounds() {
    let mut config = std_config();
    config.rules[0] = rule(1, vec![row_off("male", &[2_000_000_000])]);
    let r = Match::new(std_person(), &config);
    assert!(matches!(r, Err(MatchError::ConfigError)));
}

#[test]
fn filter_names_the_gender_values() {
    let m = Match::new(std_person(), &std_config()).ok().unwrap();
    let f = m.getFilter();
    assert_eq!(f.attribute, s("gender"));
    assert_eq!(f.values, vec![s("female")]);
}

#[test]
fn aggregate_score_is_the_mean_of_the_components() {
    let config = RuleConfig {
        policies: vec![policy("male", &[1, 2, 3, 5])],
        rules: vec![
            rule(1, vec![row_off("male", &[0])]),
            rule(2, vec![row_str("male", &["female", "anyone"])]),
            rule(3, vec![row_str("college", &["a", "b", "c", "d"])]),
            rule(5, vec![row_str("good", &["good", "fine"])]),
        ],
    };
    let m = Match::new(std_person(), &config).ok().unwrap();
    // components: age 30 in [30] -> 100; gender "nobody" -> 0;
    // education "d" (last of four) -> 25; verbal "fine" (last of two) -> 50
    let c = candidate("Q-2", "nobody", 30, "d", "fine");
    let sc = m.calculateScore(&c);
    assert!(frac_eq(&sc, 175, 4));
    assert_eq!((sc.num as f64) / (sc.den as f64), 43.75);
}

#[test]
fn ranking_orders_by_descending_score_with_ties_adjacent() {
    let config = RuleConfig {
        policies: vec![policy("male", &[1, 2, 3, 5])],
        rules: vec![
            rule(1, vec![row_off("male", &[0, 10])]),
            rule(2, vec![row_str("male", &[])]),
            rule(3, vec![row_str("nobody", &[])]),
            rule(5, vec![row_str("nobody", &[])]),
        ],
    };
    let mut m = Match::new(std_person(), &config).ok().unwrap();
    // target ages [30, 40]: age 30 -> 100, age 40 -> 50, others 0;
    // aggregate = age score / 4
    let batch = vec![
        candidate("low", "x", 40, "x", "x"),
        candidate("tie-a", "x", 30, "x", "x"),
        candidate("tie-b", "x", 30, "x", "x"),
        candidate("zero", "x", 77, "x", "x"),
    ];
    let ranked = m.qurate(batch);
    assert_eq!(ranked.len(), 4);
    let top: Vec<&str> = vec![ranked[0].qid.as_str(), ranked[1].qid.as_str()];
    assert!(top.contains(&"tie-a"));
    assert!(top.contains(&"tie-b"));
    assert_eq!(ranked[2].qid, s("low"));
    assert_eq!(ranked[3].qid, s("zero"));
    assert!(frac_eq(&ranked[0].match_score, 25, 1));
    assert!(frac_eq(&ranked[2].match_score, 25, 2));
    assert!(frac_eq(&ranked[3].match_score, 0, 1));
}

#[test]
fn ranking_an_empty_batch_returns_an_empty_batch() {
    let mut m = Match::new(std_person(), &std_config()).ok().unwrap();
    let ranked = m.qurate(Vec::new());
    assert!(ranked.is_empty());
}

#[test]
fn resolving_twice_yields_identical_lists() {
    let m1 = Match::new(std_person(), &std_config()).ok().unwrap();
    let m2 = Match::new(std_person(), &std_config()).ok().unwrap();
    assert_eq!(m1.age.getList(), m2.age.getList());
    assert_eq!(m1.gender.getList(), m2.gender.getList());
    assert_eq!(m1.education.getList(), m2.education.getList());
    assert_eq!(m1.verbal.getList(), m2.verbal.getList());
}

#[test]
fn cmp_score_orders_by_exact_rational_value() {
    let a = candidate("a", "x", 0, "x", "x");
    let mut b = candidate("b", "x", 0, "x", "x");
    let mut c = candidate("c", "x", 0, "x", "x");
    // a = 0/1, b = 100/2, c = 50/1: b and c tie at 50
    b.match_score = Score { num: 100, den: 2 };
    c.match_score = Score { num: 50, den: 1 };
    assert_eq!(b.cmp_score(&a), std::cmp::Ordering::Greater);
    assert_eq!(a.cmp_score(&b), std::cmp::Ordering::Less);
    assert_eq!(b.cmp_score(&c), std::cmp::Ordering::Equal);
}
