//! Policy resolution and aggregate scoring: selects the one policy that
//! applies to a person, builds a priority list per scored attribute, and
//! scores candidates as the arithmetic mean of the four attribute scores.

use vstd::prelude::*;
use crate::db_models::DocPerson;
use crate::model::CandidatePerson;
use crate::priority::{MatcherFilter, score_num, score_den};
use crate::rules::{RuleConfig, RuleRow, Policy, RuleKind, kind_of_rule, rule_kind, MAX_PERSON_AGE, MAX_OFFSET};
use crate::rank::{sorted_desc, dens_ok, shuffle_candidates, sort_by_score};
use crate::score::Score;
use crate::text::{ci_eq, eq_ci};

verus! {

broadcast use vstd::seq_lib::group_to_multiset_ensures;

/// Why a match profile could not be built.
#[derive(Clone, Copy, Debug, PartialEq, Eq, Structural)]
pub enum MatchError {
    /// The rule document is missing or structurally invalid.
    ConfigError,
    /// No policy's `self` attribute equals the person's gender.
    NoPolicyMatched,
    /// A policy matched, but a required attribute matcher stayed unresolved.
    NoRulesFound,
}

/// The four attribute lists as resolution builds them up; `None` marks an
/// attribute whose matcher is still unresolved.
pub struct ResolveState {
    pub age: Option<Seq<i64>>,
    pub gender: Option<Seq<String>>,
    pub education: Option<Seq<String>>,
    pub verbal: Option<Seq<String>>,
}

/// Resolution starts with every attribute unresolved.
pub open spec fn init_state() -> ResolveState {
    ResolveState { age: None, gender: None, education: None, verbal: None }
}

/// Every required attribute matcher has been built.
pub open spec fn fully_resolved(st: ResolveState) -> bool {
    &&& st.age is Some
    &&& st.gender is Some
    &&& st.education is Some
    &&& st.verbal is Some
}

/// The first row whose `self_value` equals `key` case-insensitively, or -1.
pub open spec fn row_hit(rows: Seq<RuleRow>, key: Seq<char>) -> int
    decreases rows.len(),
{
    if rows.len() == 0 {
        -1
    } else if ci_eq(rows[0].self_value@, key) {
        0
    } else {
        let h = row_hit(rows.drop_first(), key);
        if h == -1 {
            -1
        } else {
            h + 1
        }
    }
}

/// `row_hit` finds the first matching row: nothing before it matches, and
/// -1 means nothing matches at all.
pub proof fn lemma_row_hit_props(rows: Seq<RuleRow>, key: Seq<char>)
    ensures
        -1 <= row_hit(rows, key) < rows.len(),
        row_hit(rows, key) >= 0 ==> ci_eq(rows[row_hit(rows, key)].self_value@, key),
        forall|j: int|
            0 <= j < row_hit(rows, key) ==> !ci_eq((#[trigger] rows[j]).self_value@, key),
        row_hit(rows, key) == -1 ==> forall|j: int|
            0 <= j < rows.len() ==> !ci_eq((#[trigger] rows[j]).self_value@, key),
    decreases rows.len(),
{
    if rows.len() > 0 && !ci_eq(rows[0].self_value@, key) {
        lemma_row_hit_props(rows.drop_first(), key);
        let h = row_hit(rows, key);
        if h >= 1 {
            assert(rows[h] == rows.drop_first()[h - 1]);
        }
        assert forall|j: int| 0 <= j < h implies !ci_eq((rows[j]).self_value@, key) by {
            if j > 0 {
                assert(rows.drop_first()[j - 1] == rows[j]);
            }
        }
        if h == -1 {
            assert forall|j: int| 0 <= j < rows.len() implies !ci_eq(
                (rows[j]).self_value@,
                key,
            ) by {
                if j > 0 {
                    assert(rows.drop_first()[j - 1] == rows[j]);
                }
            }
        }
    }
}

/// The first policy whose `self` attribute equals `gender` exactly
/// (case-sensitively), or -1.
pub open spec fn policy_hit(policies: Seq<Policy>, gender: Seq<char>) -> int
    decreases policies.len(),
{
    if policies.len() == 0 {
        -1
    } else if policies[0].self_attribute@ == gender {
        0
    } else {
        let h = policy_hit(policies.drop_first(), gender);
        if h == -1 {
            -1
        } else {
            h + 1
        }
    }
}

/// `policy_hit` finds the first matching policy: nothing before it matches,
/// and -1 means nothing matches at all.
pub proof fn lemma_policy_hit_props(policies: Seq<Policy>, gender: Seq<char>)
    ensures
        -1 <= policy_hit(policies, gender) < policies.len(),
        policy_hit(policies, gender) >= 0 ==> policies[policy_hit(policies, gender)].self_attribute@
            == gender,
        forall|j: int|
            0 <= j < policy_hit(policies, gender) ==> (#[trigger] policies[j]).self_attribute@
                != gender,
        policy_hit(policies, gender) == -1 ==> forall|j: int|
            0 <= j < policies.len() ==> (#[trigger] policies[j]).self_attribute@ != gender,
    decreases policies.len(),
{
    if policies.len() > 0 && policies[0].self_attribute@ != gender {
        lemma_policy_hit_props(policies.drop_first(), gender);
        let h = policy_hit(policies, gender);
        if h >= 1 {
            assert(policies[h] == policies.drop_first()[h - 1]);
        }
        assert forall|j: int| 0 <= j < h implies (policies[j]).self_attribute@ != gender by {
            if j > 0 {
                assert(policies.drop_first()[j - 1] == policies[j]);
            }
        }
        if h == -1 {
            assert forall|j: int| 0 <= j < policies.len() implies (policies[j]).self_attribute@
                != gender by {
                if j > 0 {
                    assert(policies.drop_first()[j - 1] == policies[j]);
                }
            }
        }
    }
}

/// Apply one rule's rows to the state. The age and gender rules are keyed
/// on the person's gender, the education and verbal rules on the matching
/// attribute; a row miss leaves age and gender untouched but resolves
/// education and verbal to an explicitly empty list.
pub open spec fn apply_rule(st: ResolveState, person: DocPerson, id: i64, rows: Seq<RuleRow>) -> ResolveState {
    let kind = kind_of_rule(id);
    if kind == Some(RuleKind::Age) {
        let h = row_hit(rows, person.gender@);
        if h >= 0 {
            ResolveState {
                age: Some(rows[h].seek_offsets@.map_values(|o: i64| (o + person.age) as i64)),
                ..st
            }
        } else {
            st
        }
    } else if kind == Some(RuleKind::Gender) {
        let h = row_hit(rows, person.gender@);
        if h >= 0 {
            ResolveState { gender: Some(rows[h].seek_strings@), ..st }
        } else {
            st
        }
    } else if kind == Some(RuleKind::Education) {
        let h = row_hit(rows, person.education@);
        let st1 = if h >= 0 {
            ResolveState { education: Some(rows[h].seek_strings@), ..st }
        } else {
            st
        };
        if st1.education is None {
            ResolveState { education: Some(Seq::empty()), ..st1 }
        } else {
            st1
        }
    } else if kind == Some(RuleKind::Verbal) {
        let h = row_hit(rows, person.verbal_ability@);
        let st1 = if h >= 0 {
            ResolveState { verbal: Some(rows[h].seek_strings@), ..st }
        } else {
            st
        };
        if st1.verbal is None {
            ResolveState { verbal: Some(Seq::empty()), ..st1 }
        } else {
            st1
        }
    } else {
        st
    }
}

/// Apply, in order, every rule definition whose identifier is `id`.
pub open spec fn apply_rules_for_id(st: ResolveState, person: DocPerson, id: i64, rules: Seq<crate::rules::Rule>) -> ResolveState
    decreases rules.len(),
{
    if rules.len() == 0 {
        st
    } else {
        let prev = apply_rules_for_id(st, person, id, rules.drop_last());
        if rules.last().rule_id == id {
            apply_rule(prev, person, id, rules.last().rule_data@)
        } else {
            prev
        }
    }
}

/// Some rule definition carries this identifier.
pub open spec fn rule_id_present(rules: Seq<crate::rules::Rule>, id: i64) -> bool {
    exists|i: int| 0 <= i < rules.len() && (#[trigger] rules[i]).rule_id == id
}

/// When no rule definition carries `id`, the attribute it maps to is
/// resolved to an explicitly empty list if it is still unresolved.
pub open spec fn fallback_empty(st: ResolveState, id: i64) -> ResolveState {
    match kind_of_rule(id) {
        Some(RuleKind::Age) => if st.age is None {
            ResolveState { age: Some(Seq::empty()), ..st }
        } else {
            st
        },
        Some(RuleKind::Gender) => if st.gender is None {
            ResolveState { gender: Some(Seq::empty()), ..st }
        } else {
            st
        },
        Some(RuleKind::Education) => if st.education is None {
            ResolveState { education: Some(Seq::empty()), ..st }
        } else {
            st
        },
        Some(RuleKind::Verbal) => if st.verbal is None {
            ResolveState { verbal: Some(Seq::empty()), ..st }
        } else {
            st
        },
        None => st,
    }
}

/// Process one rule identifier referenced by the chosen policy.
pub open spec fn step_for_id(st: ResolveState, person: DocPerson, id: i64, rules: Seq<crate::rules::Rule>) -> ResolveState {
    if rule_id_present(rules, id) {
        apply_rules_for_id(st, person, id, rules)
    } else {
        fallback_empty(st, id)
    }
}

/// Process the policy's rule identifiers in order.
pub open spec fn resolve_ids(st: ResolveState, person: DocPerson, ids: Seq<i64>, rules: Seq<crate::rules::Rule>) -> ResolveState
    decreases ids.len(),
{
    if ids.len() == 0 {
        st
    } else {
        step_for_id(
            resolve_ids(st, person, ids.drop_last(), rules),
            person,
            ids.last(),
            rules,
        )
    }
}

/// The state resolution reaches for `person` under `config`, provided some
/// policy matched (`policy_hit >= 0`).
pub open spec fn resolved_state(person: DocPerson, config: RuleConfig) -> ResolveState {
    let hit = policy_hit(config.policies@, person.gender@);
    resolve_ids(init_state(), person, config.policies@[hit].rule_ids@, config.rules@)
}

/// When no rule definition carries `id`, applying them all changes nothing.
proof fn lemma_apply_rules_absent(st: ResolveState, person: DocPerson, id: i64, rules: Seq<crate::rules::Rule>)
    requires
        !rule_id_present(rules, id),
    ensures
        apply_rules_for_id(st, person, id, rules) == st,
    decreases rules.len(),
{
    if rules.len() > 0 {
        assert(!rule_id_present(rules.drop_last(), id)) by {
            assert(forall|i: int|
                0 <= i < rules.len() - 1 ==> rules.drop_last()[i] == rules[i]);
        }
        lemma_apply_rules_absent(st, person, id, rules.drop_last());
        assert(rules.last() == rules[rules.len() - 1]);
    }
}

/// The resolved bundle: one priority list per scored attribute, plus the
/// person it was resolved for. Immutable once built.
pub struct Match {
    pub person: DocPerson,
    pub age: MatcherFilter<i64>,
    pub gender: MatcherFilter<String>,
    pub education: MatcherFilter<String>,
    pub verbal: MatcherFilter<String>,
}

/// The storage-layer filter a profile pushes down: candidate `attribute`
/// must be one of `values`.
pub struct MatcherQuery {
    pub attribute: String,
    pub values: Vec<String>,
}

/// The exec matcher options mirror the ghost resolution state.
pub open spec fn rel_age(m: Option<MatcherFilter<i64>>, s: Option<Seq<i64>>) -> bool {
    match m {
        Some(f) => s == Some(f.priority_list@) && f.wf(),
        None => s is None,
    }
}

/// The exec matcher options mirror the ghost resolution state.
pub open spec fn rel_cat(m: Option<MatcherFilter<String>>, s: Option<Seq<String>>) -> bool {
    match m {
        Some(f) => s == Some(f.priority_list@) && f.wf(),
        None => s is None,
    }
}

/// Copy a list of strings.
fn clone_string_vec(v: &Vec<String>) -> (r: Vec<String>)
    ensures
        r@ == v@,
{
    let mut r: Vec<String> = Vec::new();
    let mut i: usize = 0;
    while i < v.len()
        invariant
            i <= v@.len(),
            r@.len() == i,
            forall|k: int| 0 <= k < i ==> r@[k] == v@[k],
        decreases v@.len() - i,
    {
        r.push(v[i].clone());
        i = i + 1;
    }
    proof {
        assert(r@ =~= v@);
    }
    r
}

/// Add the person's own age to every offset, yielding absolute target ages.
fn offsets_plus_age(offsets: &Vec<i64>, age: i64) -> (r: Vec<i64>)
    requires
        -MAX_PERSON_AGE <= age <= MAX_PERSON_AGE,
        forall|i: int|
            0 <= i < offsets@.len() ==> -MAX_OFFSET <= #[trigger] offsets@[i] <= MAX_OFFSET,
    ensures
        r@ == offsets@.map_values(|o: i64| (o + age) as i64),
{
    let mut r: Vec<i64> = Vec::new();
    let mut i: usize = 0;
    while i < offsets.len()
        invariant
            i <= offsets@.len(),
            r@.len() == i,
            -MAX_PERSON_AGE <= age <= MAX_PERSON_AGE,
            forall|k: int|
                0 <= k < offsets@.len() ==> -MAX_OFFSET <= #[trigger] offsets@[k] <= MAX_OFFSET,
            forall|k: int| 0 <= k < i ==> r@[k] == (offsets@[k] + age) as i64,
        decreases offsets@.len() - i,
    {
        r.push(offsets[i] + age);
        i = i + 1;
    }
    proof {
        assert(r@ =~= offsets@.map_values(|o: i64| (o + age) as i64));
    }
    r
}

/// Find the first row whose `self_value` matches `key` case-insensitively.
fn find_row(rows: &Vec<RuleRow>, key: &String) -> (r: Option<usize>)
    ensures
        r is Some <==> row_hit(rows@, key@) >= 0,
        r is Some ==> r->Some_0 as int == row_hit(rows@, key@) && r->Some_0 < rows@.len(),
{
    let mut i: usize = 0;
    while i < rows.len()
        invariant
            i <= rows@.len(),
            forall|j: int| 0 <= j < i ==> !ci_eq((#[trigger] rows@[j]).self_value@, key@),
        decreases rows@.len() - i,
    {
        if eq_ci(rows[i].self_value.as_str(), key.as_str()) {
            proof {
                lemma_row_hit_props(rows@, key@);
            }
            return Some(i);
        }
        i = i + 1;
    }
    proof {
        lemma_row_hit_props(rows@, key@);
    }
    None
}

/// Find the first policy whose `self` attribute equals `gender` exactly.
fn find_policy(policies: &Vec<Policy>, gender: &String) -> (r: Option<usize>)
    ensures
        r is Some <==> policy_hit(policies@, gender@) >= 0,
        r is Some ==> r->Some_0 as int == policy_hit(policies@, gender@) && r->Some_0
            < policies@.len(),
{
    let mut i: usize = 0;
    while i < policies.len()
        invariant
            i <= policies@.len(),
            forall|j: int| 0 <= j < i ==> (#[trigger] policies@[j]).self_attribute@ != gender@,
        decreases policies@.len() - i,
    {
        if <String as PartialEq>::eq(&policies[i].self_attribute, gender) {
            proof {
                lemma_policy_hit_props(policies@, gender@);
            }
            return Some(i);
        }
        i = i + 1;
    }
    proof {
        lemma_policy_hit_props(policies@, gender@);
    }
    None
}

impl Match {
    /// Every priority list is short enough for exact score arithmetic.
    pub open spec fn wf(&self) -> bool {
        &&& self.age.wf()
        &&& self.gender.wf()
        &&& self.education.wf()
        &&& self.verbal.wf()
    }

    /// This profile is exactly what resolution yields for `person` under
    /// `config`.
    pub open spec fn resolves(&self, person: DocPerson, config: RuleConfig) -> bool {
        let st = resolved_state(person, config);
        &&& self.person == person
        &&& st.age == Some(self.age.priority_list@)
        &&& st.gender == Some(self.gender.priority_list@)
        &&& st.education == Some(self.education.priority_list@)
        &&& st.verbal == Some(self.verbal.priority_list@)
    }

    /// Resolve a match profile for `person` under `config`.
    ///
    /// Fails with `ConfigError` when the configuration breaks the
    /// structural bounds, with `NoPolicyMatched` when no policy's `self`
    /// attribute equals the person's gender (case-sensitively), and with
    /// `NoRulesFound` when the first matching policy leaves one of the four
    /// required matchers unresolved. Otherwise the profile holds exactly
    /// the priority lists resolution derives.
    #[verifier::loop_isolation(false)]
    pub fn new(person: DocPerson, config: &RuleConfig) -> (r: Result<Match, MatchError>)
        requires
            -MAX_PERSON_AGE <= person.age <= MAX_PERSON_AGE,
        ensures
            !config.wf() ==> r == Err::<Match, MatchError>(MatchError::ConfigError),
            config.wf() && policy_hit(config.policies@, person.gender@) == -1 ==> r == Err::<
                Match,
                MatchError,
            >(MatchError::NoPolicyMatched),
            config.wf() && policy_hit(config.policies@, person.gender@) >= 0 && !fully_resolved(
                resolved_state(person, *config),
            ) ==> r == Err::<Match, MatchError>(MatchError::NoRulesFound),
            config.wf() && policy_hit(config.policies@, person.gender@) >= 0 && fully_resolved(
                resolved_state(person, *config),
            ) ==> r is Ok && r->Ok_0.resolves(person, *config) && r->Ok_0.wf(),
    {
        if !config.validate() {
            return Err(MatchError::ConfigError);
        }
        let pi = match find_policy(&config.policies, &person.gender) {
            Some(i) => i,
            None => {
                return Err(MatchError::NoPolicyMatched);
            },
        };
        let policy = &config.policies[pi];
        let mut age_m: Option<MatcherFilter<i64>> = None;
        let mut gender_m: Option<MatcherFilter<String>> = None;
        let mut education_m: Option<MatcherFilter<String>> = None;
        let mut verbal_m: Option<MatcherFilter<String>> = None;
        let ghost mut st = init_state();
        let mut j: usize = 0;
        while j < policy.rule_ids.len()
            invariant
                j <= policy.rule_ids@.len(),
                st == resolve_ids(
                    init_state(),
                    person,
                    policy.rule_ids@.take(j as int),
                    config.rules@,
                ),
                rel_age(age_m, st.age),
                rel_cat(gender_m, st.gender),
                rel_cat(education_m, st.education),
                rel_cat(verbal_m, st.verbal),
            decreases policy.rule_ids@.len() - j,
        {
            let id = policy.rule_ids[j];
            let ghost st_before = st;
            let mut found = false;
            let mut k: usize = 0;
            while k < config.rules.len()
                invariant
                    k <= config.rules@.len(),
                    st == apply_rules_for_id(st_before, person, id, config.rules@.take(k as int)),
                    found == rule_id_present(config.rules@.take(k as int), id),
                    rel_age(age_m, st.age),
                    rel_cat(gender_m, st.gender),
                    rel_cat(education_m, st.education),
                    rel_cat(verbal_m, st.verbal),
                decreases config.rules@.len() - k,
            {
                let rule = &config.rules[k];
                proof {
                    assert(config.rules@.take(k + 1).drop_last() =~= config.rules@.take(k as int));
                    assert(config.rules@.take(k + 1).last() == config.rules@[k as int]);
                }
                if rule.rule_id == id {
                    found = true;
                    proof {
                        assert(config.rules@[k as int].wf());
                    }
                    match rule_kind(id) {
                        Some(RuleKind::Age) => {
                            match find_row(&rule.rule_data, &person.gender) {
                                Some(ri) => {
                                    let row = &rule.rule_data[ri];
                                    proof {
                                        assert(rule.rule_data@[ri as int].wf());
                                    }
                                    let targets = offsets_plus_age(&row.seek_offsets, person.age);
                                    age_m = MatcherFilter::new(targets);
                                },
                                None => {},
                            }
                        },
                        Some(RuleKind::Gender) => {
                            match find_row(&rule.rule_data, &person.gender) {
                                Some(ri) => {
                                    proof {
                                        assert(rule.rule_data@[ri as int].wf());
                                    }
                                    gender_m = MatcherFilter::new(
                                        clone_string_vec(&rule.rule_data[ri].seek_strings),
                                    );
                                },
                                None => {},
                            }
                        },
                        Some(RuleKind::Education) => {
                            match find_row(&rule.rule_data, &person.education) {
                                Some(ri) => {
                                    proof {
                                        assert(rule.rule_data@[ri as int].wf());
                                    }
                                    education_m = MatcherFilter::new(
                                        clone_string_vec(&rule.rule_data[ri].seek_strings),
                                    );
                                },
                                None => {},
                            }
                            if education_m.is_none() {
                                education_m = MatcherFilter::new(Vec::new());
                            }
                        },
                        Some(RuleKind::Verbal) => {
                            match find_row(&rule.rule_data, &person.verbal_ability) {
                                Some(ri) => {
                                    proof {
                                        assert(rule.rule_data@[ri as int].wf());
                                    }
                                    verbal_m = MatcherFilter::new(
                                        clone_string_vec(&rule.rule_data[ri].seek_strings),
                                    );
                                },
                                None => {},
                            }
                            if verbal_m.is_none() {
                                verbal_m = MatcherFilter::new(Vec::new());
                            }
                        },
                        None => {},
                    }
                    proof {
                        st = apply_rule(st, person, id, config.rules@[k as int].rule_data@);
                    }
                }
                k = k + 1;
            }
            proof {
                assert(config.rules@.take(config.rules@.len() as int) =~= config.rules@);
            }
            if !found {
                match rule_kind(id) {
                    Some(RuleKind::Age) => {
                        if age_m.is_none() {
                            age_m = MatcherFilter::new(Vec::new());
                        }
                    },
                    Some(RuleKind::Gender) => {
                        if gender_m.is_none() {
                            gender_m = MatcherFilter::new(Vec::new());
                        }
                    },
                    Some(RuleKind::Education) => {
                        if education_m.is_none() {
                            education_m = MatcherFilter::new(Vec::new());
                        }
                    },
                    Some(RuleKind::Verbal) => {
                        if verbal_m.is_none() {
                            verbal_m = MatcherFilter::new(Vec::new());
                        }
                    },
                    None => {},
                }
                proof {
                    lemma_apply_rules_absent(st_before, person, id, config.rules@);
                    st = fallback_empty(st, id);
                }
            }
            proof {
                assert(policy.rule_ids@.take(j + 1).drop_last() =~= policy.rule_ids@.take(
                    j as int,
                ));
                assert(policy.rule_ids@.take(j + 1).last() == policy.rule_ids@[j as int]);
                assert(st == step_for_id(st_before, person, id, config.rules@));
            }
            j = j + 1;
        }
        proof {
            assert(policy.rule_ids@.take(policy.rule_ids@.len() as int) =~= policy.rule_ids@);
        }
        match (age_m, gender_m, education_m, verbal_m) {
            (Some(age), Some(gender), Some(education), Some(verbal)) => {
                Ok(Match { person, age, gender, education, verbal })
            },
            _ => Err(MatchError::NoRulesFound),
        }
    }

    /// The query pushed down to the storage layer before ranking: the
    /// candidate's gender must be one of the gender priority list's values.
    /// The other attributes are soft-scored, never filtered.
    pub fn getFilter(&self) -> (f: MatcherQuery)
        ensures
            f.attribute@ == "gender"@,
            f.values@ == self.gender.priority_list@,
    {
        MatcherQuery {
            attribute: "gender".to_owned(),
            values: clone_string_vec(&self.gender.priority_list),
        }
    }
}

/// The common denominator of an aggregate score: four times the product of
/// the four component denominators.
pub open spec fn score_den_of(m: Match) -> int {
    4 * score_den(m.age.priority_list@) * score_den(m.gender.priority_list@) * score_den(
        m.verbal.priority_list@,
    ) * score_den(m.education.priority_list@)
}

/// The numerator of the aggregate score over that common denominator: the
/// four component numerators, each scaled by the other three denominators.
pub open spec fn score_num_of(m: Match, c: CandidatePerson) -> int {
    let da = score_den(m.age.priority_list@);
    let dg = score_den(m.gender.priority_list@);
    let dv = score_den(m.verbal.priority_list@);
    let de = score_den(m.education.priority_list@);
    score_num(m.age.priority_list@, c.age) * (dg * dv * de) + score_num(
        m.gender.priority_list@,
        c.gender,
    ) * (da * dv * de) + score_num(m.verbal.priority_list@, c.verbal) * (da * dg * de) + score_num(
        m.education.priority_list@,
        c.education,
    ) * (da * dg * dv)
}

/// The aggregate match score of `c` under profile `m`.
pub open spec fn score_of(m: Match, c: CandidatePerson) -> Score {
    Score { num: score_num_of(m, c) as u64, den: score_den_of(m) as u64 }
}

/// `c` with its match score written.
pub open spec fn scored(m: Match, c: CandidatePerson) -> CandidatePerson {
    CandidatePerson { match_score: score_of(m, c), ..c }
}

/// The aggregate score is the arithmetic mean of the four component
/// scores: cross-multiplied against the common denominator, the aggregate
/// equals the component sum divided by four.
pub proof fn lemma_score_is_mean(m: Match, c: CandidatePerson)
    ensures
        ({
            let na = score_num(m.age.priority_list@, c.age);
            let ng = score_num(m.gender.priority_list@, c.gender);
            let nv = score_num(m.verbal.priority_list@, c.verbal);
            let ne = score_num(m.education.priority_list@, c.education);
            let da = score_den(m.age.priority_list@);
            let dg = score_den(m.gender.priority_list@);
            let dv = score_den(m.verbal.priority_list@);
            let de = score_den(m.education.priority_list@);
            score_num_of(m, c) * (4 * (da * dg * dv * de)) == score_den_of(m) * (na * (dg * dv * de)
                + ng * (da * dv * de) + nv * (da * dg * de) + ne * (da * dg * dv))
        }),
{
    let na = score_num(m.age.priority_list@, c.age);
    let ng = score_num(m.gender.priority_list@, c.gender);
    let nv = score_num(m.verbal.priority_list@, c.verbal);
    let ne = score_num(m.education.priority_list@, c.education);
    let da = score_den(m.age.priority_list@);
    let dg = score_den(m.gender.priority_list@);
    let dv = score_den(m.verbal.priority_list@);
    let de = score_den(m.education.priority_list@);
    let s = na * (dg * dv * de) + ng * (da * dv * de) + nv * (da * dg * de) + ne * (da * dg * dv);
    assert(s * (4 * (da * dg * dv * de)) == (4 * da * dg * dv * de) * s) by (nonlinear_arith);
}

/// Policy resolution consults only the first matching policy: under a
/// configuration truncated right after that policy, with the same rules,
/// both the policy choice and the resolved state are unchanged, so any
/// later policy, matching or not, never influences the result.
pub proof fn lemma_first_policy_wins(
    person: DocPerson,
    config: RuleConfig,
    config2: RuleConfig,
    k: int,
)
    requires
        0 <= k,
        k == policy_hit(config.policies@, person.gender@),
        config2.rules@ == config.rules@,
        config2.policies@ == config.policies@.take(k + 1),
    ensures
        policy_hit(config2.policies@, person.gender@) == k,
        resolved_state(person, config2) == resolved_state(person, config),
{
    lemma_policy_hit_props(config.policies@, person.gender@);
    lemma_policy_hit_props(config2.policies@, person.gender@);
    assert(forall|j: int| 0 <= j <= k ==> config2.policies@[j] == config.policies@[j]);
    let h2 = policy_hit(config2.policies@, person.gender@);
    assert(config2.policies@[k].self_attribute@ == person.gender@);
    if h2 < k {
        assert(config.policies@[h2].self_attribute@ == person.gender@);
    }
    assert(h2 == k);
}

/// Resolution is deterministic: two profiles resolved from the same person
/// and configuration hold identical priority lists, in contents and order.
pub proof fn lemma_resolution_deterministic(
    person: DocPerson,
    config: RuleConfig,
    m1: Match,
    m2: Match,
)
    requires
        m1.resolves(person, config),
        m2.resolves(person, config),
    ensures
        m1.age.priority_list@ == m2.age.priority_list@,
        m1.gender.priority_list@ == m2.gender.priority_list@,
        m1.education.priority_list@ == m2.education.priority_list@,
        m1.verbal.priority_list@ == m2.verbal.priority_list@,
{
}

impl Match {
    /// The aggregate match score of `candidate`: the weighted sum over the
    /// four priority lists, divided by the number of scored attributes --
    /// the arithmetic mean of the four component scores, a rational in
    /// [0, 100].
    pub fn calculateScore(&self, candidate: &CandidatePerson) -> (r: Score)
        requires
            self.wf(),
        ensures
            r == score_of(*self, *candidate),
            r.num as int == score_num_of(*self, *candidate),
            r.den as int == score_den_of(*self),
            r.wf(),
    {
        let sa = self.age.calculate(&candidate.age);
        let sg = self.gender.calculate(&candidate.gender);
        let sv = self.verbal.calculate(&candidate.verbal);
        let se = self.education.calculate(&candidate.education);
        let da = sa.den;
        let dg = sg.den;
        let dv = sv.den;
        let de = se.den;
        proof {
            assert(1 <= da <= 10000 && 1 <= dg <= 10000 && 1 <= dv <= 10000 && 1 <= de <= 10000);
            assert(sa.num <= 1000000 && sg.num <= 1000000 && sv.num <= 1000000 && se.num
                <= 1000000);
            assert(dg * dv <= 100000000int) by (nonlinear_arith)
                requires
                    dg <= 10000,
                    dv <= 10000,
            ;
            assert(da * dv <= 100000000int) by (nonlinear_arith)
                requires
                    da <= 10000,
                    dv <= 10000,
            ;
            assert(da * dg <= 100000000int) by (nonlinear_arith)
                requires
                    da <= 10000,
                    dg <= 10000,
            ;
        }
        let gv: u64 = dg * dv;
        let av: u64 = da * dv;
        let ag: u64 = da * dg;
        proof {
            assert(gv * de <= 1000000000000int && av * de <= 1000000000000int && ag * de
                <= 1000000000000int && ag * dv <= 1000000000000int) by (nonlinear_arith)
                requires
                    gv <= 100000000,
                    av <= 100000000,
                    ag <= 100000000,
                    de <= 10000,
                    dv <= 10000,
            ;
        }
        let gve: u64 = gv * de;
        let ave: u64 = av * de;
        let agde: u64 = ag * de;
        let agv: u64 = ag * dv;
        proof {
            assert(sa.num * gve <= 1000000000000000000int && sg.num * ave
                <= 1000000000000000000int && sv.num * agde <= 1000000000000000000int && se.num
                * agv <= 1000000000000000000int) by (nonlinear_arith)
                requires
                    sa.num <= 1000000,
                    sg.num <= 1000000,
                    sv.num <= 1000000,
                    se.num <= 1000000,
                    gve <= 1000000000000,
                    ave <= 1000000000000,
                    agde <= 1000000000000,
                    agv <= 1000000000000,
            ;
        }
        let num: u64 = sa.num * gve + sg.num * ave + sv.num * agde + se.num * agv;
        proof {
            assert(4 * da * dg <= 400000000int && 4 * da * dg * dv <= 4000000000000int && 4 * da
                * dg * dv * de <= 40000000000000000int) by (nonlinear_arith)
                requires
                    1 <= da <= 10000,
                    1 <= dg <= 10000,
                    1 <= dv <= 10000,
                    1 <= de <= 10000,
            ;
        }
        let d4: u64 = 4 * da;
        let d4g: u64 = d4 * dg;
        let d4gv: u64 = d4g * dv;
        let den: u64 = d4gv * de;
        proof {
            assert(num <= 100 * den) by (nonlinear_arith)
                requires
                    sa.num <= 100 * da,
                    sg.num <= 100 * dg,
                    sv.num <= 100 * dv,
                    se.num <= 100 * de,
                    1 <= da,
                    1 <= dg,
                    1 <= dv,
                    1 <= de,
                    num == sa.num * ((dg * dv) * de) + sg.num * ((da * dv) * de) + sv.num * ((da
                        * dg) * de) + se.num * ((da * dg) * dv),
                    den == (((4 * da) * dg) * dv) * de,
            ;
            assert(1 <= den) by (nonlinear_arith)
                requires
                    1 <= da,
                    1 <= dg,
                    1 <= dv,
                    1 <= de,
                    den == (((4 * da) * dg) * dv) * de,
            ;
            assert(den as int == score_den_of(*self)) by (nonlinear_arith)
                requires
                    den == (((4 * da) * dg) * dv) * de,
                    score_den_of(*self) == 4 * (da as int) * (dg as int) * (dv as int) * (
                    de as int),
            ;
        }
        Score { num, den }
    }

    /// Rank a candidate batch: write each candidate's match score, shuffle
    /// the batch to randomize the relative order of candidates that tie,
    /// then sort by descending match score with a sort that keeps the
    /// shuffle's order among equal scores. The whole batch comes back; an
    /// empty batch yields an empty batch.
    #[verifier::loop_isolation(false)]
    pub fn qurate(&mut self, candidates: Vec<CandidatePerson>) -> (r: Vec<CandidatePerson>)
        requires
            old(self).wf(),
        ensures
            *final(self) == *old(self),
            r@.len() == candidates@.len(),
            r@.to_multiset() == candidates@.map_values(
                |c: CandidatePerson| scored(*old(self), c),
            ).to_multiset(),
            forall|i: int|
                0 <= i < r@.len() ==> (#[trigger] r@[i]).match_score == score_of(
                    *old(self),
                    r@[i],
                ),
            sorted_desc(r@),
    {
        let ghost me = *old(self);
        let mut sortList: Vec<CandidatePerson> = Vec::new();
        let mut rest = candidates;
        let ghost orig = rest@;
        while rest.len() > 0
            invariant
                *self == me,
                sortList@.len() + rest@.len() == orig.len(),
                forall|k: int|
                    0 <= k < sortList@.len() ==> sortList@[k] == scored(me, orig[k]),
                forall|k: int|
                    0 <= k < rest@.len() ==> rest@[k] == orig[sortList@.len() + k],
                dens_ok(sortList@),
            decreases rest@.len(),
        {
            let ghost i = sortList@.len() as int;
            let mut c = rest.remove(0);
            proof {
                assert(c == orig[i]);
            }
            let s = self.calculateScore(&c);
            c.match_score = s;
            sortList.push(c);
            proof {
                assert(sortList@[i] == scored(me, orig[i]));
            }
        }
        proof {
            assert(sortList@ =~= orig.map_values(|c: CandidatePerson| scored(me, c)));
        }
        let ghost before_shuffle = sortList@;
        shuffle_candidates(&mut sortList);
        proof {
            crate::rank::lemma_dens_ok_multiset(before_shuffle, sortList@);
        }
        let r = sort_by_score(sortList);
        proof {
            let mapped = orig.map_values(|c: CandidatePerson| scored(me, c));
            assert forall|i: int| 0 <= i < r@.len() implies (#[trigger] r@[i]).match_score
                == score_of(me, r@[i]) by {
                assert(r@.contains(r@[i]));
                assert(r@.to_multiset().count(r@[i]) > 0);
                assert(mapped.contains(r@[i]));
                let j = choose|j: int| 0 <= j < mapped.len() && mapped[j] == r@[i];
                assert(r@[i] == scored(me, orig[j]));
                assert(score_num_of(me, r@[i]) == score_num_of(me, orig[j]));
            }
        }
        r
    }
}

} // verus!
