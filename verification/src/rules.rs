//! The in-memory rule configuration: policies keyed by the person's own
//! gender, and rule definitions from which priority lists are derived.

use vstd::prelude::*;
use crate::priority::MAX_LIST_LEN;

verus! {

/// Bound on age offsets; keeps `age + offset` inside `i64`.
pub const MAX_OFFSET: i64 = 1000000000;

/// Bound on the age of the person a profile is resolved for.
pub const MAX_PERSON_AGE: i64 = 1000000000;

/// The rule identifier with signed-offset semantics (the age rule).
pub const RULE_ID_AGE: i64 = 1;

/// One row of a rule: applies when the owner's attribute equals
/// `self_value` (case-insensitively), and then contributes one of the two
/// seek lists.
pub struct RuleRow {
    pub self_value: String,
    pub seek_strings: Vec<String>,
    pub seek_offsets: Vec<i64>,
}

impl RuleRow {
    /// Seek lists fit the arithmetic bounds of the scoring engine.
    pub open spec fn wf(&self) -> bool {
        &&& self.seek_strings@.len() <= MAX_LIST_LEN
        &&& self.seek_offsets@.len() <= MAX_LIST_LEN
        &&& forall|i: int|
            0 <= i < self.seek_offsets@.len() ==> -MAX_OFFSET <= #[trigger] self.seek_offsets@[i]
                <= MAX_OFFSET
    }
}

/// A rule definition: an identifier and its rows.
pub struct Rule {
    pub rule_id: i64,
    pub rule_data: Vec<RuleRow>,
}

impl Rule {
    pub open spec fn wf(&self) -> bool {
        forall|i: int| 0 <= i < self.rule_data@.len() ==> (#[trigger] self.rule_data@[i]).wf()
    }
}

/// A policy: applies to people whose gender equals `self_attribute`
/// (case-sensitively), and activates the listed rules in order.
pub struct Policy {
    pub self_attribute: String,
    pub rule_ids: Vec<i64>,
}

/// The parsed rule document: ordered policies and ordered rule definitions.
pub struct RuleConfig {
    pub policies: Vec<Policy>,
    pub rules: Vec<Rule>,
}

impl RuleConfig {
    /// A structurally valid configuration: every seek list is short enough
    /// and every offset small enough for exact score arithmetic.
    pub open spec fn wf(&self) -> bool {
        forall|i: int| 0 <= i < self.rules@.len() ==> (#[trigger] self.rules@[i]).wf()
    }

    /// Decide structural validity; a configuration that fails this check is
    /// rejected with a configuration error before any resolution.
    #[verifier::loop_isolation(false)]
    pub fn validate(&self) -> (r: bool)
        ensures
            r == self.wf(),
    {
        let mut i: usize = 0;
        while i < self.rules.len()
            invariant
                i <= self.rules@.len(),
                forall|k: int| 0 <= k < i ==> (#[trigger] self.rules@[k]).wf(),
            decreases self.rules@.len() - i,
        {
            let rule = &self.rules[i];
            let mut j: usize = 0;
            while j < rule.rule_data.len()
                invariant
                    j <= rule.rule_data@.len(),
                    forall|k: int| 0 <= k < j ==> (#[trigger] rule.rule_data@[k]).wf(),
                decreases rule.rule_data@.len() - j,
            {
                let row = &rule.rule_data[j];
                if row.seek_strings.len() > MAX_LIST_LEN || row.seek_offsets.len() > MAX_LIST_LEN {
                    proof {
                        assert(!self.rules@[i as int].wf()) by {
                            assert(!self.rules@[i as int].rule_data@[j as int].wf());
                        }
                    }
                    return false;
                }
                let mut o: usize = 0;
                while o < row.seek_offsets.len()
                    invariant
                        o <= row.seek_offsets@.len(),
                        forall|k: int|
                            0 <= k < o ==> -MAX_OFFSET <= #[trigger] row.seek_offsets@[k]
                                <= MAX_OFFSET,
                    decreases row.seek_offsets@.len() - o,
                {
                    let off = row.seek_offsets[o];
                    if off < -MAX_OFFSET || off > MAX_OFFSET {
                        proof {
                            assert(!self.rules@[i as int].wf()) by {
                                assert(!self.rules@[i as int].rule_data@[j as int].wf()) by {
                                    assert(self.rules@[i as int].rule_data@[j as int].seek_offsets@[o as int] == off);
                                }
                            }
                        }
                        return false;
                    }
                    o = o + 1;
                }
                j = j + 1;
            }
            i = i + 1;
        }
        true
    }
}

/// The attribute a rule identifier resolves: identifier 1 carries the
/// signed-offset age semantics, the others are categorical.
#[derive(Clone, Copy, Debug, PartialEq, Eq, Structural)]
pub enum RuleKind {
    Age,
    Gender,
    Education,
    Verbal,
}

/// The mapping from rule identifier to scored attribute. Adding a scored
/// attribute means extending this table.
pub open spec fn kind_of_rule(id: i64) -> Option<RuleKind> {
    if id == RULE_ID_AGE {
        Some(RuleKind::Age)
    } else if id == 2 {
        Some(RuleKind::Gender)
    } else if id == 3 || id == 4 {
        Some(RuleKind::Education)
    } else if id == 5 {
        Some(RuleKind::Verbal)
    } else {
        None
    }
}

/// Executable twin of [`kind_of_rule`].
pub fn rule_kind(id: i64) -> (r: Option<RuleKind>)
    ensures
        r == kind_of_rule(id),
{
    if id == RULE_ID_AGE {
        Some(RuleKind::Age)
    } else if id == 2 {
        Some(RuleKind::Gender)
    } else if id == 3 || id == 4 {
        Some(RuleKind::Education)
    } else if id == 5 {
        Some(RuleKind::Verbal)
    } else {
        None
    }
}

/// The default gender marker used when a rule document omits the field.
pub fn default_gender() -> (r: String)
    ensures
        r@ == "-"@,
{
    "-".to_owned()
}

/// The default list marker used when a rule document omits the field.
pub fn default_1d_list() -> (r: String)
    ensures
        r@ == "1d"@,
{
    "1d".to_owned()
}

} // verus!
