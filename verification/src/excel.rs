//! Sifting spreadsheet rows into person records: row validation, the
//! per-row warnings, and the empty-sheet rule. Reading the workbook itself
//! happens outside the library; the rows arrive here as plain values.

use vstd::prelude::*;
use vstd::string::StrSliceExecFns;
use crate::db_models::DocPerson;

verus! {

/// Reading the spreadsheet failed.
#[derive(Debug)]
pub enum ExcelError {
    Error(String),
}

/// One row of a sheet, already split into its columns.
pub struct ExcelRow {
    pub qid: String,
    pub name: String,
    pub email: String,
    pub phone: String,
    pub city: String,
    pub gender: String,
    pub age: i64,
    pub education: String,
    pub profession: String,
    pub verbal_ability: String,
    pub seeking: String,
}

/// A row as it came off the sheet: its columns, or unreadable.
pub enum SheetRow {
    Parsed(ExcelRow),
    Unreadable,
}

/// Why a row was skipped.
#[derive(Clone, Copy, Debug, PartialEq, Eq, Structural)]
pub enum WarnKind {
    InvalidQid,
    InvalidData,
}

/// A skipped row: which sheet, which row, and why.
#[derive(Clone, Copy, Debug, PartialEq, Eq, Structural)]
pub struct RowWarning {
    pub sheet: usize,
    pub row: usize,
    pub kind: WarnKind,
}

/// The identifier carries the record tag: the characters `Q-` appear
/// somewhere in it.
pub open spec fn has_qid_tag(s: Seq<char>) -> bool {
    exists|i: int| 0 <= i && i + 2 <= s.len() && #[trigger] s[i] == 'Q' && s[i + 1] == '-'
}

/// Whether a row identifier is acceptable.
pub fn qid_is_valid(qid: &str) -> (r: bool)
    ensures
        r == has_qid_tag(qid@),
{
    let n = qid.unicode_len();
    if n < 2 {
        return false;
    }
    let mut i: usize = 0;
    while i + 1 < n
        invariant
            i + 1 <= n,
            n == qid@.len(),
            forall|j: int| 0 <= j < i ==> !(#[trigger] qid@[j] == 'Q' && qid@[j + 1] == '-'),
        decreases n - i,
    {
        if qid.get_char(i) == 'Q' && qid.get_char(i + 1) == '-' {
            return true;
        }
        i = i + 1;
    }
    false
}

/// The rows of a sheet that become persons, in order: the readable ones
/// whose identifier carries the record tag.
pub open spec fn sift_persons(rows: Seq<SheetRow>) -> Seq<ExcelRow>
    decreases rows.len(),
{
    if rows.len() == 0 {
        Seq::empty()
    } else {
        let prev = sift_persons(rows.drop_last());
        match rows.last() {
            SheetRow::Parsed(r) => if has_qid_tag(r.qid@) {
                prev.push(r)
            } else {
                prev
            },
            SheetRow::Unreadable => prev,
        }
    }
}

/// The warnings a sheet's rows produce, in order: one per unreadable row
/// and one per readable row with an unacceptable identifier.
pub open spec fn sift_warnings(rows: Seq<SheetRow>, sheet: usize) -> Seq<RowWarning>
    decreases rows.len(),
{
    if rows.len() == 0 {
        Seq::empty()
    } else {
        let prev = sift_warnings(rows.drop_last(), sheet);
        let row = (rows.len() - 1) as usize;
        match rows.last() {
            SheetRow::Parsed(r) => if has_qid_tag(r.qid@) {
                prev
            } else {
                prev.push(RowWarning { sheet, row, kind: WarnKind::InvalidQid })
            },
            SheetRow::Unreadable => prev.push(
                RowWarning { sheet, row, kind: WarnKind::InvalidData },
            ),
        }
    }
}

/// The person record a kept row becomes: the columns carried over, one
/// spoken language preset, and a zero response rating.
pub open spec fn person_matches(p: DocPerson, r: ExcelRow) -> bool {
    &&& p.qid == r.qid
    &&& p.name == r.name
    &&& p.email == r.email
    &&& p.phone == r.phone
    &&& p.city == r.city
    &&& p.gender == r.gender
    &&& p.age == r.age
    &&& p.education == r.education
    &&& p.profession == r.profession
    &&& p.verbal_ability == r.verbal_ability
    &&& p.seeking == r.seeking
    &&& p.response_rating@ == "0"@
    &&& p.languages@.len() == 1
    &&& p.languages@[0]@ == "English"@
}

/// Sift one sheet's rows: readable rows with an acceptable identifier
/// become person records, every other row becomes a warning naming its
/// position.
#[verifier::loop_isolation(false)]
pub fn sift_rows(rows: Vec<SheetRow>, sheet: usize) -> (r: (Vec<DocPerson>, Vec<RowWarning>))
    ensures
        r.0@.len() == sift_persons(rows@).len(),
        forall|k: int|
            0 <= k < r.0@.len() ==> person_matches(r.0@[k], sift_persons(rows@)[k]),
        r.1@ == sift_warnings(rows@, sheet),
{
    let mut persons: Vec<DocPerson> = Vec::new();
    let mut warnings: Vec<RowWarning> = Vec::new();
    let mut rest = rows;
    let ghost orig = rest@;
    let n = rest.len();
    let mut i: usize = 0;
    while rest.len() > 0
        invariant
            n == orig.len(),
            i + rest@.len() == orig.len(),
            forall|k: int| 0 <= k < rest@.len() ==> rest@[k] == orig[i + k],
            persons@.len() == sift_persons(orig.take(i as int)).len(),
            forall|k: int|
                0 <= k < persons@.len() ==> person_matches(
                    persons@[k],
                    sift_persons(orig.take(i as int))[k],
                ),
            warnings@ == sift_warnings(orig.take(i as int), sheet),
        decreases rest@.len(),
    {
        let row = rest.remove(0);
        proof {
            assert(row == orig[i as int]);
            assert(orig.take(i + 1).drop_last() =~= orig.take(i as int));
            assert(orig.take(i + 1).last() == orig[i as int]);
        }
        match row {
            SheetRow::Parsed(r) => {
                if qid_is_valid(r.qid.as_str()) {
                    let person = DocPerson {
                        qid: r.qid,
                        name: r.name,
                        email: r.email,
                        phone: r.phone,
                        profession: r.profession,
                        age: r.age,
                        gender: r.gender,
                        response_rating: "0".to_owned(),
                        city: r.city,
                        seeking: r.seeking,
                        verbal_ability: r.verbal_ability,
                        education: r.education,
                        languages: vec!["English".to_owned()],
                    };
                    persons.push(person);
                } else {
                    warnings.push(RowWarning { sheet, row: i, kind: WarnKind::InvalidQid });
                }
            },
            SheetRow::Unreadable => {
                warnings.push(RowWarning { sheet, row: i, kind: WarnKind::InvalidData });
            },
        }
        i = i + 1;
    }
    proof {
        assert(orig.take(i as int) =~= orig);
    }
    (persons, warnings)
}

/// The whole read succeeds when anything at all came out of the workbook;
/// a workbook yielding neither persons nor warnings is reported empty.
pub fn finish_read(persons: Vec<DocPerson>, warnings: Vec<RowWarning>) -> (r: Result<
    (Vec<DocPerson>, Vec<RowWarning>),
    ExcelError,
>)
    ensures
        persons@.len() > 0 || warnings@.len() > 0 ==> r is Ok && r->Ok_0.0 == persons
            && r->Ok_0.1 == warnings,
        persons@.len() == 0 && warnings@.len() == 0 ==> r is Err && (r->Err_0 matches
            ExcelError::Error(s) && s@ == "Sheet is empty"@),
{
    if persons.len() > 0 || warnings.len() > 0 {
        Ok((persons, warnings))
    } else {
        Err(ExcelError::Error("Sheet is empty".to_owned()))
    }
}

} // verus!
