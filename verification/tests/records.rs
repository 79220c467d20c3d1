//! The plain record types: storage rows, spreadsheet sifting, defaults,
//! and error messages.

use qdmatch::db_models::{default_string, CandidatePersonDb, DbError};
use qdmatch::excel::{
    finish_read, qid_is_valid, sift_rows, ExcelError, ExcelRow, RowWarning, SheetRow, WarnKind,
};
use qdmatch::rules::{default_1d_list, default_gender};

fn s(x: &str) -> String {
    x.to_string()
}

fn db_row(qid: &str, age: &str) -> CandidatePersonDb {
    CandidatePersonDb {
        qid: s(qid),
        name: s("n"),
        gender: s("male"),
        age: s(age),
        phone: s("1"),
        email: s("a@b.c"),
        education: s("college"),
        verbal_ability: s("good"),
    }
}

fn sheet_row(qid: &str) -> ExcelRow {
    ExcelRow {
        qid: s(qid),
        name: s("n"),
        email: s("a@b.c"),
        phone: s("1"),
        city: s("city"),
        gender: s("male"),
        age: 30,
        education: s("college"),
        profession: s("p"),
        verbal_ability: s("good"),
        seeking: s("partner"),
    }
}

#[test]
fn candidate_age_text_parses_to_a_number() {
    assert_eq!(db_row("Q-1", "30").into_candidate().age, 30);
    assert_eq!(db_row("Q-1", "-5").into_candidate().age, -5);
}

#[test]
fn candidate_age_text_defaults_to_zero_when_malformed() {
    assert_eq!(db_row("Q-1", "abc").into_candidate().age, 0);
    assert_eq!(db_row("Q-1", "30.5").into_candidate().age, 0);
    assert_eq!(db_row("Q-1", "").into_candidate().age, 0);
    assert_eq!(db_row("Q-1", "123456789").into_candidate().age, 0);
}

#[test]
fn candidate_starts_with_zero_score() {
    let c = db_row("Q-1", "30").into_candidate();
    assert_eq!(c.match_score.num, 0);
    assert_eq!(c.match_score.den, 1);
    assert_eq!(c.qid, s("Q-1"));
    assert_eq!(c.verbal, s("good"));
}

#[test]
fn default_markers() {
    assert_eq!(default_string(), s(" "));
    assert_eq!(default_gender(), s("-"));
    assert_eq!(default_1d_list(), s("1d"));
}

#[test]
fn db_error_messages() {
    assert_eq!(DbError::NoPersonFound.message(), s("No person found !"));
    assert_eq!(DbError::MongoError.message(), s("Database Error Occured"));
    assert_eq!(DbError::DbParsingError.message(), s("Database Error Occured"));
}

#[test]
fn qid_needs_the_record_tag() {
    assert!(qid_is_valid("Q-12"));
    assert!(qid_is_valid("xxQ-7"));
    assert!(!qid_is_valid("Q12"));
    assert!(!qid_is_valid("q-12"));
    assert!(!qid_is_valid(""));
}

#[test]
fn sifting_keeps_tagged_rows_and_warns_about_the_rest() {
    let rows = vec![
        SheetRow::Parsed(sheet_row("Q-1")),
        SheetRow::Parsed(sheet_row("X1")),
        SheetRow::Unreadable,
        SheetRow::Parsed(sheet_row("Q-2")),
    ];
    let (persons, warnings) = sift_rows(rows, 1);
    assert_eq!(persons.len(), 2);
    assert_eq!(persons[0].qid, s("Q-1"));
    assert_eq!(persons[1].qid, s("Q-2"));
    assert_eq!(persons[0].languages, vec![s("English")]);
    assert_eq!(persons[0].response_rating, s("0"));
    assert_eq!(persons[0].age, 30);
    assert_eq!(
        warnings,
        vec![
            RowWarning { sheet: 1, row: 1, kind: WarnKind::InvalidQid },
            RowWarning { sheet: 1, row: 2, kind: WarnKind::InvalidData },
        ]
    );
}

#[test]
fn an_entirely_empty_workbook_is_an_error() {
    let r = finish_read(Vec::new(), Vec::new());
    match r {
        Err(ExcelError::Error(msg)) => assert_eq!(msg, s("Sheet is empty")),
        _ => panic!("expected the empty-sheet error"),
    }
}

#[test]
fn warnings_alone_still_count_as_a_successful_read() {
    let warnings = vec![RowWarning { sheet: 1, row: 0, kind: WarnKind::InvalidData }];
    let r = finish_read(Vec::new(), warnings.clone());
    match r {
        Ok((persons, w)) => {
            assert!(persons.is_empty());
            assert_eq!(w, warnings);
        }
        _ => panic!("expected a successful read"),
    }
}
