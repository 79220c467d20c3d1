//! Plain records exchanged with the storage layer, and the storage error
//! kinds. All I/O lives outside the library; these types carry the values.

use vstd::prelude::*;
use crate::model::CandidatePerson;
use crate::score::Score;
use crate::text::age_of_text;
use crate::text::parse_age;

verus! {

/// The default placeholder for an attribute the source record left blank.
pub fn default_string() -> (r: String)
    ensures
        r@ == " "@,
{
    " ".to_owned()
}

/// The self profile of the person a match is requested for.
pub struct DocPerson {
    pub qid: String,
    pub name: String,
    pub gender: String,
    pub age: i64,
    pub email: String,
    pub phone: String,
    pub city: String,
    pub languages: Vec<String>,
    pub profession: String,
    pub education: String,
    pub response_rating: String,
    pub verbal_ability: String,
    pub seeking: String,
}

/// A candidate row as the storage layer hands it over: every attribute is
/// still text.
pub struct CandidatePersonDb {
    pub qid: String,
    pub name: String,
    pub gender: String,
    pub age: String,
    pub phone: String,
    pub email: String,
    pub education: String,
    pub verbal_ability: String,
}

impl CandidatePersonDb {
    /// Turn a raw storage row into a candidate: the age text becomes a
    /// number (0 when it is not a plain whole number) and the match score
    /// starts at zero.
    pub fn into_candidate(self) -> (r: CandidatePerson)
        ensures
            r.qid == self.qid,
            r.name == self.name,
            r.gender == self.gender,
            r.age as int == age_of_text(self.age@),
            r.education == self.education,
            r.verbal == self.verbal_ability,
            r.email == self.email,
            r.phone == self.phone,
            r.match_score.num == 0,
            r.match_score.den == 1,
    {
        let age = parse_age(self.age.as_str());
        CandidatePerson {
            qid: self.qid,
            name: self.name,
            gender: self.gender,
            age,
            education: self.education,
            verbal: self.verbal_ability,
            email: self.email,
            phone: self.phone,
            match_score: Score { num: 0, den: 1 },
        }
    }
}

/// Connection settings for the storage layer.
pub struct DbConfig {
    pub app: String,
    pub username: String,
    pub password: String,
    pub source: String,
    pub database: String,
    pub host: String,
    pub port: String,
}

/// Storage errors reported to the caller.
#[derive(Clone, Copy, Debug, PartialEq, Eq, Structural)]
pub enum DbError {
    MongoError,
    ReconnetRequestError,
    UnwrapError,
    NoPersonFound,
    DbParsingError,
}

impl DbError {
    /// The message shown for this error.
    pub fn message(&self) -> (r: String)
        ensures
            *self == DbError::NoPersonFound ==> r@ == "No person found !"@,
            *self != DbError::NoPersonFound ==> r@ == "Database Error Occured"@,
    {
        match self {
            DbError::NoPersonFound => "No person found !".to_owned(),
            _ => "Database Error Occured".to_owned(),
        }
    }
}

} // verus!
