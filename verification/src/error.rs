use vstd::prelude::*;

verus! {

use vstd::string::StringExecFns;
use crate::decimal::i32_dec_seq;
use crate::decimal::i32_string;

/// The one structured failure: an identifier that resolved to no row in the
/// named table.
#[derive(Debug)]
pub enum ResponderError {
    DbEntityNotFound { table: String, key: String },
}

/// Holds when the error is the not-found failure for the given table name
/// and printed key.
pub open spec fn is_not_found(e: ResponderError, table: Seq<char>, key: Seq<char>) -> bool {
    e matches ResponderError::DbEntityNotFound { table: t, key: k } && t@ == table && k@ == key
}

/// Builds the not-found failure for a table name and an integer key, the key
/// printed as its decimal numeral.
pub fn not_found(table: &str, key: i32) -> (e: ResponderError)
    ensures
        is_not_found(e, table@, i32_dec_seq(key as int)),
{
    ResponderError::DbEntityNotFound { table: String::from_str(table), key: i32_string(key) }
}

impl ResponderError {
    /// The human-readable message, naming the table and the key that failed
    /// to resolve.
    pub fn message(&self) -> (r: String)
        ensures
            (*self) matches ResponderError::DbEntityNotFound { table, key } ==> r@
                == "Could not find entity '"@ + table@ + "' with key:'"@ + key@ + "'"@,
    {
        match self {
            ResponderError::DbEntityNotFound { table, key } => {
                let mut s = String::from_str("Could not find entity '");
                s.append(table.as_str());
                s.append("' with key:'");
                s.append(key.as_str());
                s.append("'");
                s
            },
        }
    }
}

} // verus!
