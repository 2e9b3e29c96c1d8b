//! What the pages decide: the page or redirect that answers each request,
//! given what the form held and what the database said. Reading the
//! request and talking to the database happen around these functions.
pub mod brand;
pub mod category;
pub mod category2;

use vstd::prelude::*;

verus! {

/// Why a database statement failed.
pub enum DbError {
    /// The database refused the statement, with its SQLSTATE code when it
    /// gave one.
    Database { code: Option<String> },
    /// Any other failure: the connection, the protocol, decoding a row.
    Other,
}

/// The SQLSTATE code of a failure, when the database gave one.
pub open spec fn error_code(e: DbError) -> Option<Seq<char>> {
    match e {
        DbError::Database { code: Some(c) } => Some(c@),
        _ => None,
    }
}

/// The answer to a page request: a redirect to a location, or a page.
pub enum WebResponse<T> {
    Redirect(String),
    Page(T),
}

/// Whether an optional string holds exactly the text `lit`.
pub fn opt_is(o: &Option<String>, lit: &str) -> (r: bool)
    ensures
        r == (o matches Some(s) && s@ == lit@),
{
    match o {
        Some(s) => crate::text::str_equals(s.as_str(), lit),
        None => false,
    }
}

} // verus!
