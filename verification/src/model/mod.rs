//! The relational store, modelled as verified in-memory tables. The
//! surrounding program maps each operation onto the real database; the core's
//! logic and invariants are stated and proved against this model.

pub mod message;
pub mod task;
pub mod token;
pub mod transaction;
pub mod transport;
pub mod user;

use vstd::prelude::*;

verus! {

/// Errors of the store. "Not found" is a distinguished kind so that callers
/// can fall through to insert-if-missing logic; "conflict" models the unique
/// constraints of the schema.
#[derive(Clone, Copy, PartialEq, Eq, Structural, Debug)]
pub enum DbError {
    NotFound,
    Conflict,
}

pub fn is_not_found_record_err(err: &DbError) -> (r: bool)
    ensures
        r == (err is NotFound),
{
    match err {
        DbError::NotFound => true,
        DbError::Conflict => false,
    }
}

/// A short description of a store error, usable as a retry reason.
pub fn db_error_text(err: &DbError) -> (r: String)
    ensures
        err is NotFound ==> r@ == "record not found"@,
        err is Conflict ==> r@ == "unique constraint violated"@,
{
    match err {
        DbError::NotFound => String::from_str("record not found"),
        DbError::Conflict => String::from_str("unique constraint violated"),
    }
}

} // verus!
