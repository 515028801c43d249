use vstd::prelude::*;

use sqlx::types::Uuid;

use crate::errors::AppError;

verus! {

#[verifier::external_type_specification]
#[verifier::external_body]
pub struct ExUuid(Uuid);

/// Whether `Uuid::parse_str` reads a UUID from the text.
pub uninterp spec fn is_uuid_text(s: Seq<char>) -> bool;

/// Relies on `Uuid::parse_str` of the `uuid` crate (as sqlx re-exports it):
/// whether the text is a UUID in one of the forms it reads, and that UUID.
#[verifier::external_body]
fn parse_uuid(s: &str) -> (r: Option<Uuid>)
    ensures
        r is Some <==> is_uuid_text(s@),
{
    Uuid::parse_str(s).ok()
}

/// The UUID that an id given as text stands for; text that is no UUID is an
/// error.
pub fn read_uuid(s: &str) -> (r: Result<Uuid, AppError>)
    ensures
        r is Ok <==> is_uuid_text(s@),
        r is Err ==> r == Err::<Uuid, AppError>(AppError::UuidError),
{
    match parse_uuid(s) {
        Some(id) => Ok(id),
        None => Err(AppError::UuidError),
    }
}

} // verus!
