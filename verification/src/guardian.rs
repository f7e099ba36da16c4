//! The typed shape of a stored puzzle document, and the verified extraction
//! of that shape from the opaque document.

use vstd::prelude::*;

use crate::json::get_str_field;
use crate::json::get_u64_field;
use crate::json::obj_str_fields;
use crate::json::obj_u64_fields;
use crate::models::AppError;

verus! {

/// The typed, deserialized form of a stored puzzle document: its own id, a
/// display name, and the puzzle number.
#[derive(Debug)]
pub struct GuardianCrossword {
    pub id: String,
    pub name: String,
    pub number: u64,
}

/// A document conforms to the expected schema when it is a JSON object with
/// string fields `id` and `name` and an unsigned-integer field `number`.
pub open spec fn doc_conforms(v: serde_json::Value) -> bool {
    &&& obj_str_fields(v).dom().contains("id"@)
    &&& obj_str_fields(v).dom().contains("name"@)
    &&& obj_u64_fields(v).dom().contains("number"@)
}

/// The typed value `g` carries exactly the fields of the document `v`.
pub open spec fn guardian_matches_doc(g: GuardianCrossword, v: serde_json::Value) -> bool {
    &&& g.id@ == obj_str_fields(v)["id"@]
    &&& g.name@ == obj_str_fields(v)["name"@]
    &&& g.number == obj_u64_fields(v)["number"@]
}

/// Parses a stored document into its typed shape.
///
/// Succeeds exactly on documents that conform to the schema, and then returns
/// the document's own fields; a document that does not conform is a
/// server-side data problem and is reported as an internal error.
pub fn parse_guardian_crossword(v: &serde_json::Value) -> (r: Result<
    GuardianCrossword,
    AppError,
>)
    ensures
        r is Ok <==> doc_conforms(*v),
        r matches Ok(g) ==> guardian_matches_doc(g, *v),
        r matches Err(e) ==> e is InternalServerError,
{
    let id = match get_str_field(v, "id") {
        Some(s) => s,
        None => {
            return Err(AppError::InternalServerError(schema_error_message()));
        },
    };
    let name = match get_str_field(v, "name") {
        Some(s) => s,
        None => {
            return Err(AppError::InternalServerError(schema_error_message()));
        },
    };
    let number = match get_u64_field(v, "number") {
        Some(n) => n,
        None => {
            return Err(AppError::InternalServerError(schema_error_message()));
        },
    };
    Ok(GuardianCrossword { id, name, number })
}

/// The diagnostic text used when a stored document does not deserialize into
/// the expected shape.
fn schema_error_message() -> String {
    "stored crossword document does not match the expected schema".to_owned()
}

} // verus!
