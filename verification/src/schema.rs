use vstd::prelude::*;

verus! {

/// Declares `openapiv3::OpenAPI`, the fully parsed root document of the
/// target's API description, so that the run state can own a value of it.
///
/// Relies on the `openapiv3` crate only for the existence of the type: the
/// run state never looks inside the document.  It is parsed and validated
/// before construction and only ever handed out by shared reference.
#[verifier::external_type_specification]
#[verifier::external_body]
pub struct ExOpenApi(openapiv3::OpenAPI);

} // verus!
