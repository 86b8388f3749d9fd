//! Request validation: the request body must be JSON that a JSON Schema
//! accepts.

use vstd::prelude::*;
use crate::config::ConfigError;
use crate::text::{contains_text, contains_text_exec};

verus! {

#[verifier::external_type_specification]
#[verifier::external_body]
pub struct ExJsonSchema(jsonschema::JSONSchema);

/// The text is JSON that compiles as a JSON Schema.
pub uninterp spec fn schema_compiles(schema: Seq<char>) -> bool;

/// The body is JSON that the schema compiled from `schema` accepts.
pub uninterp spec fn schema_valid_for(schema: Seq<char>, body: Seq<u8>) -> bool;

/// The schema text may hold a `$ref`, written plainly or through a `\u`
/// escape (the only ways JSON text can spell that key). Such schemas are
/// refused: jsonschema resolves a `$ref` at validation time without a cycle
/// check, so a reference to itself would recurse without end.
pub open spec fn may_reference(schema: Seq<char>) -> bool {
    contains_text(schema, "$ref"@) || contains_text(schema, "\\u"@)
}

/// A compiled schema together with the text it was compiled from. Its
/// fields are private: `compile_schema` is the only way to make one.
pub struct CompiledSchema {
    source: String,
    schema: jsonschema::JSONSchema,
}

impl CompiledSchema {
    /// The text the schema was compiled from.
    pub closed spec fn source(&self) -> Seq<char> {
        self.source@
    }
}

/// Relies on serde_json::from_str, which reads the text as a JSON value,
/// and jsonschema::JSONSchema::compile: a schema exactly when both succeed.
/// Without a `$ref`, compiling resolves nothing remote.
#[verifier::external_body]
fn compile_schema(text: &String) -> (r: Option<CompiledSchema>)
    requires
        !may_reference(text@),
    ensures
        match r {
            Some(c) => schema_compiles(text@) && c.source() == text@,
            None => !schema_compiles(text@),
        },
{
    serde_json::from_str::<serde_json::Value>(text)
        .ok()
        .and_then(|v| jsonschema::JSONSchema::compile(&v).ok())
        .map(|schema| CompiledSchema { source: text.clone(), schema })
}

/// Relies on serde_json::from_slice, which reads the body as a JSON value,
/// and jsonschema::JSONSchema::is_valid on the schema compiled from the
/// source: true exactly when the body is JSON that the schema accepts. A
/// schema without `$ref` is a finite tree of validators, so validation
/// ends.
#[verifier::external_body]
fn body_accepted(c: &CompiledSchema, body: &[u8]) -> (r: bool)
    requires
        !may_reference(c.source()),
    ensures
        r == schema_valid_for(c.source(), body@),
{
    serde_json::from_slice::<serde_json::Value>(body).map(|v| c.schema.is_valid(&v)).unwrap_or(false)
}

/// The status of a rejected request.
pub const REJECTED_STATUS: u16 = 502;

/// The request-validation plugin; its schema holds no `$ref`.
pub struct RequestValidation {
    schema: CompiledSchema,
}

/// What to answer, given whether the schema accepted the body: `None` lets
/// the request go on.
pub fn validation_outcome(accepted: bool) -> (r: Option<u16>)
    ensures
        r == if accepted { None } else { Some(REJECTED_STATUS) },
{
    if accepted { None } else { Some(REJECTED_STATUS) }
}

impl RequestValidation {
    #[verifier::type_invariant]
    spec fn inv(&self) -> bool {
        !may_reference(self.schema.source())
    }

    /// The text of the schema.
    pub closed spec fn source(&self) -> Seq<char> {
        self.schema.source()
    }

    /// Compiles the schema, given as JSON text; a schema that may hold a
    /// `$ref` is refused.
    pub fn new(schema: &String) -> (r: Result<RequestValidation, ConfigError>)
        ensures
            r is Ok <==> !may_reference(schema@) && schema_compiles(schema@),
            r matches Ok(v) ==> v.source() == schema@,
            r matches Err(e) ==> e == ConfigError::InvalidSchema,
    {
        if contains_text_exec(schema.as_str(), "$ref") || contains_text_exec(schema.as_str(), "\\u") {
            return Err(ConfigError::InvalidSchema);
        }
        match compile_schema(schema) {
            Some(s) => Ok(RequestValidation { schema: s }),
            None => Err(ConfigError::InvalidSchema),
        }
    }

    /// Checks a request body: it goes on exactly when it is JSON that the
    /// schema accepts; otherwise the request is rejected.
    pub fn call(&self, body: &[u8]) -> (r: Option<u16>)
        ensures
            r == if schema_valid_for(self.source(), body@) { None } else { Some(REJECTED_STATUS) },
    {
        proof {
            use_type_invariant(self);
        }
        validation_outcome(body_accepted(&self.schema, body))
    }
}

} // verus!
