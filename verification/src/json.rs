//! Trusted boundary to the JSON value and JSON-schema crates.
//!
//! A `serde_json::Value` carries payloads and schemas through the runtime; a
//! `jsonschema::Validator` is the compiled form of a provider's schema.  Both
//! types are opaque here: the contracts below name what the outside calls
//! compute and the registry's verified logic is stated over those names.

use vstd::prelude::*;

verus! {

#[verifier::external_type_specification]
#[verifier::external_body]
pub struct ExValue(serde_json::Value);

/// A compiled JSON-schema validator.
///
/// Holds a `jsonschema::Validator`.  That type's generic parameter is bound
/// by a trait of the schema crate, which cannot be declared here, so the
/// whole struct is opaque and is driven through the trusted functions below.
#[verifier::external_body]
pub struct CompiledSchema {
    inner: jsonschema::Validator,
}

/// Whether a JSON value is `null`.
pub uninterp spec fn value_is_null(v: serde_json::Value) -> bool;

/// Whether a JSON value is the object with no members, `{}`.
pub uninterp spec fn value_is_empty_object(v: serde_json::Value) -> bool;

/// The JSON value a byte sequence parses to, or `None` when the bytes are not
/// well-formed JSON.
pub uninterp spec fn parsed_json(bytes: Seq<u8>) -> Option<serde_json::Value>;

/// The document a compiled validator was built from.
pub uninterp spec fn validator_schema(v: CompiledSchema) -> serde_json::Value;

/// Whether an instance satisfies a compiled validator.  Acceptance is a
/// function of the validator value, not of its source document: compiling
/// resolves any external references the document makes, so two validators
/// built from one document need not agree, but one compiled validator
/// always decides the same instances the same way.
pub uninterp spec fn validator_accepts(v: CompiledSchema, instance: serde_json::Value) -> bool;

/// A schema that carries no constraint: `null` or the empty object.  The
/// registry compiles a validator only for schemas outside this set.
pub open spec fn trivial_schema(v: serde_json::Value) -> bool {
    value_is_null(v) || value_is_empty_object(v)
}

/// Relies on `serde_json::Value::is_null`: reports whether the value is
/// `null`; the answer depends on the value alone.
#[verifier::external_body]
pub fn json_is_null(v: &serde_json::Value) -> (r: bool)
    ensures
        r == value_is_null(*v),
{
    v.is_null()
}

/// Relies on `serde_json::Value::as_object` and `serde_json::Map::is_empty`:
/// reports whether the value is an object with no members.
#[verifier::external_body]
pub fn json_is_empty_object(v: &serde_json::Value) -> (r: bool)
    ensures
        r == value_is_empty_object(*v),
{
    match v.as_object() {
        Some(m) => m.is_empty(),
        None => false,
    }
}

/// Relies on `serde_json::Value::Object` and `serde_json::Map::new`: builds
/// the empty JSON object, `{}`.
#[verifier::external_body]
pub fn json_empty_object() -> (v: serde_json::Value)
    ensures
        value_is_empty_object(v),
        !value_is_null(v),
{
    serde_json::Value::Object(serde_json::Map::new())
}

/// Relies on `serde_json::Value::clone`: the copy is the same JSON value.
pub assume_specification[ <serde_json::Value as Clone>::clone ](v: &serde_json::Value) -> (r:
    serde_json::Value)
    ensures
        r == *v,
;

/// Relies on `serde_json::from_slice`: parses bytes as JSON; the outcome
/// depends on the bytes alone.
#[verifier::external_body]
pub fn json_parse_bytes(bytes: &[u8]) -> (r: Option<serde_json::Value>)
    ensures
        r == parsed_json(bytes@),
{
    serde_json::from_slice(bytes).ok()
}

/// Relies on `jsonschema::Validator::new`: compiles a schema document; on
/// success the validator's source document is exactly the one given, and on
/// failure the compiler's own message is handed back.  Whether compilation
/// succeeds is promised of no document: resolving a document's external
/// references may consult the network or the disk, so two attempts on one
/// document can end differently.
#[verifier::external_body]
pub fn compile_schema(schema: &serde_json::Value) -> (r: Result<CompiledSchema, String>)
    ensures
        r matches Ok(v) ==> validator_schema(v) == *schema,
{
    match jsonschema::Validator::new(schema) {
        Ok(v) => Ok(CompiledSchema { inner: v }),
        Err(e) => Err(format!("{}", e)),
    }
}

/// Relies on `jsonschema::Validator::iter_errors`: yields one entry per
/// schema violation, annotated with the offending instance path; the list is
/// empty exactly when the instance satisfies the compiled validator.
/// References were resolved at compilation, so validation itself walks only
/// the compiled tree and its outcome depends on the validator value and the
/// instance alone.
#[verifier::external_body]
pub fn validator_errors(v: &CompiledSchema, instance: &serde_json::Value) -> (errs: Vec<
    String,
>)
    ensures
        (errs@.len() == 0) == validator_accepts(*v, *instance),
{
    v.inner.iter_errors(instance).map(|e| format!("{}: {}", e.instance_path(), e)).collect()
}

} // verus!
