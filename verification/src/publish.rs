//! Publish path of the negotiation handler: validate a caller-supplied
//! JSON payload describing one build and upsert it into the registry.
//!
//! JSON tokenization is outside infrastructure (serde_json, behind trusted
//! wrappers).  What each wrapper extracts is deterministic — a function of
//! the payload text and the key alone — so it bears a name
//! (`str_field_of`, `i64_field_of`), and the publish contract is exact
//! over those names: a payload whose named fields are all present with a
//! non-negative size is recorded, any other is fully rejected and leaves
//! the registry exactly as it was.

use vstd::prelude::*;
use vstd::slice::slice_to_vec;
use crate::messages::{BuildMetadata, BuildSummary, ServiceError};
use crate::registry::BuildRegistry;

verus! {

/// What the JSON layer extracts for a string field of a publish payload:
/// the text under `key`, as bytes, when `doc` is a JSON object whose
/// `key` holds a string; nothing otherwise.  A function of the two texts
/// alone; serde_json computes it.
pub uninterp spec fn str_field_of(doc: Seq<char>, key: Seq<char>) -> Option<Seq<u8>>;

/// What the JSON layer extracts for an integer field of a publish
/// payload: the value under `key` when `doc` is a JSON object whose
/// `key` holds an integer representable in 64 signed bits; nothing
/// otherwise.  A function of the two texts alone; serde_json computes it.
pub uninterp spec fn i64_field_of(doc: Seq<char>, key: Seq<char>) -> Option<i64>;

/// View of an optionally extracted byte-string field.
pub open spec fn opt_bytes_view(o: Option<Vec<u8>>) -> Option<Seq<u8>> {
    match o {
        Some(v) => Some(v@),
        None => None,
    }
}

/// Relies on serde_json::from_str, Value::get and Value::as_str: the
/// string under `key` of the JSON object `payload`, as bytes — `None`
/// when the payload is not JSON, not an object, misses the key, or holds
/// a non-string there.
#[verifier::external_body]
fn extract_str_field(payload: &str, key: &str) -> (r: Option<Vec<u8>>)
    ensures
        opt_bytes_view(r) == str_field_of(payload@, key@),
{
    let doc: serde_json::Value = match serde_json::from_str(payload) {
        Ok(v) => v,
        Err(_) => return None,
    };
    match doc.get(key) {
        Some(f) => match f.as_str() {
            Some(s) => Some(s.as_bytes().to_vec()),
            None => None,
        },
        None => None,
    }
}

/// Relies on serde_json::from_str, Value::get and Value::as_i64: the
/// integer under `key` of the JSON object `payload` — `None` when the
/// payload is not JSON, not an object, misses the key, or holds anything
/// but an integer that fits in 64 signed bits there.
#[verifier::external_body]
fn extract_i64_field(payload: &str, key: &str) -> (r: Option<i64>)
    ensures
        r == i64_field_of(payload@, key@),
{
    let doc: serde_json::Value = match serde_json::from_str(payload) {
        Ok(v) => v,
        Err(_) => return None,
    };
    match doc.get(key) {
        Some(f) => f.as_i64(),
        None => None,
    }
}

/// The record that a set of extracted payload fields validates to: all
/// four fields must be present with the right types and the size must be
/// non-negative, else the payload is malformed.
pub open spec fn validated_build(
    device: Option<Seq<u8>>,
    filename: Option<Seq<u8>>,
    url: Option<Seq<u8>>,
    size: Option<i64>,
) -> Result<BuildSummary, ServiceError> {
    match (device, filename, url, size) {
        (Some(d), Some(f), Some(u), Some(s)) => if s >= 0 {
            Ok(BuildSummary { device: d, filename: f, url: u, size: s })
        } else {
            Err(ServiceError::MalformedPublishPayload)
        },
        _ => Err(ServiceError::MalformedPublishPayload),
    }
}

/// What a whole publish returns, as a function of the payload text: the
/// record its named fields validate to, or the failure indicator.
pub open spec fn publish_outcome(payload: Seq<char>) -> Result<BuildSummary, ServiceError> {
    validated_build(
        str_field_of(payload, "device"@),
        str_field_of(payload, "filename"@),
        str_field_of(payload, "url"@),
        i64_field_of(payload, "size"@),
    )
}

/// Structural validation of a publish payload, given its four fields as
/// the JSON layer extracted them (`None` for a field that is missing or
/// has the wrong type).  Exact: succeeds if and only if `validated_build`
/// does, with that record.
pub fn validate_build_payload(
    device: Option<Vec<u8>>,
    filename: Option<Vec<u8>>,
    url: Option<Vec<u8>>,
    size: Option<i64>,
) -> (r: Result<BuildMetadata, ServiceError>)
    ensures
        match r {
            Ok(m) => {
                &&& validated_build(
                    opt_bytes_view(device),
                    opt_bytes_view(filename),
                    opt_bytes_view(url),
                    size,
                ) == Ok::<BuildSummary, ServiceError>(m@)
                &&& m.wf()
            },
            Err(e) => validated_build(
                opt_bytes_view(device),
                opt_bytes_view(filename),
                opt_bytes_view(url),
                size,
            ) == Err::<BuildSummary, ServiceError>(e),
        },
{
    match (device, filename, url, size) {
        (Some(d), Some(f), Some(u), Some(s)) => if s >= 0 {
            Ok(BuildMetadata { device: d, filename: f, url: u, size: s })
        } else {
            Err(ServiceError::MalformedPublishPayload)
        },
        _ => Err(ServiceError::MalformedPublishPayload),
    }
}

/// A field-for-field copy of a build record.
pub fn clone_build(m: &BuildMetadata) -> (r: BuildMetadata)
    ensures
        r@ == m@,
{
    BuildMetadata {
        device: slice_to_vec(m.device.as_slice()),
        filename: slice_to_vec(m.filename.as_slice()),
        url: slice_to_vec(m.url.as_slice()),
        size: m.size,
    }
}

/// Publish path: parse `payload` as a JSON object `{device, filename,
/// url, size}`, validate it, and on success record it in the registry,
/// returning the recorded build.  Exact over the named extraction: a
/// payload whose four named fields are all present with a non-negative
/// size is owed success, with exactly that record inserted; any other —
/// a missing field, a wrong type, a negative size, text that is not a
/// JSON object — is fully rejected before any mutation, so the registry
/// is then exactly what it was.
pub fn add_build_to_mapping(reg: &mut BuildRegistry, payload: &str) -> (r: Result<
    BuildMetadata,
    ServiceError,
>)
    requires
        old(reg).wf(),
    ensures
        final(reg).wf(),
        match r {
            Ok(m) => {
                &&& publish_outcome(payload@) == Ok::<BuildSummary, ServiceError>(m@)
                &&& m.wf()
                &&& final(reg)@ == old(reg)@.insert(m@.device, m@)
            },
            Err(e) => {
                &&& publish_outcome(payload@) == Err::<BuildSummary, ServiceError>(e)
                &&& final(reg)@ == old(reg)@
            },
        },
{
    let device = extract_str_field(payload, "device");
    let filename = extract_str_field(payload, "filename");
    let url = extract_str_field(payload, "url");
    let size = extract_i64_field(payload, "size");
    match validate_build_payload(device, filename, url, size) {
        Err(e) => Err(e),
        Ok(m) => {
            let recorded = clone_build(&m);
            reg.publish(m);
            Ok(recorded)
        },
    }
}

} // verus!
