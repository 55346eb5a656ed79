//! Negotiation handler: decode the caller's device identity, pick the
//! first supported candidate, look up its current build, and answer with
//! the encoded update metadata — or with a well-defined error.

use vstd::prelude::*;
use vstd::slice::slice_to_vec;
use crate::codec;
use crate::codec::{identity_parse, metadata_bytes};
use crate::messages::{
    ids_view,
    AbConfig,
    AbInstallType,
    BuildSummary,
    InstallConfig,
    OtaType,
    ServiceError,
    UpdateMetadataMessage,
    UpdateSummary,
};
use crate::registry::BuildRegistry;
use crate::supported::SupportedDeviceSet;

verus! {

/// The first candidate, in the order given, that is a supported device;
/// `None` when no candidate is.
pub open spec fn select_device(cands: Seq<Seq<u8>>, sup: Set<Seq<u8>>) -> Option<Seq<u8>>
    decreases cands.len(),
{
    if cands.len() == 0 {
        None
    } else if sup.contains(cands[0]) {
        Some(cands[0])
    } else {
        select_device(cands.skip(1), sup)
    }
}

/// The response for one published build: the three sourced fields plus
/// the fixed policy defaults — dual-partition, non-streaming, no slot
/// switch, no wipe, no changelog.
pub open spec fn response_summary(b: BuildSummary) -> UpdateSummary {
    UpdateSummary {
        name: b.filename,
        url: b.url,
        changelog_url: Seq::empty(),
        size_bytes: b.size,
        ota_type: OtaType::DualPartition,
        ab_install_type: AbInstallType::NonStreaming,
        ab_config: AbConfig { force_switch_slot: false },
        install_config: InstallConfig { wipe: false, retrofit_dynamic_partitions: false },
    }
}

/// What a whole negotiation returns, as a function of the raw request
/// bytes, the supported set, and the registry contents.
pub open spec fn negotiate_spec(
    bytes: Seq<u8>,
    sup: Set<Seq<u8>>,
    reg: Map<Seq<u8>, BuildSummary>,
) -> Result<Seq<u8>, ServiceError> {
    match identity_parse(bytes) {
        None => Err(ServiceError::MalformedWirePayload),
        Some(ids) => match select_device(ids, sup) {
            None => Err(ServiceError::NoSupportedDevice),
            Some(d) => if reg.contains_key(d) {
                Ok(metadata_bytes(response_summary(reg[d])))
            } else {
                Err(ServiceError::BuildNotFound)
            },
        },
    }
}

/// Builds the update metadata response for `device` from its registry
/// entry: policy defaults plus the record's name, url and size.  Fails
/// with `BuildNotFound` when the device has no published build.
pub fn build_response_proto(reg: &BuildRegistry, device: &[u8]) -> (r: Result<
    UpdateMetadataMessage,
    ServiceError,
>)
    requires
        reg.wf(),
    ensures
        match r {
            Ok(m) => {
                &&& reg@.contains_key(device@)
                &&& m@ == response_summary(reg@[device@])
                &&& m.wf()
            },
            Err(e) => !reg@.contains_key(device@) && e == ServiceError::BuildNotFound,
        },
{
    match reg.lookup(device) {
        Err(_) => Err(ServiceError::BuildNotFound),
        Ok(b) => Ok(
            UpdateMetadataMessage {
                name: slice_to_vec(b.filename.as_slice()),
                url: slice_to_vec(b.url.as_slice()),
                changelog_url: Vec::new(),
                size_bytes: b.size,
                ota_type: OtaType::DualPartition,
                ab_install_type: AbInstallType::NonStreaming,
                ab_config: AbConfig { force_switch_slot: false },
                install_config: InstallConfig { wipe: false, retrofit_dynamic_partitions: false },
            },
        ),
    }
}

/// The chosen device of `cands[i..]`, as `select_device` picks it.
fn select_from(cands: &Vec<Vec<u8>>, i: usize, sup: &SupportedDeviceSet) -> (r: Option<Vec<u8>>)
    requires
        i <= cands@.len(),
    ensures
        match r {
            Some(d) => select_device(ids_view(cands@).skip(i as int), sup@)
                == Some(d@),
            None => select_device(ids_view(cands@).skip(i as int), sup@)
                is None,
        },
    decreases cands@.len() - i,
{
    let ghost ids = ids_view(cands@);
    if i == cands.len() {
        None
    } else {
        assert(ids.skip(i as int)[0] == ids[i as int]);
        if sup.is_supported(cands[i].as_slice()) {
            Some(slice_to_vec(cands[i].as_slice()))
        } else {
            assert(ids.skip(i as int).skip(1) =~= ids.skip(i as int + 1));
            select_from(cands, i + 1, sup)
        }
    }
}

/// One whole negotiation, a single synchronous read-compute-respond
/// operation: decode the identity message, choose the first supported
/// candidate, read its build, encode the response.  Exactly one of the
/// four outcomes of `negotiate_spec` comes back; no input panics.
pub fn handle_ota_request(reg: &BuildRegistry, sup: &SupportedDeviceSet, bytes: &[u8]) -> (r:
    Result<Vec<u8>, ServiceError>)
    requires
        reg.wf(),
    ensures
        match r {
            Ok(out) => negotiate_spec(bytes@, sup@, reg@) == Ok::<Seq<u8>, ServiceError>(out@),
            Err(e) => negotiate_spec(bytes@, sup@, reg@) == Err::<Seq<u8>, ServiceError>(e),
        },
{
    let msg = match codec::decode_identity(bytes) {
        Err(e) => {
            return Err(e);
        },
        Ok(m) => m,
    };
    let chosen = match select_from(&msg.devices, 0, sup) {
        None => {
            proof {
                assert(ids_view(msg.devices@).skip(0) =~= msg@);
            }
            return Err(ServiceError::NoSupportedDevice);
        },
        Some(d) => {
            proof {
                assert(ids_view(msg.devices@).skip(0) =~= msg@);
            }
            d
        },
    };
    match build_response_proto(reg, chosen.as_slice()) {
        Err(e) => Err(e),
        Ok(m) => Ok(codec::encode_metadata(&m)),
    }
}

} // verus!
