//! Data model: build records, the two wire message shapes, and the error
//! taxonomy shared by the registry and the negotiation handler.

use vstd::prelude::*;

verus! {

/// Every way a publish or negotiation request can fail.  Each failure is
/// local to the request that triggered it; none corrupts registry state.
#[derive(Clone, Copy, Debug, PartialEq, Eq, Structural)]
pub enum ServiceError {
    /// A publish payload failed structural or type validation.
    MalformedPublishPayload,
    /// A negotiation payload failed to decode as a device identity message.
    MalformedWirePayload,
    /// No candidate device in a negotiation request is supported.
    NoSupportedDevice,
    /// The chosen device is supported but has no published build.
    BuildNotFound,
    /// A registry lookup found no entry for the requested device.
    NotFound,
}

/// Mathematical content of a `BuildMetadata` record.
pub ghost struct BuildSummary {
    pub device: Seq<u8>,
    pub filename: Seq<u8>,
    pub url: Seq<u8>,
    pub size: i64,
}

/// One published build for one device.  Immutable once constructed: a
/// republish replaces the whole record, never a single field.
///
/// Identifier and text fields are byte strings, exactly as they travel on
/// the wire and key the registry.
#[derive(Debug, PartialEq)]
pub struct BuildMetadata {
    pub device: Vec<u8>,
    pub filename: Vec<u8>,
    pub url: Vec<u8>,
    pub size: i64,
}

impl View for BuildMetadata {
    type V = BuildSummary;

    open spec fn view(&self) -> BuildSummary {
        BuildSummary {
            device: self.device@,
            filename: self.filename@,
            url: self.url@,
            size: self.size,
        }
    }
}

impl BuildMetadata {
    /// A record is well formed when its size is a byte count, i.e. non-negative.
    pub open spec fn wf(self) -> bool {
        self.size >= 0
    }
}

/// Partition scheme of an update.
#[derive(Clone, Copy, Debug, PartialEq, Eq, Structural)]
pub enum OtaType {
    /// The update is installed over the single live partition.
    SinglePartition,
    /// Dual-partition (A/B): two slots, the inactive one is written.
    DualPartition,
}

/// Whether an update installs while downloading or only once complete.
#[derive(Clone, Copy, Debug, PartialEq, Eq, Structural)]
pub enum AbInstallType {
    Streaming,
    NonStreaming,
}

/// A/B slot policy of an update.
#[derive(Clone, Copy, Debug, PartialEq, Eq, Structural)]
pub struct AbConfig {
    pub force_switch_slot: bool,
}

/// Wipe and partition-layout policy of an update.
#[derive(Clone, Copy, Debug, PartialEq, Eq, Structural)]
pub struct InstallConfig {
    pub wipe: bool,
    pub retrofit_dynamic_partitions: bool,
}

/// Mathematical content of an `UpdateMetadataMessage`.
pub ghost struct UpdateSummary {
    pub name: Seq<u8>,
    pub url: Seq<u8>,
    pub changelog_url: Seq<u8>,
    pub size_bytes: i64,
    pub ota_type: OtaType,
    pub ab_install_type: AbInstallType,
    pub ab_config: AbConfig,
    pub install_config: InstallConfig,
}

/// Outbound wire entity: the response describing the current installable
/// build for one device.  Derived on demand from a `BuildMetadata` plus
/// fixed policy defaults, never stored.
#[derive(Debug, PartialEq)]
pub struct UpdateMetadataMessage {
    pub name: Vec<u8>,
    pub url: Vec<u8>,
    pub changelog_url: Vec<u8>,
    pub size_bytes: i64,
    pub ota_type: OtaType,
    pub ab_install_type: AbInstallType,
    pub ab_config: AbConfig,
    pub install_config: InstallConfig,
}

impl View for UpdateMetadataMessage {
    type V = UpdateSummary;

    open spec fn view(&self) -> UpdateSummary {
        UpdateSummary {
            name: self.name@,
            url: self.url@,
            changelog_url: self.changelog_url@,
            size_bytes: self.size_bytes,
            ota_type: self.ota_type,
            ab_install_type: self.ab_install_type,
            ab_config: self.ab_config,
            install_config: self.install_config,
        }
    }
}

impl UpdateMetadataMessage {
    /// Well formed when its size is a byte count, i.e. non-negative.
    pub open spec fn wf(self) -> bool {
        self.size_bytes >= 0
    }
}

/// The views of a sequence of byte vectors, in order.
pub open spec fn ids_view(v: Seq<Vec<u8>>) -> Seq<Seq<u8>> {
    Seq::new(v.len(), |i: int| v[i]@)
}

/// Byte-string equality.
pub fn bytes_eq(a: &[u8], b: &[u8]) -> (r: bool)
    ensures
        r == (a@ == b@),
{
    if a.len() != b.len() {
        return false;
    }
    let mut i: usize = 0;
    while i < a.len()
        invariant
            a@.len() == b@.len(),
            i <= a@.len(),
            forall|j: int| 0 <= j < i ==> a@[j] == b@[j],
        decreases a@.len() - i,
    {
        if a[i] != b[i] {
            return false;
        }
        i += 1;
    }
    proof {
        assert(a@ =~= b@);
    }
    true
}

/// Inbound wire entity: the ordered list of device identifiers a caller
/// reports, most preferred first.  Duplicates and an empty list are legal.
#[derive(Debug, PartialEq)]
pub struct DeviceIdentityMessage {
    pub devices: Vec<Vec<u8>>,
}

impl View for DeviceIdentityMessage {
    type V = Seq<Seq<u8>>;

    open spec fn view(&self) -> Seq<Seq<u8>> {
        ids_view(self.devices@)
    }
}

} // verus!
