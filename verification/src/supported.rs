//! The fixed, read-only set of device identifiers a server instance can
//! serve.  Configured once at startup and handed to the negotiation
//! handler as an explicit capability, so a deployment can swap the device
//! list without touching negotiation logic.

use vstd::prelude::*;
use vstd::string::{StrSliceExecFns, StringSliceAdditionalSpecFns};
use crate::messages::{bytes_eq, ids_view};

verus! {

/// The read-only set of supported device identifiers.
pub struct SupportedDeviceSet {
    devices: Vec<Vec<u8>>,
}

impl View for SupportedDeviceSet {
    type V = Set<Seq<u8>>;

    closed spec fn view(&self) -> Set<Seq<u8>> {
        ids_view(self.devices@).to_set()
    }
}

impl SupportedDeviceSet {
    /// A set holding exactly the given identifiers.
    pub fn new(devices: Vec<Vec<u8>>) -> (r: SupportedDeviceSet)
        ensures
            r@ == ids_view(devices@).to_set(),
    {
        SupportedDeviceSet { devices }
    }

    /// The capability check: is `device` one this server can serve?
    pub fn is_supported(&self, device: &[u8]) -> (r: bool)
        ensures
            r == self@.contains(device@),
    {
        let ghost ids = ids_view(self.devices@);
        let n = self.devices.len();
        let mut i: usize = 0;
        while i < n
            invariant
                ids == ids_view(self.devices@),
                n == self.devices@.len(),
                i <= n,
                forall|j: int| 0 <= j < i ==> ids[j] != device@,
            decreases n - i,
        {
            if bytes_eq(self.devices[i].as_slice(), device) {
                proof {
                    assert(ids[i as int] == device@);
                    assert(ids.contains(device@));
                }
                return true;
            }
            i += 1;
        }
        proof {
            assert(!ids.contains(device@));
        }
        false
    }
}

/// The device list this service ships with.
pub fn standard_devices() -> (r: SupportedDeviceSet)
    ensures
        r@ == standard_device_ids().to_set(),
{
    let mut v: Vec<Vec<u8>> = Vec::new();
    v.push(("venus").as_bytes_vec());
    v.push(("sunny").as_bytes_vec());
    v.push(("curtana").as_bytes_vec());
    v.push(("alioth").as_bytes_vec());
    v.push(("lemonadep").as_bytes_vec());
    v.push(("oriole").as_bytes_vec());
    v.push(("raven").as_bytes_vec());
    v.push(("sake").as_bytes_vec());
    proof {
        assert(ids_view(v@) =~= standard_device_ids());
    }
    SupportedDeviceSet { devices: v }
}

/// The identifiers of the devices this service ships with.
pub open spec fn standard_device_ids() -> Seq<Seq<u8>> {
    seq![
        ("venus").spec_bytes(),
        ("sunny").spec_bytes(),
        ("curtana").spec_bytes(),
        ("alioth").spec_bytes(),
        ("lemonadep").spec_bytes(),
        ("oriole").spec_bytes(),
        ("raven").spec_bytes(),
        ("sake").spec_bytes(),
    ]
}

} // verus!
