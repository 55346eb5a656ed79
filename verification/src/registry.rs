//! Build registry: the in-memory store that maps each device identifier
//! to its most recently published build.
//!
//! The registry holds at most one entry per device at any time; a publish
//! for a device that already has an entry atomically replaces the whole
//! record (last write wins, no merge).  It is created empty, entries are
//! never deleted, and a caller that wants to share one instance across
//! worker threads guards it with a single mutual-exclusion lock.

use vstd::prelude::*;
use crate::messages::{bytes_eq, BuildMetadata, BuildSummary, ServiceError};

verus! {

/// `s` holds at most one entry per device identifier.
pub open spec fn unique_devices(s: Seq<BuildMetadata>) -> bool {
    forall|i: int, j: int|
        #![trigger s[i], s[j]]
        0 <= i < j < s.len() ==> s[i].device@ != s[j].device@
}

/// The mapping that a sequence of records represents: each device to its
/// record, later records overriding earlier ones.
pub open spec fn entries_map(s: Seq<BuildMetadata>) -> Map<Seq<u8>, BuildSummary>
    decreases s.len(),
{
    if s.len() == 0 {
        Map::empty()
    } else {
        entries_map(s.drop_last()).insert(s.last().device@, s.last()@)
    }
}

/// The store of published builds, one live entry per device.
pub struct BuildRegistry {
    entries: Vec<BuildMetadata>,
}

impl View for BuildRegistry {
    type V = Map<Seq<u8>, BuildSummary>;

    closed spec fn view(&self) -> Map<Seq<u8>, BuildSummary> {
        entries_map(self.entries@)
    }
}

impl BuildRegistry {
    /// Internal invariant: no device occurs twice, and every stored
    /// record is well formed.
    pub closed spec fn wf(self) -> bool {
        &&& unique_devices(self.entries@)
        &&& forall|i: int| 0 <= i < self.entries@.len() ==> (#[trigger] self.entries@[i]).wf()
    }

    /// A registry starts empty.
    pub fn new() -> (r: BuildRegistry)
        ensures
            r.wf(),
            r@ == Map::<Seq<u8>, BuildSummary>::empty(),
    {
        BuildRegistry { entries: Vec::new() }
    }

    /// Upsert: records `m` as the one current build of its device,
    /// discarding any prior entry for that device and touching no other
    /// device's entry.  Always succeeds on a well-formed record.
    pub fn publish(&mut self, m: BuildMetadata)
        requires
            old(self).wf(),
            m.wf(),
        ensures
            final(self).wf(),
            final(self)@ == old(self)@.insert(m@.device, m@),
    {
        let ghost s0 = self.entries@;
        let n = self.entries.len();
        let mut i: usize = 0;
        while i < n
            invariant
                self.entries@ == s0,
                s0 == old(self).entries@,
                n == s0.len(),
                i <= n,
                unique_devices(s0),
                forall|j: int| 0 <= j < s0.len() ==> (#[trigger] s0[j]).wf(),
                m.wf(),
                forall|j: int| 0 <= j < i ==> (#[trigger] s0[j]).device@ != m.device@,
            decreases n - i,
        {
            if bytes_eq(self.entries[i].device.as_slice(), m.device.as_slice()) {
                proof {
                    assert(s0[i as int].device@ == m.device@);
                }
                self.entries[i] = m;
                proof {
                    lemma_entries_map_update(s0, i as int, m);
                    assert(self.entries@ == s0.update(i as int, m));
                    assert forall|j: int| 0 <= j < self.entries@.len() implies (
                    #[trigger] self.entries@[j]).wf() by {
                        if j != i {
                            assert(self.entries@[j] == s0[j]);
                        }
                    }
                }
                return ;
            }
            i += 1;
        }
        self.entries.push(m);
        proof {
            lemma_entries_map_push(s0, m);
            assert forall|a: int, b: int|
                0 <= a < b < self.entries@.len() implies #[trigger] self.entries@[a].device@
                != #[trigger] self.entries@[b].device@ by {
                if b == s0.len() {
                    assert(self.entries@[a] == s0[a]);
                }
            }
        }
    }

    /// Read: the current build of `device`, or `NotFound` if that device
    /// has never been published.
    pub fn lookup(&self, device: &[u8]) -> (r: Result<&BuildMetadata, ServiceError>)
        requires
            self.wf(),
        ensures
            match r {
                Ok(b) => {
                    &&& self@.contains_key(device@)
                    &&& b@ == self@[device@]
                    &&& b.wf()
                },
                Err(e) => !self@.contains_key(device@) && e == ServiceError::NotFound,
            },
    {
        let n = self.entries.len();
        let mut i: usize = 0;
        while i < n
            invariant
                self.wf(),
                n == self.entries@.len(),
                i <= n,
                forall|j: int| 0 <= j < i ==> (#[trigger] self.entries@[j]).device@ != device@,
            decreases n - i,
        {
            if bytes_eq(self.entries[i].device.as_slice(), device) {
                proof {
                    lemma_entries_map_get(self.entries@, i as int);
                }
                return Ok(&self.entries[i]);
            }
            i += 1;
        }
        proof {
            lemma_entries_map_absent(self.entries@, device@);
        }
        Err(ServiceError::NotFound)
    }
}

/// In a duplicate-free sequence, the represented mapping takes each
/// record's device to that record.
proof fn lemma_entries_map_get(s: Seq<BuildMetadata>, i: int)
    requires
        unique_devices(s),
        0 <= i < s.len(),
    ensures
        entries_map(s).contains_key(s[i].device@),
        entries_map(s)[s[i].device@] == s[i]@,
    decreases s.len(),
{
    if i < s.len() - 1 {
        assert(unique_devices(s.drop_last()));
        assert(s.drop_last()[i] == s[i]);
        lemma_entries_map_get(s.drop_last(), i);
        assert(s[i].device@ != s.last().device@);
    }
}

/// A device that occurs in no record is absent from the mapping.
proof fn lemma_entries_map_absent(s: Seq<BuildMetadata>, k: Seq<u8>)
    requires
        forall|i: int| 0 <= i < s.len() ==> (#[trigger] s[i]).device@ != k,
    ensures
        !entries_map(s).contains_key(k),
    decreases s.len(),
{
    if s.len() > 0 {
        assert(forall|i: int|
            0 <= i < s.drop_last().len() ==> (#[trigger] s.drop_last()[i]).device@ != k);
        lemma_entries_map_absent(s.drop_last(), k);
    }
}

/// Replacing the record at a device's index replaces just that device's
/// image in the mapping.
proof fn lemma_entries_map_update(s: Seq<BuildMetadata>, i: int, m: BuildMetadata)
    requires
        unique_devices(s),
        0 <= i < s.len(),
        s[i].device@ == m.device@,
    ensures
        entries_map(s.update(i, m)) == entries_map(s).insert(m.device@, m@),
        unique_devices(s.update(i, m)),
    decreases s.len(),
{
    let t = s.update(i, m);
    assert forall|a: int, b: int| #![trigger t[a], t[b]] 0 <= a < b < t.len() implies t[a].device@
        != t[b].device@ by {
        assert(s[a].device@ != s[b].device@);
    }
    if i == s.len() - 1 {
        assert(t.drop_last() =~= s.drop_last());
        assert(t.last() == m);
        assert(entries_map(t) == entries_map(s.drop_last()).insert(m.device@, m@));
        assert(entries_map(s.drop_last()).insert(s.last().device@, s.last()@).insert(
            m.device@,
            m@,
        ) =~= entries_map(s.drop_last()).insert(m.device@, m@));
    } else {
        assert(t.drop_last() =~= s.drop_last().update(i, m));
        assert(t.last() == s.last());
        assert(unique_devices(s.drop_last()));
        assert(s.drop_last()[i] == s[i]);
        lemma_entries_map_update(s.drop_last(), i, m);
        assert(s[i].device@ != s.last().device@);
        assert(entries_map(s.drop_last()).insert(m.device@, m@).insert(
            s.last().device@,
            s.last()@,
        ) =~= entries_map(s.drop_last()).insert(s.last().device@, s.last()@).insert(
            m.device@,
            m@,
        ));
    }
}

/// Appending a record for a fresh or existing device inserts it into the
/// mapping.
proof fn lemma_entries_map_push(s: Seq<BuildMetadata>, m: BuildMetadata)
    ensures
        entries_map(s.push(m)) == entries_map(s).insert(m.device@, m@),
{
    assert(s.push(m).drop_last() =~= s);
    assert(s.push(m).last() == m);
}

/// Law (upsert idempotence): publishing `v1` then `v2` for one device
/// leaves the registry exactly as if `v2` alone had been published last —
/// a lookup of that device yields `v2`, and, the store being a map, it
/// never holds two entries for one device.
pub proof fn lemma_upsert_last_write_wins(
    reg: Map<Seq<u8>, BuildSummary>,
    d: Seq<u8>,
    v1: BuildSummary,
    v2: BuildSummary,
)
    ensures
        reg.insert(d, v1).insert(d, v2) == reg.insert(d, v2),
        reg.insert(d, v1).insert(d, v2)[d] == v2,
{
    assert(reg.insert(d, v1).insert(d, v2) =~= reg.insert(d, v2));
}

/// Law (cross-device isolation): publishes for two distinct devices
/// commute, and neither is lost — whichever order they are serialized in,
/// each device ends up mapped to its own record.
pub proof fn lemma_publish_isolation(
    reg: Map<Seq<u8>, BuildSummary>,
    d1: Seq<u8>,
    v1: BuildSummary,
    d2: Seq<u8>,
    v2: BuildSummary,
)
    requires
        d1 != d2,
    ensures
        reg.insert(d1, v1).insert(d2, v2) == reg.insert(d2, v2).insert(d1, v1),
        reg.insert(d1, v1).insert(d2, v2)[d1] == v1,
        reg.insert(d1, v1).insert(d2, v2)[d2] == v2,
{
    assert(reg.insert(d1, v1).insert(d2, v2) =~= reg.insert(d2, v2).insert(d1, v1));
}

} // verus!
