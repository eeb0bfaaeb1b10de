//! The decisions of the discovery loop: which visible devices are worth
//! opening, and which opened devices get a worker.
//!
//! Once per interval the caller lists the visible devices, opens those that
//! `matching_devices` picks, and hands the devices that opened to
//! `scan_devices`, which claims their slots. Devices are taken in the order in
//! which they were listed: of several devices with one identity the first
//! claims the slot and the others are passed over.

use vstd::prelude::*;

use crate::active::lemma_claimed;
use crate::active::ActiveDevices;
use crate::device::KeydDeviceInfo;

verus! {

/// Milliseconds between two scans.
pub const SCAN_INTERVAL_MS: u64 = 1000;

/// Whether the numbers of `picks` grow from each entry to the next.
pub open spec fn increasing(picks: Seq<usize>) -> bool {
    forall|a: int, b: int| 0 <= a < b < picks.len() ==> picks[a] < picks[b]
}

/// Whether `x` stands in `devices` before position `i`.
pub open spec fn seen_before(devices: Seq<KeydDeviceInfo>, i: int, x: KeydDeviceInfo) -> bool {
    exists|j: int| 0 <= j < i && j < devices.len() && devices[j] == x
}

/// Whether the device at position `i` of `visible` is one that the scanner
/// looks for.
pub open spec fn matches_at(
    wanted: Seq<KeydDeviceInfo>,
    visible: Seq<KeydDeviceInfo>,
    i: int,
) -> bool {
    0 <= i < visible.len() && wanted.contains(visible[i])
}

/// Whether the device at position `i` of `opened` gets a worker in a scan
/// that starts with the slots `held` taken: the scanner looks for it, its slot
/// is free, and no device before it in this scan has the same identity.
pub open spec fn spawns_at(
    wanted: Seq<KeydDeviceInfo>,
    held: Seq<KeydDeviceInfo>,
    opened: Seq<KeydDeviceInfo>,
    i: int,
) -> bool {
    &&& 0 <= i < opened.len()
    &&& wanted.contains(opened[i])
    &&& !held.contains(opened[i])
    &&& !seen_before(opened, i, opened[i])
}

/// The identities at the positions `picks` of `devices`.
pub open spec fn picked(devices: Seq<KeydDeviceInfo>, picks: Seq<usize>) -> Seq<KeydDeviceInfo> {
    picks.map_values(|i: usize| devices[i as int])
}

/// What stands before position `i + 1` is what stands before position `i`,
/// and the device at position `i`.
pub proof fn lemma_seen_before_next(devices: Seq<KeydDeviceInfo>, i: int)
    requires
        0 <= i < devices.len(),
    ensures
        forall|x: KeydDeviceInfo| #[trigger]
            seen_before(devices, i + 1, x) <==> (seen_before(devices, i, x) || x == devices[i]),
{
    assert forall|x: KeydDeviceInfo| #[trigger]
        seen_before(devices, i + 1, x) <==> (seen_before(devices, i, x) || x == devices[i]) by {
        if seen_before(devices, i + 1, x) {
            let j = choose|j: int| 0 <= j < i + 1 && j < devices.len() && devices[j] == x;
            if j < i {
                assert(seen_before(devices, i, x));
            }
        }
        if seen_before(devices, i, x) {
            let j = choose|j: int| 0 <= j < i && j < devices.len() && devices[j] == x;
            assert(0 <= j < i + 1 && devices[j] == x);
        }
        if x == devices[i] {
            assert(devices[i] == x);
        }
    }
}

/// The first position at which the identity of position `i` stands in
/// `devices`.
pub proof fn lemma_first_occurrence(devices: Seq<KeydDeviceInfo>, i: int) -> (first: int)
    requires
        0 <= i < devices.len(),
    ensures
        0 <= first <= i,
        devices[first] == devices[i],
        !seen_before(devices, first, devices[i]),
    decreases i,
{
    if seen_before(devices, i, devices[i]) {
        let j = choose|j: int| 0 <= j < i && j < devices.len() && devices[j] == devices[i];
        lemma_first_occurrence(devices, j)
    } else {
        i
    }
}

/// A scan that follows another over the same devices starts no worker: every
/// device that the first scan could serve holds its slot by then. `spawned`
/// is what the first scan returned.
pub proof fn lemma_rescan_spawns_nothing(
    wanted: Seq<KeydDeviceInfo>,
    held: Seq<KeydDeviceInfo>,
    opened: Seq<KeydDeviceInfo>,
    spawned: Seq<usize>,
    i: int,
)
    requires
        opened.len() <= usize::MAX,
        forall|k: usize| spawned.contains(k) <==> spawns_at(wanted, held, opened, k as int),
    ensures
        !spawns_at(wanted, held + picked(opened, spawned), opened, i),
{
    let after = held + picked(opened, spawned);
    if 0 <= i < opened.len() && wanted.contains(opened[i]) && !held.contains(opened[i]) {
        let first = lemma_first_occurrence(opened, i);
        assert(spawns_at(wanted, held, opened, first));
        assert(spawned.contains(first as usize));
        let a = choose|a: int| 0 <= a < spawned.len() && spawned[a] == first as usize;
        assert(picked(opened, spawned)[a] == opened[i]);
        assert(after[held.len() + a] == opened[i]);
    } else if 0 <= i < opened.len() && held.contains(opened[i]) {
        let a = choose|a: int| 0 <= a < held.len() && held[a] == opened[i];
        assert(after[a] == opened[i]);
    }
}

/// A device that the scanner does not look for is neither opened nor given a
/// worker, whatever is visible and whatever is held.
pub proof fn lemma_unwanted_never_served(
    wanted: Seq<KeydDeviceInfo>,
    held: Seq<KeydDeviceInfo>,
    devices: Seq<KeydDeviceInfo>,
    i: int,
)
    requires
        0 <= i < devices.len(),
        !wanted.contains(devices[i]),
    ensures
        !matches_at(wanted, devices, i),
        !spawns_at(wanted, held, devices, i),
{
}

/// The discovery loop's view of the world: the identities that it claims.
pub struct Scanner {
    device_list: Vec<KeydDeviceInfo>,
}

impl View for Scanner {
    type V = Seq<KeydDeviceInfo>;

    closed spec fn view(&self) -> Seq<KeydDeviceInfo> {
        self.device_list@
    }
}

impl Scanner {
    /// A scanner that looks for the identities of `device_list`.
    pub fn new(device_list: Vec<KeydDeviceInfo>) -> (scanner: Scanner)
        ensures
            scanner@ == device_list@,
    {
        Scanner { device_list }
    }

    /// Whether the scanner looks for devices with the identity `identity`:
    /// whether all four numbers agree with an entry of its list.
    pub fn is_wanted(&self, identity: KeydDeviceInfo) -> (wanted: bool)
        ensures
            wanted == self@.contains(identity),
    {
        let n: usize = self.device_list.len();
        let mut k: usize = 0;
        while k < n
            invariant
                k <= n,
                n == self.device_list@.len(),
                forall|j: int| 0 <= j < k ==> self.device_list@[j] != identity,
            decreases n - k,
        {
            let entry: KeydDeviceInfo = self.device_list[k];
            if entry.vendor_id == identity.vendor_id && entry.product_id == identity.product_id
                && entry.usage_page == identity.usage_page && entry.usage_id == identity.usage_id {
                return true;
            }
            k += 1;
        }
        false
    }

    /// The positions in `visible` of the devices that are worth opening,
    /// lowest first: exactly those whose identity the scanner looks for.
    pub fn matching_devices(&self, visible: &Vec<KeydDeviceInfo>) -> (picks: Vec<usize>)
        ensures
            increasing(picks@),
            forall|i: usize| picks@.contains(i) <==> matches_at(self@, visible@, i as int),
    {
        let n: usize = visible.len();
        let mut picks: Vec<usize> = Vec::new();
        let mut i: usize = 0;
        while i < n
            invariant
                i <= n,
                n == visible@.len(),
                increasing(picks@),
                forall|a: int| 0 <= a < picks@.len() ==> picks@[a] < i,
                forall|k: usize| picks@.contains(k) <==> (k < i && matches_at(self@, visible@, k as int)),
            decreases n - i,
        {
            if self.is_wanted(visible[i]) {
                let ghost before = picks@;
                picks.push(i);
                proof {
                    assert(picks@[before.len() as int] == i);
                    assert forall|k: usize| picks@.contains(k) <==> (k < i + 1 && matches_at(
                        self@,
                        visible@,
                        k as int,
                    )) by {
                        if picks@.contains(k) {
                            let a = choose|a: int| 0 <= a < picks@.len() && picks@[a] == k;
                            if a < before.len() {
                                assert(before[a] == k);
                                assert(before.contains(k));
                            }
                        }
                        if k < i && matches_at(self@, visible@, k as int) {
                            assert(before.contains(k));
                            let a = choose|a: int| 0 <= a < before.len() && before[a] == k;
                            assert(picks@[a] == k);
                        }
                    }
                }
            }
            i += 1;
        }
        picks
    }

    /// One scan over the devices that could be opened, in the order in which
    /// they were listed. Each device that is looked for and whose slot is free
    /// claims the slot; the positions of these devices are returned, lowest
    /// first, and each of them gets a worker. Every other device is passed
    /// over: one that is not looked for, one whose slot a worker holds, and
    /// one that comes after a device with the same identity.
    pub fn scan_devices(&self, opened: &Vec<KeydDeviceInfo>, active: &mut ActiveDevices) -> (spawned:
        Vec<usize>)
        ensures
            increasing(spawned@),
            forall|i: usize|
                spawned@.contains(i) <==> spawns_at(self@, old(active)@, opened@, i as int),
            final(active)@ == old(active)@ + picked(opened@, spawned@),
            final(active)@.no_duplicates(),
    {
        let n: usize = opened.len();
        let ghost held = active@;
        let mut spawned: Vec<usize> = Vec::new();
        let mut i: usize = 0;
        proof {
            use_type_invariant(&*active);
            assert(active@ =~= held + picked(opened@, spawned@));
            assert forall|x: KeydDeviceInfo| !seen_before(opened@, 0, x) by {}
        }
        while i < n
            invariant
                i <= n,
                n == opened@.len(),
                increasing(spawned@),
                forall|a: int| 0 <= a < spawned@.len() ==> spawned@[a] < i,
                forall|k: usize|
                    spawned@.contains(k) <==> (k < i && spawns_at(self@, held, opened@, k as int)),
                active@ == held + picked(opened@, spawned@),
                active@.no_duplicates(),
                forall|x: KeydDeviceInfo| #[trigger]
                    active@.contains(x) <==> (held.contains(x) || (self@.contains(x) && seen_before(
                        opened@,
                        i as int,
                        x,
                    ))),
            decreases n - i,
        {
            let d: KeydDeviceInfo = opened[i];
            let ghost before = spawned@;
            let ghost slots = active@;
            let mut taken: bool = false;
            if self.is_wanted(d) {
                taken = active.claim(d);
                proof {
                    lemma_claimed(slots, d);
                }
            }
            if taken {
                spawned.push(i);
            }
            proof {
                lemma_seen_before_next(opened@, i as int);
                assert(spawns_at(self@, held, opened@, i as int) == taken);
                assert forall|x: KeydDeviceInfo| #[trigger]
                    active@.contains(x) <==> (held.contains(x) || (self@.contains(x) && seen_before(
                        opened@,
                        i + 1,
                        x,
                    ))) by {
                    assert(slots.contains(x) <==> (held.contains(x) || (self@.contains(x)
                        && seen_before(opened@, i as int, x))));
                }
                if taken {
                    assert(spawned@[before.len() as int] == i);
                    assert(picked(opened@, spawned@) =~= picked(opened@, before).push(d));
                    assert(active@ =~= held + picked(opened@, spawned@));
                }
                assert forall|k: usize|
                    spawned@.contains(k) <==> (k < i + 1 && spawns_at(
                        self@,
                        held,
                        opened@,
                        k as int,
                    )) by {
                    if spawned@.contains(k) {
                        let a = choose|a: int| 0 <= a < spawned@.len() && spawned@[a] == k;
                        if a < before.len() {
                            assert(before[a] == k);
                            assert(before.contains(k));
                        }
                    }
                    if k < i && spawns_at(self@, held, opened@, k as int) {
                        assert(before.contains(k));
                        let a = choose|a: int| 0 <= a < before.len() && before[a] == k;
                        assert(spawned@[a] == k);
                    }
                }
            }
            i += 1;
        }
        spawned
    }
}

} // verus!
