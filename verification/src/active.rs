//! The registry of device slots that a running worker owns.
//!
//! A slot is named by a device identity, not by a connection: two physical
//! devices that report the same four numbers share one slot, and only one of
//! them is served at a time.

use vstd::prelude::*;

use crate::device::KeydDeviceInfo;

verus! {

/// The slots held after `d` was asked for: unchanged where `d` is already
/// held, else with `d` added at the end.
pub open spec fn claimed(held: Seq<KeydDeviceInfo>, d: KeydDeviceInfo) -> Seq<KeydDeviceInfo> {
    if held.contains(d) {
        held
    } else {
        held.push(d)
    }
}

/// The slots held after `d` was given up: every entry equal to `d` is gone,
/// the others keep their order.
pub open spec fn released(held: Seq<KeydDeviceInfo>, d: KeydDeviceInfo) -> Seq<KeydDeviceInfo> {
    held.filter(|x: KeydDeviceInfo| x != d)
}

/// Giving up a slot removes it, touches no other slot, and keeps the held
/// slots distinct.
pub proof fn lemma_released(held: Seq<KeydDeviceInfo>, d: KeydDeviceInfo)
    requires
        held.no_duplicates(),
    ensures
        released(held, d).no_duplicates(),
        !released(held, d).contains(d),
        forall|x: KeydDeviceInfo| x != d ==> (released(held, d).contains(x) <==> held.contains(x)),
        released(held, d).len() == if held.contains(d) { held.len() - 1 } else { held.len() as int },
    decreases held.len(),
{
    reveal(Seq::filter);
    if held.len() > 0 {
        let front = held.drop_last();
        let last = held.last();
        lemma_released(front, d);
        assert(held =~= front.push(last));
        assert(!front.contains(last)) by {
            if front.contains(last) {
                let k = choose|k: int| 0 <= k < front.len() && front[k] == last;
                assert(held[k] == held[held.len() - 1]);
            }
        }
        assert forall|x: KeydDeviceInfo| held.contains(x) <==> (front.contains(x) || x == last) by {
            if held.contains(x) {
                let k = choose|k: int| 0 <= k < held.len() && held[k] == x;
                if k < front.len() {
                    assert(front[k] == x);
                }
            }
            if front.contains(x) {
                let k = choose|k: int| 0 <= k < front.len() && front[k] == x;
                assert(held[k] == x);
            }
            if x == last {
                assert(held[held.len() - 1] == x);
            }
        }
        if last != d {
            let kept = released(front, d);
            assert(released(held, d) == kept.push(last));
            assert(!kept.contains(last));
            assert forall|x: KeydDeviceInfo| kept.push(last).contains(x) <==> (kept.contains(x) || x
                == last) by {
                if kept.push(last).contains(x) {
                    let k = choose|k: int| 0 <= k < kept.push(last).len() && kept.push(last)[k] == x;
                    if k < kept.len() {
                        assert(kept[k] == x);
                    }
                }
                if kept.contains(x) {
                    let k = choose|k: int| 0 <= k < kept.len() && kept[k] == x;
                    assert(kept.push(last)[k] == x);
                }
                if x == last {
                    assert(kept.push(last)[kept.len() as int] == x);
                }
            }
        } else {
            assert(released(held, d) == released(front, d));
        }
    }
}

/// Asking for a slot leaves it held, touches no other slot, and keeps the
/// held slots distinct.
pub proof fn lemma_claimed(held: Seq<KeydDeviceInfo>, d: KeydDeviceInfo)
    requires
        held.no_duplicates(),
    ensures
        claimed(held, d).no_duplicates(),
        claimed(held, d).contains(d),
        forall|x: KeydDeviceInfo| x != d ==> (claimed(held, d).contains(x) <==> held.contains(x)),
{
    let after = claimed(held, d);
    if !held.contains(d) {
        assert(after[held.len() as int] == d);
        assert forall|x: KeydDeviceInfo| x != d implies (after.contains(x) <==> held.contains(
            x,
        )) by {
            if after.contains(x) {
                let k = choose|k: int| 0 <= k < after.len() && after[k] == x;
                assert(held[k] == x);
            }
            if held.contains(x) {
                let k = choose|k: int| 0 <= k < held.len() && held[k] == x;
                assert(after[k] == x);
            }
        }
    }
}

/// What happens to the registry: the scanner asks for a slot, or a worker
/// that ended gives its slot up.
pub enum SlotEvent {
    Claim(KeydDeviceInfo),
    Release(KeydDeviceInfo),
}

/// The slots held once `events` have happened, one after the other, to a
/// registry that held nothing.
pub open spec fn replayed(events: Seq<SlotEvent>) -> Seq<KeydDeviceInfo>
    decreases events.len(),
{
    if events.len() == 0 {
        Seq::empty()
    } else {
        let before = replayed(events.drop_last());
        match events.last() {
            SlotEvent::Claim(d) => claimed(before, d),
            SlotEvent::Release(d) => released(before, d),
        }
    }
}

/// The number of workers that run for the slot `d` once `events` have
/// happened: a worker starts with each claim of `d` that finds it free, and
/// the worker has ended with each release of `d` that finds it held.
pub open spec fn live_workers(events: Seq<SlotEvent>, d: KeydDeviceInfo) -> int
    decreases events.len(),
{
    if events.len() == 0 {
        0
    } else {
        let before = replayed(events.drop_last());
        let change: int = match events.last() {
            SlotEvent::Claim(x) => if x == d && !before.contains(d) {
                1
            } else {
                0
            },
            SlotEvent::Release(x) => if x == d && before.contains(d) {
                -1
            } else {
                0
            },
        };
        live_workers(events.drop_last(), d) + change
    }
}

/// However claims and releases follow each other, no slot is held twice, and
/// for every slot at most one worker runs: one where the slot is held, none
/// where it is free.
pub proof fn lemma_one_worker_per_slot(events: Seq<SlotEvent>, d: KeydDeviceInfo)
    ensures
        replayed(events).no_duplicates(),
        live_workers(events, d) == if replayed(events).contains(d) { 1int } else { 0int },
        0 <= live_workers(events, d) <= 1,
    decreases events.len(),
{
    if events.len() > 0 {
        let before = replayed(events.drop_last());
        lemma_one_worker_per_slot(events.drop_last(), d);
        match events.last() {
            SlotEvent::Claim(x) => {
                lemma_claimed(before, x);
            },
            SlotEvent::Release(x) => {
                lemma_released(before, x);
            },
        }
    }
}

/// The device slots that a running worker owns, in the order in which they
/// were claimed. No slot is ever held twice.
pub struct ActiveDevices {
    entries: Vec<KeydDeviceInfo>,
}

impl View for ActiveDevices {
    type V = Seq<KeydDeviceInfo>;

    closed spec fn view(&self) -> Seq<KeydDeviceInfo> {
        self.entries@
    }
}

impl ActiveDevices {
    /// What every registry keeps: no slot is held twice.
    #[verifier::type_invariant]
    pub open spec fn distinct(self) -> bool {
        self@.no_duplicates()
    }

    /// A registry in which no slot is held.
    pub fn new() -> (set: ActiveDevices)
        ensures
            set@ == Seq::<KeydDeviceInfo>::empty(),
    {
        ActiveDevices { entries: Vec::new() }
    }

    /// The number of slots held.
    pub fn len(&self) -> (n: usize)
        ensures
            n == self@.len(),
            self@.no_duplicates(),
    {
        proof {
            use_type_invariant(self);
        }
        self.entries.len()
    }

    /// Whether no slot is held.
    pub fn is_empty(&self) -> (empty: bool)
        ensures
            empty == (self@.len() == 0),
    {
        self.entries.len() == 0
    }

    /// Whether a worker owns the slot `d`.
    pub fn contains(&self, d: KeydDeviceInfo) -> (held: bool)
        ensures
            held == self@.contains(d),
    {
        let n: usize = self.entries.len();
        let mut i: usize = 0;
        while i < n
            invariant
                i <= n,
                n == self.entries@.len(),
                forall|k: int| 0 <= k < i ==> self.entries@[k] != d,
            decreases n - i,
        {
            if self.entries[i] == d {
                return true;
            }
            i += 1;
        }
        false
    }

    /// The slots held, oldest claim first.
    pub fn devices(&self) -> (list: Vec<KeydDeviceInfo>)
        ensures
            list@ == self@,
            list@.no_duplicates(),
    {
        proof {
            use_type_invariant(self);
        }
        let n: usize = self.entries.len();
        let mut list: Vec<KeydDeviceInfo> = Vec::new();
        let mut i: usize = 0;
        while i < n
            invariant
                i <= n,
                n == self.entries@.len(),
                list@ == self.entries@.take(i as int),
            decreases n - i,
        {
            list.push(self.entries[i]);
            assert(self.entries@.take(i + 1) =~= self.entries@.take(i as int).push(
                self.entries@[i as int],
            ));
            i += 1;
        }
        assert(self.entries@.take(n as int) =~= self.entries@);
        list
    }

    /// Asks for the slot `d` in one step: where nobody holds it, it is taken
    /// and the answer is `true`; where a worker holds it already, nothing
    /// changes and the answer is `false`.
    pub fn claim(&mut self, d: KeydDeviceInfo) -> (taken: bool)
        ensures
            taken == !old(self)@.contains(d),
            final(self)@ == claimed(old(self)@, d),
            final(self)@.contains(d),
            final(self)@.no_duplicates(),
    {
        proof {
            use_type_invariant(&*self);
            lemma_claimed(self@, d);
        }
        if self.contains(d) {
            false
        } else {
            let mut list: Vec<KeydDeviceInfo> = self.devices();
            list.push(d);
            self.entries = list;
            true
        }
    }

    /// Gives up the slot `d`, whether or not it was held. The other slots
    /// stay as they are.
    pub fn release(&mut self, d: KeydDeviceInfo)
        ensures
            final(self)@ == released(old(self)@, d),
            !final(self)@.contains(d),
            final(self)@.no_duplicates(),
    {
        proof {
            use_type_invariant(&*self);
        }
        let n: usize = self.entries.len();
        let mut kept: Vec<KeydDeviceInfo> = Vec::new();
        let mut i: usize = 0;
        while i < n
            invariant
                i <= n,
                n == self.entries@.len(),
                kept@ == released(self.entries@.take(i as int), d),
            decreases n - i,
        {
            proof {
                reveal(Seq::filter);
                assert(self.entries@.take(i + 1).drop_last() =~= self.entries@.take(i as int));
            }
            if self.entries[i] != d {
                kept.push(self.entries[i]);
            }
            i += 1;
        }
        proof {
            assert(self.entries@.take(n as int) =~= self.entries@);
            lemma_released(self.entries@, d);
        }
        self.entries = kept;
    }
}

} // verus!
