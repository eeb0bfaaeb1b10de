//! The life of one connection: a worker sends report after report until a
//! write fails, then gives up its slot and ends. A worker that has ended is
//! never revived; a device that is still there gets a new worker from the
//! next scan.

use vstd::prelude::*;

use crate::active::lemma_released;
use crate::active::released;
use crate::device::KeydDeviceInfo;
use crate::info::Snapshot;
use crate::info::Variant;
use crate::report::encode_report;
use crate::report::report_of;
use crate::scan::seen_before;
use crate::scan::spawns_at;

verus! {

/// Milliseconds between two reports of time and level.
pub const AUDIO_REPORT_INTERVAL_MS: u64 = 50;

/// Milliseconds between two reports of processor and memory load.
pub const SYSTEM_REPORT_INTERVAL_MS: u64 = 500;

/// Where a worker stands.
#[derive(Debug, PartialEq, Eq, Structural, Copy, Clone)]
pub enum WorkerState {
    Running,
    Terminated,
}

/// What the caller does after a write.
#[derive(Debug, PartialEq, Eq, Structural, Copy, Clone)]
pub enum WorkerAction {
    /// The report went out with `bytes_written` bytes: wait `sleep_millis`,
    /// then send the next one.
    Continue { bytes_written: usize, sleep_millis: u64 },
    /// The write failed: give up the slot `descriptor` and close the
    /// connection.
    Release { descriptor: KeydDeviceInfo },
    /// The worker has ended before: nothing is sent and nothing is given up.
    Halt,
}

/// The worker of one connection.
pub struct Worker {
    pub descriptor: KeydDeviceInfo,
    pub variant: Variant,
    pub state: WorkerState,
}

/// Milliseconds that a worker of `variant` waits between two reports.
pub open spec fn report_interval(variant: Variant) -> u64 {
    match variant {
        Variant::Audio => 50,
        Variant::System => 500,
    }
}

/// What follows a write by a worker in `state`: the action for the caller.
pub open spec fn action_after<E>(
    state: WorkerState,
    descriptor: KeydDeviceInfo,
    variant: Variant,
    written: Result<usize, E>,
) -> WorkerAction {
    match (state, written) {
        (WorkerState::Terminated, _) => WorkerAction::Halt,
        (WorkerState::Running, Ok(n)) => WorkerAction::Continue {
            bytes_written: n,
            sleep_millis: report_interval(variant),
        },
        (WorkerState::Running, Err(_)) => WorkerAction::Release { descriptor },
    }
}

/// What follows a write by a worker in `state`: the state of the worker.
pub open spec fn state_after<E>(state: WorkerState, written: Result<usize, E>) -> WorkerState {
    match (state, written) {
        (WorkerState::Running, Ok(_)) => WorkerState::Running,
        _ => WorkerState::Terminated,
    }
}

/// A failed write ends the running worker of a slot and has the slot given
/// up. In the next scan in which a device with that identity is looked for and
/// could be opened, the first such device, at position `i`, gets a fresh
/// worker.
pub proof fn lemma_failed_write_leads_to_respawn<E>(
    variant: Variant,
    written: Result<usize, E>,
    wanted: Seq<KeydDeviceInfo>,
    held: Seq<KeydDeviceInfo>,
    opened: Seq<KeydDeviceInfo>,
    i: int,
)
    requires
        written is Err,
        held.no_duplicates(),
        0 <= i < opened.len(),
        wanted.contains(opened[i]),
        !seen_before(opened, i, opened[i]),
    ensures
        state_after(WorkerState::Running, written) == WorkerState::Terminated,
        action_after(WorkerState::Running, opened[i], variant, written) == (WorkerAction::Release {
            descriptor: opened[i],
        }),
        !released(held, opened[i]).contains(opened[i]),
        spawns_at(wanted, released(held, opened[i]), opened, i),
{
    lemma_released(held, opened[i]);
}

/// The name under which a device is spoken of before its letters are made
/// small: the product name that the device gave, or `unknown` where it gave
/// none or could not be asked.
pub open spec fn name_or_unknown<E>(product: Result<Option<String>, E>) -> Seq<char> {
    match product {
        Ok(Some(name)) => name@,
        _ => "unknown"@,
    }
}

/// The text `text` with every letter made small, as the standard library
/// does it.
pub uninterp spec fn lowercase(text: Seq<char>) -> Seq<char>;

/// Calls `str::to_lowercase`. The result is taken to depend on the
/// characters of `text` alone; nothing else is claimed of it.
#[verifier::external_body]
fn to_lowercase(text: &str) -> (lower: String)
    ensures
        lower@ == lowercase(text@),
{
    text.to_lowercase()
}

/// The product name that the device gave, or the word `unknown` where
/// it gave none or the question failed.
pub fn product_or_unknown<E>(product: Result<Option<String>, E>) -> (name: String)
    ensures
        name@ == name_or_unknown(product),
{
    match product {
        Ok(Some(name)) => name,
        _ => "unknown".to_owned(),
    }
}

/// The name under which a device is spoken of: its product name in small
/// letters, or `unknown` where the device gave none or could not be asked.
/// A failure to learn the name never ends a worker.
pub fn display_name<E>(product: Result<Option<String>, E>) -> (name: String)
    ensures
        name@ == lowercase(name_or_unknown(product)),
{
    let shown: String = product_or_unknown(product);
    to_lowercase(shown.as_str())
}

impl Variant {
    /// Milliseconds that a worker waits between two reports.
    pub fn report_interval_ms(self) -> (millis: u64)
        ensures
            millis == report_interval(self),
    {
        match self {
            Variant::Audio => AUDIO_REPORT_INTERVAL_MS,
            Variant::System => SYSTEM_REPORT_INTERVAL_MS,
        }
    }
}

impl Worker {
    /// The worker for a connection to the device `descriptor` that was just
    /// opened: it runs.
    pub fn new(descriptor: KeydDeviceInfo, variant: Variant) -> (worker: Worker)
        ensures
            worker.descriptor == descriptor,
            worker.variant == variant,
            worker.state == WorkerState::Running,
    {
        Worker { descriptor, variant, state: WorkerState::Running }
    }

    /// Whether the worker still sends reports.
    pub fn is_running(&self) -> (running: bool)
        ensures
            running == (self.state == WorkerState::Running),
    {
        self.state == WorkerState::Running
    }

    /// The report to write next: the one that shows `snapshot`. A worker that
    /// has ended writes nothing.
    pub fn next_report(&self, snapshot: &Snapshot) -> (report: Option<Vec<u8>>)
        ensures
            match report {
                Some(bytes) => self.state == WorkerState::Running && bytes@ == report_of(*snapshot),
                None => self.state == WorkerState::Terminated,
            },
    {
        match self.state {
            WorkerState::Running => Some(encode_report(snapshot)),
            WorkerState::Terminated => None,
        }
    }

    /// Takes the outcome of a write. After a write that went out the worker
    /// runs on and waits for its interval. The first write that fails ends the
    /// worker and asks once for its slot to be given up. A worker that has
    /// ended stays so.
    pub fn on_write<E>(&mut self, written: Result<usize, E>) -> (action: WorkerAction)
        ensures
            action == action_after(old(self).state, old(self).descriptor, old(self).variant, written),
            final(self).state == state_after(old(self).state, written),
            final(self).descriptor == old(self).descriptor,
            final(self).variant == old(self).variant,
    {
        match self.state {
            WorkerState::Terminated => WorkerAction::Halt,
            WorkerState::Running => match written {
                Ok(n) => WorkerAction::Continue {
                    bytes_written: n,
                    sleep_millis: self.variant.report_interval_ms(),
                },
                Err(_) => {
                    self.state = WorkerState::Terminated;
                    WorkerAction::Release { descriptor: self.descriptor }
                },
            },
        }
    }
}

} // verus!
