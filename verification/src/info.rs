//! The telemetry that is shown on a device, and the sampler that keeps it
//! fresh.
//!
//! A monitor tracks one of two sets of metrics. Each reading replaces one
//! field of the snapshot and leaves the others as they were, so a snapshot may
//! hold fields of different moments.

use vstd::prelude::*;

use crate::report::from_twos_complement;
use crate::report::signed_of;

verus! {

/// Milliseconds between two samples of time and level.
pub const AUDIO_SAMPLE_PERIOD_MS: u64 = 50;

/// Milliseconds between two samples of processor load, memory load and
/// process count.
pub const SYSTEM_SAMPLE_PERIOD_MS: u64 = 200;

/// Which metrics a monitor tracks, and with them which report a worker sends.
#[derive(Debug, PartialEq, Eq, Structural, Copy, Clone)]
pub enum Variant {
    /// The time and the peak level of the audio output.
    Audio,
    /// Processor load, memory load and the number of processes.
    System,
}

/// The best-known values of the tracked metrics.
#[derive(Debug, PartialEq, Eq, Structural, Copy, Clone)]
pub enum Snapshot {
    Audio { unix_time_seconds: i64, level: u32 },
    System { cpu_usage_percent: u8, mem_usage_percent: u8, process_count: u16 },
}

/// One reading that the sampler took.
#[derive(Debug, PartialEq, Eq, Structural, Copy, Clone)]
pub enum Sample {
    /// Seconds since the Unix epoch.
    UnixTime(i64),
    /// Peak level of the audio output, already scaled.
    Level(u32),
    /// Processor load in percent, fraction cut off.
    CpuUsage(u8),
    /// Memory in use in percent, fraction cut off.
    MemUsage(u8),
    /// Number of processes.
    ProcessCount(u16),
}

/// Where the sampling loop of a monitor stands.
#[derive(Debug, PartialEq, Eq, Structural, Copy, Clone)]
pub enum SamplerState {
    /// No loop was started yet.
    Idle,
    /// The loop runs and may write readings.
    Sampling,
    /// The loop was cancelled: nothing is written any more.
    Cancelled,
}

/// The snapshot in which every metric of `variant` is zero.
pub open spec fn zeroed(variant: Variant) -> Snapshot {
    match variant {
        Variant::Audio => Snapshot::Audio { unix_time_seconds: 0, level: 0 },
        Variant::System => Snapshot::System {
            cpu_usage_percent: 0,
            mem_usage_percent: 0,
            process_count: 0,
        },
    }
}

/// The variant whose metrics `snapshot` holds.
pub open spec fn variant_of(snapshot: Snapshot) -> Variant {
    match snapshot {
        Snapshot::Audio { .. } => Variant::Audio,
        Snapshot::System { .. } => Variant::System,
    }
}

/// Milliseconds between two samples of `variant`.
pub open spec fn sample_period(variant: Variant) -> u64 {
    match variant {
        Variant::Audio => 50,
        Variant::System => 200,
    }
}

/// `snapshot` after the reading `sample`: the field that the reading belongs
/// to holds it, every other field is as before. A reading of a metric that the
/// snapshot does not track changes nothing.
pub open spec fn applied(snapshot: Snapshot, sample: Sample) -> Snapshot {
    match (snapshot, sample) {
        (Snapshot::Audio { unix_time_seconds, level }, Sample::UnixTime(t)) => Snapshot::Audio {
            unix_time_seconds: t,
            level,
        },
        (Snapshot::Audio { unix_time_seconds, level }, Sample::Level(l)) => Snapshot::Audio {
            unix_time_seconds,
            level: l,
        },
        (
            Snapshot::System { cpu_usage_percent, mem_usage_percent, process_count },
            Sample::CpuUsage(c),
        ) => Snapshot::System { cpu_usage_percent: c, mem_usage_percent, process_count },
        (
            Snapshot::System { cpu_usage_percent, mem_usage_percent, process_count },
            Sample::MemUsage(m),
        ) => Snapshot::System { cpu_usage_percent, mem_usage_percent: m, process_count },
        (
            Snapshot::System { cpu_usage_percent, mem_usage_percent, process_count },
            Sample::ProcessCount(p),
        ) => Snapshot::System { cpu_usage_percent, mem_usage_percent, process_count: p },
        _ => snapshot,
    }
}

/// A clock that does not run backwards gives readings that do not decrease,
/// as long as its count fits a signed number.
pub proof fn lemma_unix_time_monotone(earlier: u64, later: u64)
    requires
        earlier <= later <= i64::MAX,
    ensures
        from_twos_complement(earlier as nat) <= from_twos_complement(later as nat),
        from_twos_complement(earlier as nat) == earlier,
        from_twos_complement(later as nat) == later,
{
}

impl Variant {
    /// Milliseconds that the sampling loop waits between two samples.
    pub fn sample_period_ms(self) -> (millis: u64)
        ensures
            millis == sample_period(self),
    {
        match self {
            Variant::Audio => AUDIO_SAMPLE_PERIOD_MS,
            Variant::System => SYSTEM_SAMPLE_PERIOD_MS,
        }
    }
}

impl Snapshot {
    /// The variant whose metrics this snapshot holds.
    pub fn variant(&self) -> (variant: Variant)
        ensures
            variant == variant_of(*self),
    {
        match self {
            Snapshot::Audio { .. } => Variant::Audio,
            Snapshot::System { .. } => Variant::System,
        }
    }

    /// This snapshot after the reading `sample`.
    pub fn apply(self, sample: Sample) -> (next: Snapshot)
        ensures
            next == applied(self, sample),
            variant_of(next) == variant_of(self),
    {
        match self {
            Snapshot::Audio { unix_time_seconds, level } => match sample {
                Sample::UnixTime(t) => Snapshot::Audio { unix_time_seconds: t, level },
                Sample::Level(l) => Snapshot::Audio { unix_time_seconds, level: l },
                _ => self,
            },
            Snapshot::System { cpu_usage_percent, mem_usage_percent, process_count } => match sample {
                Sample::CpuUsage(c) => Snapshot::System {
                    cpu_usage_percent: c,
                    mem_usage_percent,
                    process_count,
                },
                Sample::MemUsage(m) => Snapshot::System {
                    cpu_usage_percent,
                    mem_usage_percent: m,
                    process_count,
                },
                Sample::ProcessCount(p) => Snapshot::System {
                    cpu_usage_percent,
                    mem_usage_percent,
                    process_count: p,
                },
                _ => self,
            },
        }
    }
}

impl Sample {
    /// The reading of a clock that counts `seconds` since the Unix epoch. The
    /// count is taken as a signed number with the same sixty-four bits.
    pub fn unix_time(seconds: u64) -> (sample: Sample)
        ensures
            sample == Sample::UnixTime(from_twos_complement(seconds as nat)),
            seconds <= i64::MAX ==> sample == Sample::UnixTime(seconds as i64),
    {
        Sample::UnixTime(signed_of(seconds))
    }
}

/// The shared snapshot together with the state of the loop that refreshes it.
pub struct InfoMonitor {
    pub snapshot: Snapshot,
    pub state: SamplerState,
}

impl InfoMonitor {
    /// A monitor of time and level with every metric at zero and no loop
    /// running.
    pub fn new() -> (monitor: InfoMonitor)
        ensures
            monitor.snapshot == zeroed(Variant::Audio),
            monitor.state == SamplerState::Idle,
    {
        InfoMonitor::for_variant(Variant::Audio)
    }

    /// A monitor of the metrics of `variant` with every metric at zero and no
    /// loop running.
    pub fn for_variant(variant: Variant) -> (monitor: InfoMonitor)
        ensures
            monitor.snapshot == zeroed(variant),
            monitor.state == SamplerState::Idle,
    {
        let snapshot = match variant {
            Variant::Audio => Snapshot::Audio { unix_time_seconds: 0, level: 0 },
            Variant::System => Snapshot::System {
                cpu_usage_percent: 0,
                mem_usage_percent: 0,
                process_count: 0,
            },
        };
        InfoMonitor { snapshot, state: SamplerState::Idle }
    }

    /// Starts the sampling loop and tells how many milliseconds it waits
    /// between two samples. A monitor starts its loop at most once.
    pub fn begin_montioring(&mut self) -> (period_ms: u64)
        requires
            old(self).state == SamplerState::Idle,
        ensures
            final(self).state == SamplerState::Sampling,
            final(self).snapshot == old(self).snapshot,
            period_ms == sample_period(variant_of(old(self).snapshot)),
    {
        self.state = SamplerState::Sampling;
        self.snapshot.variant().sample_period_ms()
    }

    /// Whether the sampling loop runs.
    pub fn is_monitoring(&self) -> (running: bool)
        ensures
            running == (self.state == SamplerState::Sampling),
    {
        self.state == SamplerState::Sampling
    }

    /// Writes the reading `sample` into the snapshot while the loop runs, and
    /// tells whether the loop goes on. Before the loop was started and after
    /// it was cancelled nothing is written.
    pub fn record(&mut self, sample: Sample) -> (running: bool)
        ensures
            running == (old(self).state == SamplerState::Sampling),
            final(self).state == old(self).state,
            final(self).snapshot == if running {
                applied(old(self).snapshot, sample)
            } else {
                old(self).snapshot
            },
    {
        if self.state == SamplerState::Sampling {
            self.snapshot = self.snapshot.apply(sample);
            true
        } else {
            false
        }
    }

    /// Cancels the sampling loop at once: the snapshot stays as it is, and no
    /// later reading is written.
    pub fn cancel(&mut self)
        ensures
            final(self).state == SamplerState::Cancelled,
            final(self).snapshot == old(self).snapshot,
    {
        self.state = SamplerState::Cancelled;
    }

    /// The current snapshot.
    pub fn read(&self) -> (snapshot: Snapshot)
        ensures
            snapshot == self.snapshot,
    {
        self.snapshot
    }
}

} // verus!
