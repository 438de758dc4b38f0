//! Figures of the machine: what is fixed, what is cached, and how often it is taken.

use vstd::prelude::*;
use vstd::string::*;

use crate::agent::NANOS_PER_SEC;
use crate::text::{parse_unsigned, parsed_unsigned};

verus! {

/// Seconds between two samples where no setting says otherwise.
pub const DEFAULT_INTERVAL_SECS: u64 = 2;

/// Seconds for which a list of disks is kept.
pub const DISK_TTL_SECS: u64 = 30;

/// Seconds between two samples: what the setting says, if it is a number, or else the default.
pub open spec fn interval_of(setting: Option<&str>) -> int {
    match setting {
        Some(s) => match parsed_unsigned(s@, u64::MAX as int) {
            Some(n) => n,
            None => DEFAULT_INTERVAL_SECS as int,
        },
        None => DEFAULT_INTERVAL_SECS as int,
    }
}

/// Seconds between two samples: what the setting says, if it is a number, or else the default.
pub fn monitor_interval(setting: Option<&str>) -> (r: u64)
    ensures
        r == interval_of(setting),
{
    match setting {
        Some(s) => match parse_unsigned(s, u64::MAX) {
            Some(n) => n,
            None => DEFAULT_INTERVAL_SECS,
        },
        None => DEFAULT_INTERVAL_SECS,
    }
}

/// A disk. Sizes are bytes.
#[derive(Debug)]
pub struct DiskInfo {
    pub device: String,
    pub mount_point: String,
    pub fs_type: String,
    pub total: u64,
    pub used: u64,
    pub available: u64,
}

/// The bytes of a disk that are used.
pub open spec fn used_bytes(total: u64, available: u64) -> u64 {
    if total >= available {
        (total - available) as u64
    } else {
        0
    }
}

impl DiskInfo {
    /// A disk of which so much is available; the rest is used.
    pub fn new(
        device: String,
        mount_point: String,
        fs_type: String,
        total: u64,
        available: u64,
    ) -> (r: DiskInfo)
        ensures
            r == (DiskInfo {
                device,
                mount_point,
                fs_type,
                total,
                used: if total >= available {
                    (total - available) as u64
                } else {
                    0
                },
                available,
            }),
            r.used == used_bytes(total, available),
    {
        let used = total.saturating_sub(available);
        DiskInfo { device, mount_point, fs_type, total, used, available }
    }
}

/// Whether a list of disks that was taken then is too old now.
pub open spec fn disks_stale(taken: u64, now: u64) -> bool {
    now - taken >= DISK_TTL_SECS * NANOS_PER_SEC
}

/// What is known of the machine.
#[derive(Debug)]
pub struct SystemInfo {
    pub hostname: String,
    pub os: String,
    pub os_version: String,
    pub kernel: String,
    pub arch: String,
    pub cpu_model: String,
    pub cpu_cores: u32,
    pub memory_total: u64,
    /// Seconds.
    pub uptime: u64,
    pub pnos_version: String,
}

/// The contents of what is known of the machine.
#[verifier::ext_equal]
pub struct SystemView {
    pub hostname: Seq<char>,
    pub os: Seq<char>,
    pub os_version: Seq<char>,
    pub kernel: Seq<char>,
    pub arch: Seq<char>,
    pub cpu_model: Seq<char>,
    pub cpu_cores: u32,
    pub memory_total: u64,
    pub uptime: u64,
    pub pnos_version: Seq<char>,
}

impl View for SystemInfo {
    type V = SystemView;

    open spec fn view(&self) -> SystemView {
        SystemView {
            hostname: self.hostname@,
            os: self.os@,
            os_version: self.os_version@,
            kernel: self.kernel@,
            arch: self.arch@,
            cpu_model: self.cpu_model@,
            cpu_cores: self.cpu_cores,
            memory_total: self.memory_total,
            uptime: self.uptime,
            pnos_version: self.pnos_version@,
        }
    }
}

/// What the machine says of itself, where it does.
#[derive(Debug)]
pub struct SystemFacts {
    pub hostname: Option<String>,
    pub os: Option<String>,
    pub os_version: Option<String>,
    pub kernel: Option<String>,
    pub arch: String,
    pub cpu_model: Option<String>,
    pub cpu_cores: u32,
    pub memory_total: u64,
    pub uptime: u64,
    pub pnos_version: String,
}

/// A text where there is one, else another.
pub open spec fn or_text(o: Option<String>, other: Seq<char>) -> Seq<char> {
    match o {
        Some(s) => s@,
        None => other,
    }
}

fn or_else(o: Option<String>, other: &str) -> (r: String)
    ensures
        r@ == or_text(o, other@),
{
    match o {
        Some(s) => s,
        None => other.to_owned(),
    }
}

impl SystemInfo {
    /// What is known of the machine, with names where it says none.
    pub fn new(facts: SystemFacts) -> (r: SystemInfo)
        ensures
            r@ == (SystemView {
                hostname: or_text(facts.hostname, "pnos"@),
                os: or_text(facts.os, "Linux"@),
                os_version: or_text(facts.os_version, ""@),
                kernel: or_text(facts.kernel, ""@),
                arch: facts.arch@,
                cpu_model: or_text(facts.cpu_model, ""@),
                cpu_cores: facts.cpu_cores,
                memory_total: facts.memory_total,
                uptime: facts.uptime,
                pnos_version: facts.pnos_version@,
            }),
    {
        SystemInfo {
            hostname: or_else(facts.hostname, "pnos"),
            os: or_else(facts.os, "Linux"),
            os_version: or_else(facts.os_version, ""),
            kernel: or_else(facts.kernel, ""),
            arch: facts.arch,
            cpu_model: or_else(facts.cpu_model, ""),
            cpu_cores: facts.cpu_cores,
            memory_total: facts.memory_total,
            uptime: facts.uptime,
            pnos_version: facts.pnos_version,
        }
    }

    /// What is known of the machine, with the time that it has been up by now.
    pub fn with_uptime(&self, uptime: u64) -> (r: SystemInfo)
        ensures
            r@ == (SystemView { uptime, ..self@ }),
    {
        SystemInfo {
            hostname: self.hostname.clone(),
            os: self.os.clone(),
            os_version: self.os_version.clone(),
            kernel: self.kernel.clone(),
            arch: self.arch.clone(),
            cpu_model: self.cpu_model.clone(),
            cpu_cores: self.cpu_cores,
            memory_total: self.memory_total,
            uptime,
            pnos_version: self.pnos_version.clone(),
        }
    }
}

/// A sample of the changing figures, but for the disks. Percentages and loads are the bits of
/// 32-bit floating-point numbers.
#[derive(Debug)]
pub struct Sample {
    pub cpu_usage_bits: u32,
    pub cpu_per_core_bits: Vec<u32>,
    pub memory_total: u64,
    pub memory_used: u64,
    pub swap_total: u64,
    pub swap_used: u64,
    /// Over one, five and fifteen minutes.
    pub load_bits: [u32; 3],
    pub process_count: u32,
}

/// A full sample.
#[derive(Debug)]
pub struct SystemStats {
    pub sample: Sample,
    pub disks: Vec<DiskInfo>,
}

/// The latest sample, and when the disks were last listed, after one more sample: disks that were
/// listed for it take the place of those that were kept.
pub open spec fn after_sample(
    stats: SystemStats,
    taken: u64,
    sample: Sample,
    listed: Option<Vec<DiskInfo>>,
    now: u64,
) -> (SystemStats, u64) {
    match listed {
        Some(disks) => (SystemStats { sample, disks }, now),
        None => (SystemStats { sample, disks: stats.disks }, taken),
    }
}

/// The figures of the machine as they were last taken.
pub struct MonitorService {
    static_info: SystemInfo,
    snapshot: SystemStats,
    disk_refresh_at: u64,
    interval_secs: u64,
}

impl MonitorService {
    /// The latest sample.
    pub closed spec fn stats(&self) -> SystemStats {
        self.snapshot
    }

    /// What is fixed.
    pub closed spec fn info(&self) -> SystemView {
        self.static_info@
    }

    /// When the disks were last listed.
    pub closed spec fn disks_taken(&self) -> u64 {
        self.disk_refresh_at
    }

    /// Seconds between two samples.
    pub closed spec fn interval_secs(&self) -> u64 {
        self.interval_secs
    }

    /// The service with a first sample. `interval` is the setting of the time between samples.
    pub fn new(
        info: SystemInfo,
        sample: Sample,
        disks: Vec<DiskInfo>,
        interval: Option<&str>,
        now: u64,
    ) -> (r: MonitorService)
        ensures
            r.info() == info@,
            r.stats() == (SystemStats { sample, disks }),
            r.disks_taken() == now,
            r.interval_secs() == interval_of(interval),
    {
        MonitorService {
            static_info: info,
            snapshot: SystemStats { sample, disks },
            disk_refresh_at: now,
            interval_secs: monitor_interval(interval),
        }
    }

    /// Seconds between two samples.
    pub fn interval(&self) -> (r: u64)
        ensures
            r == self.interval_secs(),
    {
        self.interval_secs
    }

    /// What is known of the machine, with the time that it has been up by now.
    pub fn get_system_info(&self, uptime: u64) -> (r: SystemInfo)
        ensures
            r@ == (SystemView { uptime, ..self.info() }),
    {
        self.static_info.with_uptime(uptime)
    }

    /// The latest sample.
    pub fn get_stats(&self) -> (r: &SystemStats)
        ensures
            *r == self.stats(),
    {
        &self.snapshot
    }

    /// Whether the disks are to be listed anew for the next sample.
    pub fn needs_disks(&self, now: u64) -> (r: bool)
        ensures
            r == disks_stale(self.disks_taken(), now),
    {
        now.saturating_sub(self.disk_refresh_at) >= DISK_TTL_SECS * NANOS_PER_SEC
    }

    /// Takes in a sample, with the disks where they had to be listed anew; else those of the
    /// sample before are kept.
    pub fn collect(&mut self, sample: Sample, listed: Option<Vec<DiskInfo>>, now: u64)
        requires
            listed is Some == disks_stale(old(self).disks_taken(), now),
        ensures
            final(self).info() == old(self).info(),
            final(self).interval_secs() == old(self).interval_secs(),
            (final(self).stats(), final(self).disks_taken()) == after_sample(
                old(self).stats(),
                old(self).disks_taken(),
                sample,
                listed,
                now,
            ),
            match listed {
                Some(disks) => {
                    &&& final(self).stats() == (SystemStats { sample, disks })
                    &&& final(self).disks_taken() == now
                },
                None => {
                    &&& final(self).stats() == (SystemStats {
                        sample,
                        disks: old(self).stats().disks,
                    })
                    &&& final(self).disks_taken() == old(self).disks_taken()
                },
            },
    {
        self.snapshot.sample = sample;
        match listed {
            Some(disks) => {
                self.snapshot.disks = disks;
                self.disk_refresh_at = now;
            },
            None => {},
        }
    }
}

} // verus!
