//! Host resource snapshots: CPU, memory, swap and the disk space of one mount point,
//! computed from raw readings of the host.
use vstd::prelude::*;
use vstd::string::*;

use crate::mount::{mount_point_matches, same_mount_point};
use crate::registry::{sat_add, Fixed};
use crate::text::{digits, one_decimal_text, push_one_decimal};

verus! {

/// Full scale of a CPU reading, in hundredths of a percent.
pub const READING_FULL_SCALE: u64 = 10000;

/// Full scale of a published CPU usage, in thousandths of a percent.
pub const CPU_FULL_SCALE: u64 = 100000;

/// One mounted filesystem as read from the host.
pub struct DiskReading {
    pub mount_point: String,
    pub total_space: u64,
    pub available_space: u64,
}

pub open spec fn min(a: u64, b: u64) -> u64 {
    if a <= b { a } else { b }
}

/// Space in use on one disk; zero where the host reports more space available than in total.
pub open spec fn disk_used(d: DiskReading) -> u64 {
    if d.available_space <= d.total_space { (d.total_space - d.available_space) as u64 } else { 0 }
}

/// Total space of the disks mounted at `mount_point` (saturating at `u64::MAX`).
pub open spec fn disks_total(ds: Seq<DiskReading>, mount_point: Seq<char>) -> u64
    decreases ds.len(),
{
    if ds.len() == 0 {
        0
    } else {
        sat_add(
            disks_total(ds.drop_last(), mount_point),
            if same_mount_point(ds.last().mount_point@, mount_point) { ds.last().total_space } else { 0 },
        )
    }
}

/// Used space of the disks mounted at `mount_point` (saturating at `u64::MAX`).
pub open spec fn disks_used(ds: Seq<DiskReading>, mount_point: Seq<char>) -> u64
    decreases ds.len(),
{
    if ds.len() == 0 {
        0
    } else {
        sat_add(
            disks_used(ds.drop_last(), mount_point),
            if same_mount_point(ds.last().mount_point@, mount_point) { disk_used(ds.last()) } else { 0 },
        )
    }
}

/// The published CPU usage in thousandths of a percent: the exact mean of two
/// readings in hundredths of a percent, each clamped to full scale.
pub open spec fn cpu_average(first: u64, second: u64) -> u64 {
    ((min(first, READING_FULL_SCALE) + min(second, READING_FULL_SCALE)) * 5) as u64
}

pub struct SnapshotModel {
    pub cpu_usage: u64,
    pub total_memory: u64,
    pub used_memory: u64,
    pub total_swap: u64,
    pub used_swap: u64,
    pub total_disks_space: u64,
    pub used_disks_space: u64,
}

impl SnapshotModel {
    /// Every used amount is within its total, and CPU usage within full scale.
    pub open spec fn wf(self) -> bool {
        &&& self.cpu_usage <= CPU_FULL_SCALE
        &&& self.used_memory <= self.total_memory
        &&& self.used_swap <= self.total_swap
        &&& self.used_disks_space <= self.total_disks_space
    }
}

/// One sample of the host's resources.
pub struct SystemMetrics {
    /// Average CPU usage in thousandths of a percent
    cpu_usage: u64,
    /// Total memory in bytes
    total_memory: u64,
    /// Used memory in bytes
    used_memory: u64,
    /// Total swap space in bytes
    total_swap: u64,
    /// Used swap space in bytes
    used_swap: u64,
    /// Total disk space in bytes for the configured mount point
    total_disks_space: u64,
    /// Used disk space in bytes for the configured mount point
    used_disks_space: u64,
}

impl View for SystemMetrics {
    type V = SnapshotModel;

    closed spec fn view(&self) -> SnapshotModel {
        SnapshotModel {
            cpu_usage: self.cpu_usage,
            total_memory: self.total_memory,
            used_memory: self.used_memory,
            total_swap: self.total_swap,
            used_swap: self.used_swap,
            total_disks_space: self.total_disks_space,
            used_disks_space: self.used_disks_space,
        }
    }
}

/// Name for the text that bytesize gives a byte count.
pub uninterp spec fn byte_size_text(n: u64) -> Seq<char>;

/// Relies on bytesize's `ByteSize::b(n).to_string()`: the byte count in binary
/// units, which below one KiB is the count itself followed by " B".
#[verifier::external_body]
fn byte_size(n: u64) -> (r: String)
    ensures
        r@ == byte_size_text(n),
        n < 1024 ==> r@ == digits(n as nat) + seq![' ', 'B'],
{
    bytesize::ByteSize::b(n).to_string()
}

/// The readable summary of a snapshot, given its CPU usage (in thousandths of a
/// percent, written in percent with one decimal) and the six byte amounts already
/// written out.
pub open spec fn summary_text(
    cpu_usage: u64,
    used_memory: Seq<char>,
    total_memory: Seq<char>,
    used_swap: Seq<char>,
    total_swap: Seq<char>,
    used_disks: Seq<char>,
    total_disks: Seq<char>,
) -> Seq<char> {
    "CPUs:       "@ + one_decimal_text(cpu_usage) + "%\nMemory:     "@ + used_memory + " / "@
        + total_memory + "\nSwap:       "@ + used_swap + " / "@ + total_swap + "\nDisk usage: "@
        + used_disks + " / "@ + total_disks
}

/// Lays out the summary of a snapshot from the written byte amounts.
pub fn format_summary(
    cpu_usage: u64,
    used_memory: &String,
    total_memory: &String,
    used_swap: &String,
    total_swap: &String,
    used_disks: &String,
    total_disks: &String,
) -> (r: String)
    ensures
        r@ == summary_text(
            cpu_usage,
            used_memory@,
            total_memory@,
            used_swap@,
            total_swap@,
            used_disks@,
            total_disks@,
        ),
{
    let mut out = String::new();
    out.append("CPUs:       ");
    push_one_decimal(&mut out, cpu_usage);
    out.append("%\nMemory:     ");
    out.append(used_memory.as_str());
    out.append(" / ");
    out.append(total_memory.as_str());
    out.append("\nSwap:       ");
    out.append(used_swap.as_str());
    out.append(" / ");
    out.append(total_swap.as_str());
    out.append("\nDisk usage: ");
    out.append(used_disks.as_str());
    out.append(" / ");
    out.append(total_disks.as_str());
    proof {
        assert(out@ =~= summary_text(
            cpu_usage,
            used_memory@,
            total_memory@,
            used_swap@,
            total_swap@,
            used_disks@,
            total_disks@,
        ));
    }
    out
}

proof fn lemma_disks_used_within_total(ds: Seq<DiskReading>, mount_point: Seq<char>)
    ensures
        disks_used(ds, mount_point) <= disks_total(ds, mount_point),
    decreases ds.len(),
{
    if ds.len() > 0 {
        lemma_disks_used_within_total(ds.drop_last(), mount_point);
    }
}

impl SystemMetrics {
    #[verifier::type_invariant]
    spec fn inv(&self) -> bool {
        self@.wf()
    }

    /// A snapshot from raw host readings: two CPU readings in hundredths of a percent
    /// taken an interval apart, memory and swap totals and amounts in use, and every
    /// mounted disk. Amounts in use are clamped to their totals; disk space counts
    /// only the disks whose mount path has the same components as `disk_mount_point`
    /// (`same_mount_point`: repeated or trailing separators and `.` pieces past the
    /// first do not count), and is zero where none is.
    pub fn new(
        first_cpu: u64,
        second_cpu: u64,
        total_memory: u64,
        used_memory: u64,
        total_swap: u64,
        used_swap: u64,
        disks: &Vec<DiskReading>,
        disk_mount_point: &String,
    ) -> (r: SystemMetrics)
        ensures
            r@ == (SnapshotModel {
                cpu_usage: cpu_average(first_cpu, second_cpu),
                total_memory,
                used_memory: min(used_memory, total_memory),
                total_swap,
                used_swap: min(used_swap, total_swap),
                total_disks_space: disks_total(disks@, disk_mount_point@),
                used_disks_space: disks_used(disks@, disk_mount_point@),
            }),
            r@.wf(),
    {
        let a = if first_cpu <= READING_FULL_SCALE { first_cpu } else { READING_FULL_SCALE };
        let b = if second_cpu <= READING_FULL_SCALE { second_cpu } else { READING_FULL_SCALE };
        let cpu_usage = (a + b) * 5;

        let mut total_disks_space: u64 = 0;
        let mut used_disks_space: u64 = 0;
        let mut i: usize = 0;
        while i < disks.len()
            invariant
                i <= disks.len(),
                total_disks_space == disks_total(disks@.take(i as int), disk_mount_point@),
                used_disks_space == disks_used(disks@.take(i as int), disk_mount_point@),
            decreases disks.len() - i,
        {
            let disk = &disks[i];
            proof {
                assert(disks@.take(i + 1).drop_last() =~= disks@.take(i as int));
            }
            if mount_point_matches(&disk.mount_point, disk_mount_point) {
                let used = if disk.available_space <= disk.total_space {
                    disk.total_space - disk.available_space
                } else {
                    0
                };
                total_disks_space = total_disks_space.saturating_add(disk.total_space);
                used_disks_space = used_disks_space.saturating_add(used);
            }
            i = i + 1;
        }
        proof {
            assert(disks@.take(disks.len() as int) =~= disks@);
            lemma_disks_used_within_total(disks@, disk_mount_point@);
        }
        SystemMetrics {
            cpu_usage,
            total_memory,
            used_memory: if used_memory <= total_memory { used_memory } else { total_memory },
            total_swap,
            used_swap: if used_swap <= total_swap { used_swap } else { total_swap },
            total_disks_space,
            used_disks_space,
        }
    }

    /// CPU usage in thousandths of a percent.
    pub fn cpu_usage(&self) -> (r: u64)
        ensures
            r == self@.cpu_usage,
    {
        self.cpu_usage
    }

    pub fn total_memory(&self) -> (r: u64)
        ensures
            r == self@.total_memory,
    {
        self.total_memory
    }

    pub fn used_memory(&self) -> (r: u64)
        ensures
            r == self@.used_memory,
    {
        self.used_memory
    }

    pub fn total_swap(&self) -> (r: u64)
        ensures
            r == self@.total_swap,
    {
        self.total_swap
    }

    pub fn used_swap(&self) -> (r: u64)
        ensures
            r == self@.used_swap,
    {
        self.used_swap
    }

    pub fn total_disks_space(&self) -> (r: u64)
        ensures
            r == self@.total_disks_space,
    {
        self.total_disks_space
    }

    pub fn used_disks_space(&self) -> (r: u64)
        ensures
            r == self@.used_disks_space,
    {
        self.used_disks_space
    }

    /// Every snapshot keeps used amounts within totals and CPU usage within full scale.
    pub fn check_bounds(&self)
        ensures
            self@.wf(),
    {
        proof {
            use_type_invariant(self);
        }
    }

    /// CPU usage as a gauge value, in percent.
    pub fn cpu_gauge(&self) -> (r: Fixed)
        ensures
            r == (Fixed { units: self@.cpu_usage, scale: 3 }),
    {
        Fixed { units: self.cpu_usage, scale: 3 }
    }

    /// A readable multi-line summary, with byte amounts written by bytesize.
    pub fn describe(&self) -> (r: String)
        ensures
            r@ == summary_text(
                self@.cpu_usage,
                byte_size_text(self@.used_memory),
                byte_size_text(self@.total_memory),
                byte_size_text(self@.used_swap),
                byte_size_text(self@.total_swap),
                byte_size_text(self@.used_disks_space),
                byte_size_text(self@.total_disks_space),
            ),
    {
        format_summary(
            self.cpu_usage,
            &byte_size(self.used_memory),
            &byte_size(self.total_memory),
            &byte_size(self.used_swap),
            &byte_size(self.total_swap),
            &byte_size(self.used_disks_space),
            &byte_size(self.total_disks_space),
        )
    }
}

} // verus!
