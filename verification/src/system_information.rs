//! What the monitor knows of the machine at one moment.
//!
//! Floating-point readings (usages and percentages) are carried by their
//! IEEE-754 bit patterns, so that the library can hold and order them
//! exactly; the program that reads the machine stores them with `to_bits`
//! and shows them again with `from_bits`.

use vstd::prelude::*;

verus! {

/// One running process.
pub struct ProcessInformation {
    /// The process identifier.
    pub pid: u32,
    /// The process name.
    pub name: String,
    /// The bits of the process's CPU usage in percent, a 32-bit float.
    pub cpu_usage_bits: u32,
    /// The memory the process uses, in bytes.
    pub memory_usage: u64,
}

/// The processor load.
pub struct CpuInfromation {
    /// The global usage in percent.
    pub percentage: u16,
    /// The bits of each core's usage in percent, 32-bit floats, in core order.
    pub cores: Vec<u32>,
}

/// One mounted disk.
pub struct DiskInformation {
    /// The label shown for the disk (see `disk_label`).
    pub name: String,
    /// The bits of the used share of the disk in percent, a 64-bit float.
    pub percent_bits: u64,
}

/// A snapshot of the machine.
pub struct SystemInformation {
    pub cpu_information: CpuInfromation,
    /// The bits of the used share of memory in percent, a 64-bit float.
    pub memory_bits: u64,
    pub disk: Vec<DiskInformation>,
    pub processes: Vec<ProcessInformation>,
}

/// The label of a disk: its name, then its mount point in brackets,
/// as in `"/dev/sda1 (/)"`.
pub fn disk_label(name: &str, mount_point: &str) -> (label: String)
    ensures
        label@ == name@ + seq![' ', '('] + mount_point@ + seq![')'],
{
    let mut label = String::from_str(name);
    label.append(" (");
    label.append(mount_point);
    label.append(")");
    proof {
        reveal_strlit(" (");
        reveal_strlit(")");
    }
    label
}

} // verus!
