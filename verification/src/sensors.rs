//! The readings of disks and of the GPU that the `sysmon` module hands to Lua.
use vstd::prelude::*;
use vstd::string::*;

verus! {

/// One mounted disk, as the monitor last saw it.
#[derive(Clone, Debug)]
pub struct DiskStats {
    pub name: String,
    pub mount_point: String,
    pub total_space: u64,
    pub available_space: u64,
    pub is_removable: bool,
}

/// A disk with the position under which `sysmon.get_disks()` lists it.
pub struct DiskRow {
    pub index: usize,
    pub disk: DiskStats,
}

fn copy_disk(disk: &DiskStats) -> (copy: DiskStats)
    ensures
        copy == *disk,
{
    DiskStats {
        name: disk.name.clone(),
        mount_point: disk.mount_point.clone(),
        total_space: disk.total_space,
        available_space: disk.available_space,
        is_removable: disk.is_removable,
    }
}

/// The rows of the table that `sysmon.get_disks()` returns: every disk, in
/// order, under the positions 1, 2, ... of a Lua sequence.
pub fn disk_rows(disks: &Vec<DiskStats>) -> (rows: Vec<DiskRow>)
    ensures
        rows@.len() == disks@.len(),
        forall|i: int|
            0 <= i < rows@.len() ==> #[trigger] rows@[i].index == i + 1 && rows@[i].disk
                == disks@[i],
{
    let mut rows: Vec<DiskRow> = Vec::new();
    let mut i: usize = 0;
    while i < disks.len()
        invariant
            i <= disks@.len(),
            rows@.len() == i,
            forall|j: int|
                0 <= j < i ==> #[trigger] rows@[j].index == j + 1 && rows@[j].disk == disks@[j],
        decreases disks@.len() - i,
    {
        let row = DiskRow { index: i + 1, disk: copy_disk(&disks[i]) };
        let ghost prev = rows@;
        rows.push(row);
        assert forall|j: int| 0 <= j <= i implies #[trigger] rows@[j].index == j + 1
            && rows@[j].disk == disks@[j] by {
            if j < i {
                assert(rows@[j] == prev[j]);
            }
        }
        i = i + 1;
    }
    rows
}

/// What `sysmon.get_gpu_usage()` reports for a GPU utilisation reading:
/// the utilisation in percent, or -1 when it could not be read.
pub fn gpu_usage_reading(utilization: Option<u32>) -> (reading: i64)
    ensures
        reading == match utilization {
            Some(u) => u as int,
            None => -1,
        },
{
    match utilization {
        Some(u) => u as i64,
        None => -1,
    }
}

/// What `sysmon.get_gpu_memory_used()` and `sysmon.get_gpu_memory_total()`
/// report for a GPU memory reading: the byte count as a Lua integer, or -1
/// when it could not be read.
pub fn gpu_memory_reading(bytes: Option<u64>) -> (reading: i64)
    ensures
        reading == match bytes {
            Some(b) => b as i64,
            None => -1i64,
        },
{
    match bytes {
        Some(b) => b as i64,
        None => -1,
    }
}

/// What `sysmon.get_gpu_name()` reports for a GPU name reading: the name, or
/// `N/A` when it could not be read.
pub fn gpu_name_reading(name: Option<String>) -> (reading: String)
    ensures
        reading@ == match name {
            Some(n) => n@,
            None => "N/A"@,
        },
{
    match name {
        Some(n) => n,
        None => String::from_str("N/A"),
    }
}

} // verus!
