use sysmon::sensors::{disk_rows, gpu_memory_reading, gpu_name_reading, gpu_usage_reading, DiskStats};

fn disk(name: &str, mount: &str, total: u64, free: u64, removable: bool) -> DiskStats {
    DiskStats {
        name: name.to_string(),
        mount_point: mount.to_string(),
        total_space: total,
        available_space: free,
        is_removable: removable,
    }
}

#[test]
fn disks_are_listed_from_one_in_order() {
    let disks = vec![disk("sda1", "/", 100, 40, false), disk("sdb1", "/media/usb", 16, 15, true)];
    let rows = disk_rows(&disks);
    assert_eq!(rows.len(), 2);
    assert_eq!(rows[0].index, 1);
    assert_eq!(rows[0].disk.name, "sda1");
    assert_eq!(rows[0].disk.mount_point, "/");
    assert_eq!(rows[0].disk.total_space, 100);
    assert_eq!(rows[0].disk.available_space, 40);
    assert!(!rows[0].disk.is_removable);
    assert_eq!(rows[1].index, 2);
    assert_eq!(rows[1].disk.name, "sdb1");
    assert!(rows[1].disk.is_removable);
}

#[test]
fn no_disks_no_rows() {
    assert!(disk_rows(&Vec::new()).is_empty());
}

#[test]
fn gpu_readings_fall_back_when_unreadable() {
    assert_eq!(gpu_usage_reading(Some(37)), 37);
    assert_eq!(gpu_usage_reading(None), -1);
    assert_eq!(gpu_memory_reading(Some(8_589_934_592)), 8_589_934_592);
    assert_eq!(gpu_memory_reading(None), -1);
    assert_eq!(gpu_name_reading(Some("GeForce RTX".to_string())), "GeForce RTX");
    assert_eq!(gpu_name_reading(None), "N/A");
}

#[test]
fn gpu_memory_reading_converts_like_a_cast() {
    assert_eq!(gpu_memory_reading(Some(u64::MAX)), -1);
    assert_eq!(gpu_memory_reading(Some(1u64 << 63)), i64::MIN);
}
