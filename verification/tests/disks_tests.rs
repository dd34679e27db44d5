use status_core_agent::disks::{disk_usage_from, pick_disk_usage, DiskInfo};

fn disk(mount: Option<&str>, available: u64, total: u64) -> DiskInfo {
    DiskInfo {
        mount_point: mount.map(|m| m.to_string()),
        available_space: available,
        total_space: total,
    }
}

#[test]
fn data_mount_is_preferred() {
    let disks = [disk(Some("/"), 1, 2), disk(Some("/boot"), 3, 4), disk(Some("/data"), 5, 6)];
    assert_eq!(pick_disk_usage(&disks), (5, 6));
}

#[test]
fn first_data_mount_wins() {
    let disks = [disk(Some("/data"), 5, 6), disk(Some("/data"), 7, 8)];
    assert_eq!(pick_disk_usage(&disks), (5, 6));
}

#[test]
fn root_mount_is_the_fallback() {
    let disks = [disk(Some("/boot"), 3, 4), disk(Some("/"), 1, 2), disk(Some("/data/x"), 9, 9)];
    assert_eq!(pick_disk_usage(&disks), (1, 2));
}

#[test]
fn first_disk_when_neither_mount_is_present() {
    let disks = [disk(None, 11, 12), disk(Some("/boot"), 3, 4)];
    assert_eq!(pick_disk_usage(&disks), (11, 12));
}

#[test]
fn no_disk_gives_zero() {
    assert_eq!(pick_disk_usage(&[]), (0, 0));
}

#[test]
fn empty_disk_list_gives_zero() {
    let disks = sysinfo::Disks::new().unwrap();
    assert_eq!(disk_usage_from(&disks), (0, 0));
}

#[test]
fn disk_usage_reads_the_listed_disks() {
    let disks = sysinfo::Disks::new_with_refreshed_list().unwrap();
    let infos: Vec<DiskInfo> = disks
        .iter()
        .map(|d| DiskInfo {
            mount_point: d.mount_point().to_str().map(|s| s.to_string()),
            available_space: d.available_space(),
            total_space: d.total_space(),
        })
        .collect();
    assert_eq!(disk_usage_from(&disks), pick_disk_usage(&infos));
}
