use archvnde::storage::{get_disk_list, get_parent_drive};

#[test]
fn parent_drive_of_partitions() {
    assert_eq!(get_parent_drive("/dev/sda1"), "/dev/sda");
    assert_eq!(get_parent_drive("/dev/sdb12"), "/dev/sdb");
    assert_eq!(get_parent_drive("/dev/sd"), "/dev/sd");
    assert_eq!(get_parent_drive("/dev/nvme0n1p2"), "/dev/nvme0n1");
    assert_eq!(get_parent_drive("/dev/nvmep"), "/dev/nvmep");
    assert_eq!(get_parent_drive("/dev/mapper/root"), "/dev/mapper/root");
    assert_eq!(get_parent_drive("tmpfs"), "tmpfs");
}

#[test]
fn df_groups_and_sorts() {
    let out = "Filesystem     1K-blocks     Used Available Use% Mounted on\n\
dev               8000000        0   8000000   0% /dev\n\
/dev/nvme0n1p2  500000000 200000000 300000000  40% /\n\
/dev/sda1       100000000  50000000  50000000  50% /data\n\
/dev/nvme0n1p1     500000    100000    400000  20% /boot\n\
/dev/sda1       100000000  50000000  50000000  50% /data2\n\
/dev/loop0              0         0         0 100% /snap\n\
tmpfs             1000000      100    999900   1% /run\n";
    let list = get_disk_list(out).unwrap();
    assert_eq!(list.len(), 2);
    assert_eq!(list[0].drive, "/dev/nvme0n1");
    assert_eq!(list[0].total_kb, 500500000);
    assert_eq!(list[0].used_kb, 200100000);
    assert_eq!(list[0].avail_kb, 300400000);
    assert_eq!(list[1].drive, "/dev/sda");
    assert_eq!(list[1].total_kb, 100000000);
}

#[test]
fn df_empty_and_overflow() {
    assert_eq!(get_disk_list("").unwrap().len(), 0);
    assert_eq!(get_disk_list("header only\n").unwrap().len(), 0);
    let out = "h\n/dev/sda1 18446744073709551615 0 0 x /\n/dev/sda2 1 0 0 x /b\n";
    assert!(get_disk_list(out).is_none());
    let bad = "h\n/dev/sdé1 10 0 0 x /\n";
    assert!(get_disk_list(bad).is_none());
    let junk = "h\n/dev/sdc1 abc 5 5 x /\n";
    assert_eq!(get_disk_list(junk).unwrap().len(), 0);
}

#[test]
fn drive_sizes_add_up_to_partitions() {
    let out = "Filesystem 1K-blocks Used Available Use% Mounted\n\
/dev/sda1 100 10 90 10% /a\n\
/dev/sdb1 300 30 270 10% /b\n\
/dev/sda2 200 20 180 10% /c\n\
/dev/sda2 200 20 180 10% /c2\n\
/dev/nvme0n1p1 50 5 45 10% /d\n";
    let list = get_disk_list(out).unwrap();
    let total: u64 = list.iter().map(|d| d.total_kb).sum();
    assert_eq!(total, 100 + 300 + 200 + 50);
    assert_eq!(list.len(), 3);
}
