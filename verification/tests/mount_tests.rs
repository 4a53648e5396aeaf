use mountinfo::FsType;
use mountinfo::MountInfo;
use mountinfo::ReadWrite;

#[test]
fn test_load_mount_points() {
    let text = "tmpfs /tmp tmpfs rw,seclabel,nosuid,nodev,size=8026512k,nr_inodes=1048576,inode64 0 0";
    let mount_points = MountInfo::parse_mtab(text).unwrap();
    assert_eq!(mount_points.len(), 1);
    assert_eq!(mount_points[0].what, "tmpfs".to_owned());
    assert_eq!(mount_points[0].path, "/tmp".to_owned());
    assert_eq!(mount_points[0].fstype, FsType::Tmpfs);
}

#[test]
fn test_contains() {
    let text = "tmpfs /tmp tmpfs rw,seclabel,nosuid,nodev,size=8026512k,nr_inodes=1048576,inode64 0 0";
    let mtab = MountInfo { mounting_points: MountInfo::parse_mtab(text).unwrap() };
    assert_eq!(mtab.contains("/tmp", FsType::Tmpfs), true);
}

#[test]
fn test_is_mounted() {
    let text = "tmpfs /tmp tmpfs rw,seclabel,nosuid,nodev,size=8026512k,nr_inodes=1048576,inode64 0 0";
    let mtab = MountInfo { mounting_points: MountInfo::parse_mtab(text).unwrap() };
    assert_eq!(mtab.is_mounted("/tmp"), true);
}

#[test]
fn test_mount_options() {
    let options = mountinfo::MountOptions::new(
        "rw,seclabel,nosuid,nodev,size=8026512k,nr_inodes=1048576,inode64",
    );
    assert_eq!(options.read_write, ReadWrite::ReadWrite);
    assert_ne!(options.others.len(), 0);
    let more_options = mountinfo::MountOptions::new(
        "ro,seclabel,nosuid,nodev,size=8026512k,nr_inodes=1048576,inode64",
    );
    assert_eq!(more_options.read_write, ReadWrite::ReadOnly);
    assert_ne!(more_options.others.len(), 0);
}
