use mountinfo::FsType;
use mountinfo::MountOptions;
use mountinfo::MountPoint;
use mountinfo::ReadWrite;

#[test]
fn fstype_round_trip_known_variants() {
    let variants = vec![
        FsType::Proc,
        FsType::Overlay,
        FsType::Tmpfs,
        FsType::Sysfs,
        FsType::Btrfs,
        FsType::Ext2,
        FsType::Ext3,
        FsType::Ext4,
        FsType::Devtmpfs,
    ];
    for t in variants {
        let text = t.name();
        assert_eq!(FsType::from_name(&text), t);
    }
}

#[test]
fn fstype_round_trip_unknown_names() {
    for name in ["zfs", "xfs", "squashfs", "", "weird fs-name"] {
        let parsed = FsType::from_name(name);
        assert_eq!(parsed, FsType::Other(name.to_owned()));
        assert_eq!(parsed.name(), name.to_owned());
        let reparsed = FsType::from_name(&parsed.name());
        assert_eq!(reparsed, FsType::Other(name.to_owned()));
    }
}

#[test]
fn fstype_names_are_exact() {
    assert_eq!(FsType::from_name("proc"), FsType::Proc);
    assert_eq!(FsType::from_name("ext4"), FsType::Ext4);
    assert_eq!(FsType::Proc.name(), "proc".to_owned());
    assert_eq!(FsType::Devtmpfs.name(), "devtmpfs".to_owned());
    assert_ne!(FsType::from_name("Proc"), FsType::Proc);
    assert_ne!(FsType::Other("zfs".to_owned()), FsType::Other("ufs".to_owned()));
}

#[test]
fn options_preserve_other_tokens() {
    let options = MountOptions::new(
        "rw,seclabel,nosuid,nodev,size=8026512k,nr_inodes=1048576,inode64",
    );
    assert_eq!(options.read_write, ReadWrite::ReadWrite);
    assert_eq!(
        options.others,
        vec![
            "seclabel".to_owned(),
            "nosuid".to_owned(),
            "nodev".to_owned(),
            "size=8026512k".to_owned(),
            "nr_inodes=1048576".to_owned(),
            "inode64".to_owned(),
        ]
    );
    let read_only = MountOptions::new(
        "ro,seclabel,nosuid,nodev,size=8026512k,nr_inodes=1048576,inode64",
    );
    assert_eq!(read_only.read_write, ReadWrite::ReadOnly);
    assert_eq!(read_only.others, options.others);
}

#[test]
fn options_last_mode_token_wins() {
    assert_eq!(MountOptions::new("ro,rw").read_write, ReadWrite::ReadWrite);
    assert_eq!(MountOptions::new("rw,ro").read_write, ReadWrite::ReadOnly);
    assert_eq!(MountOptions::new("noatime").read_write, ReadWrite::ReadOnly);
    let both = MountOptions::new("ro,rw");
    assert_eq!(both.others.len(), 0);
}

#[test]
fn options_keep_empty_and_duplicate_tokens() {
    let options = MountOptions::new("");
    assert_eq!(options.read_write, ReadWrite::ReadOnly);
    assert_eq!(options.others, vec![String::new()]);
    let dup = MountOptions::new("a,a,rw");
    assert_eq!(dup.others, vec!["a".to_owned(), "a".to_owned()]);
    assert_eq!(dup.read_write, ReadWrite::ReadWrite);
}

#[test]
fn modern_line_with_optional_tags() {
    let line = "36 35 98:0 /mnt1 /mnt2 rw,noatime master:1 - ext3 /dev/root rw,errors=continue";
    let mp = MountPoint::parse_proc_mountinfo_line(line).unwrap();
    assert_eq!(mp.id, Some(36));
    assert_eq!(mp.parent_id, Some(35));
    assert_eq!(mp.root, Some("/mnt1".to_owned()));
    assert_eq!(mp.path, "/mnt2".to_owned());
    assert_eq!(mp.fstype, FsType::Ext3);
    assert_eq!(mp.what, "/dev/root".to_owned());
    assert_eq!(mp.options.read_write, ReadWrite::ReadWrite);
    assert_eq!(mp.options.others, vec!["noatime".to_owned()]);
}

#[test]
fn modern_line_without_optional_tags() {
    let line = "25 0 0:22 / /proc rw - proc proc rw";
    let mp = MountPoint::parse_proc_mountinfo_line(line).unwrap();
    assert_eq!(mp.id, Some(25));
    assert_eq!(mp.parent_id, Some(0));
    assert_eq!(mp.root, Some("/".to_owned()));
    assert_eq!(mp.path, "/proc".to_owned());
    assert_eq!(mp.fstype, FsType::Proc);
    assert_eq!(mp.what, "proc".to_owned());
}

#[test]
fn modern_line_unknown_fstype_is_preserved() {
    let line = "7 1 0:6 / /pool rw - zfs pool rw";
    let mp = MountPoint::parse_proc_mountinfo_line(line).unwrap();
    assert_eq!(mp.fstype, FsType::Other("zfs".to_owned()));
}

#[test]
fn modern_line_shape_errors() {
    // no separator token at all
    assert!(MountPoint::parse_proc_mountinfo_line("25 0 0:22 / /proc rw proc proc rw").is_none());
    // non-numeric id and parent id
    assert!(MountPoint::parse_proc_mountinfo_line("x 0 0:22 / /proc rw - proc proc rw").is_none());
    assert!(MountPoint::parse_proc_mountinfo_line("25 y 0:22 / /proc rw - proc proc rw").is_none());
    // device pair missing its colon
    assert!(MountPoint::parse_proc_mountinfo_line("25 0 22 / /proc rw - proc proc rw").is_none());
    // truncated after the separator
    assert!(MountPoint::parse_proc_mountinfo_line("25 0 0:22 / /proc rw - proc").is_none());
    // blank line
    assert!(MountPoint::parse_proc_mountinfo_line("").is_none());
}

#[test]
fn modern_line_id_bounds() {
    let line = "4294967295 0 0:22 / /proc rw - proc proc rw";
    let mp = MountPoint::parse_proc_mountinfo_line(line).unwrap();
    assert_eq!(mp.id, Some(u32::MAX));
    let too_big = "4294967296 0 0:22 / /proc rw - proc proc rw";
    assert!(MountPoint::parse_proc_mountinfo_line(too_big).is_none());
}
