use mountinfo::FsType;
use mountinfo::MountInfo;
use mountinfo::ReadWrite;

const LEGACY_LINE: &str =
    "tmpfs /tmp tmpfs rw,seclabel,nosuid,nodev,size=8026512k,nr_inodes=1048576,inode64 0 0";

#[test]
fn legacy_single_line_record() {
    let records = MountInfo::parse_mtab(LEGACY_LINE).unwrap();
    assert_eq!(records.len(), 1);
    assert_eq!(records[0].what, "tmpfs".to_owned());
    assert_eq!(records[0].path, "/tmp".to_owned());
    assert_eq!(records[0].fstype, FsType::Tmpfs);
    assert_eq!(records[0].id, None);
    assert_eq!(records[0].parent_id, None);
    assert_eq!(records[0].root, None);
    assert_eq!(records[0].options.read_write, ReadWrite::ReadWrite);
}

#[test]
fn membership_queries() {
    let mtab = MountInfo { mounting_points: MountInfo::parse_mtab(LEGACY_LINE).unwrap() };
    assert!(mtab.contains("/tmp", FsType::Tmpfs));
    assert!(!mtab.contains("/tmp", FsType::Ext4));
    assert!(mtab.is_mounted("/tmp"));
    assert!(!mtab.is_mounted("/var"));
}

#[test]
fn membership_is_exact_on_other_names() {
    let table = MountInfo {
        mounting_points: MountInfo::parse_mtab("pool /pool zfs rw 0 0").unwrap(),
    };
    assert!(table.contains("/pool", FsType::Other("zfs".to_owned())));
    assert!(!table.contains("/pool", FsType::Other("ufs".to_owned())));
    assert!(!table.contains("/pool", FsType::Tmpfs));
    // paths compare exactly: no normalization of trailing slashes
    assert!(!table.is_mounted("/pool/"));
}

#[test]
fn legacy_fail_fast_keeps_no_partial_table() {
    let text = "tmpfs /tmp tmpfs rw 0 0\nbroken line\n";
    let err = MountInfo::parse_mtab(text).unwrap_err();
    assert_eq!(err.line_number, 2);
    assert_eq!(err.line, "broken line".to_owned());
}

#[test]
fn modern_fail_fast_keeps_no_partial_table() {
    let text = "25 0 0:22 / /proc rw - proc proc rw\ngarbage\n";
    let err = MountInfo::parse_proc_mountinfo(text).unwrap_err();
    assert_eq!(err.line_number, 2);
    assert_eq!(err.line, "garbage".to_owned());
}

#[test]
fn error_reports_one_based_line_number() {
    let text = "a /a ext4 rw 0 0\nb /b ext4 rw 0 0\nbad\n";
    let err = MountInfo::parse_mtab(text).unwrap_err();
    assert_eq!(err.line_number, 3);
    assert_eq!(err.line, "bad".to_owned());
}

#[test]
fn blank_lines_skipped_in_legacy_only() {
    let text = "a /a ext4 rw 0 0\n\nb /b ext4 ro 0 0\n   \n";
    let records = MountInfo::parse_mtab(text).unwrap();
    assert_eq!(records.len(), 2);
    assert_eq!(records[0].path, "/a".to_owned());
    assert_eq!(records[1].path, "/b".to_owned());
    // the modern parser has no such leniency
    let err = MountInfo::parse_proc_mountinfo("\n").unwrap_err();
    assert_eq!(err.line_number, 1);
    assert_eq!(err.line, String::new());
}

#[test]
fn legacy_too_few_fields_is_an_error() {
    assert!(MountInfo::parse_mtab("a /a ext4\n").is_err());
    assert!(MountInfo::parse_mtab("a /a\n").is_err());
    assert!(MountInfo::parse_mtab("a\n").is_err());
    // four fields suffice; the dump and pass fields are optional and ignored
    let records = MountInfo::parse_mtab("a /a ext4 rw\n").unwrap();
    assert_eq!(records.len(), 1);
    // extra trailing fields beyond the two ignorable ones are ignored too
    let more = MountInfo::parse_mtab("a /a ext4 rw 0 0 surplus\n").unwrap();
    assert_eq!(more.len(), 1);
}

#[test]
fn modern_stream_collects_records_in_order() {
    let text = "25 0 0:22 / /proc rw - proc proc rw\n\
                36 25 98:0 /mnt1 /mnt2 rw,noatime master:1 - ext3 /dev/root rw\n";
    let records = MountInfo::parse_proc_mountinfo(text).unwrap();
    assert_eq!(records.len(), 2);
    assert_eq!(records[0].path, "/proc".to_owned());
    assert_eq!(records[0].fstype, FsType::Proc);
    assert_eq!(records[1].path, "/mnt2".to_owned());
    assert_eq!(records[1].id, Some(36));
    assert_eq!(records[1].parent_id, Some(25));
}

#[test]
fn crlf_lines_are_handled() {
    let text = "a /a ext4 rw 0 0\r\nb /b ext4 ro 0 0\r\n";
    let records = MountInfo::parse_mtab(text).unwrap();
    assert_eq!(records.len(), 2);
    assert_eq!(records[1].path, "/b".to_owned());
}

#[test]
fn identical_streams_yield_identical_tables() {
    let text = "25 0 0:22 / /proc rw - proc proc rw\n\
                36 25 98:0 /mnt1 /mnt2 rw,noatime master:1 - ext3 /dev/root rw\n";
    let first = MountInfo::parse_proc_mountinfo(text).unwrap();
    let second = MountInfo::parse_proc_mountinfo(text).unwrap();
    assert_eq!(first.len(), second.len());
    for (a, b) in first.iter().zip(second.iter()) {
        assert_eq!(a.id, b.id);
        assert_eq!(a.parent_id, b.parent_id);
        assert_eq!(a.root, b.root);
        assert_eq!(a.what, b.what);
        assert_eq!(a.path, b.path);
        assert_eq!(a.fstype, b.fstype);
        assert_eq!(a.options.read_write, b.options.read_write);
        assert_eq!(a.options.others, b.options.others);
    }
}

#[test]
fn duplicate_paths_are_tolerated() {
    let text = "a /x ext4 rw 0 0\nb /x tmpfs ro 0 0\n";
    let table = MountInfo { mounting_points: MountInfo::parse_mtab(text).unwrap() };
    assert!(table.is_mounted("/x"));
    assert!(table.contains("/x", FsType::Ext4));
    assert!(table.contains("/x", FsType::Tmpfs));
}
