use mountpoints::linux::{self, is_dummy_fstype, mount_entries, MountEntry, StatVfs, ST_RDONLY};
use mountpoints::{mountinfos, mountpaths, saturating_mul, Error};

const TABLE: &[u8] = b"sysfs /sys sysfs rw,nosuid 0 0\n\
# a comment /not/a/mount ext4 rw 0 0\n\
/dev/sda1 / ext4 rw,relatime 0 0\n\
lonely\n\
/dev/sdb1 /mnt/my\\040disk vfat ro 0 0\n\
cgroup2\t/sys/fs/cgroup\tcgroup2\trw 0 0\n";

#[test]
fn table_lines_give_paths_in_order() {
    let paths = mountpaths(TABLE).unwrap();
    let expected: Vec<Vec<u8>> = vec![
        b"/sys".to_vec(),
        b"/".to_vec(),
        b"/mnt/my disk".to_vec(),
        b"/sys/fs/cgroup".to_vec(),
    ];
    assert_eq!(paths, expected);
}

#[test]
fn comment_line_gives_no_entry() {
    let paths = mountpaths(b"# dev /x ext4 rw 0 0\n").unwrap();
    assert!(paths.is_empty());
    let with = mountpaths(b"a /b ext4\n#c /d ext4\ne /f ext4\n").unwrap();
    let without = mountpaths(b"a /b ext4\ne /f ext4\n").unwrap();
    assert_eq!(with, without);
}

#[test]
fn short_line_gives_no_entry() {
    assert!(mountpaths(b"lonely\n\n").unwrap().is_empty());
    assert!(mountpaths(b"").unwrap().is_empty());
    let with = mountpaths(b"a /b ext4\nnothing\ne /f ext4\n").unwrap();
    let without = mountpaths(b"a /b ext4\ne /f ext4\n").unwrap();
    assert_eq!(with, without);
}

#[test]
fn line_without_type_field() {
    let entries = mount_entries(b"dev /mnt\n").unwrap();
    assert_eq!(entries.len(), 1);
    assert_eq!(entries[0].path, b"/mnt");
    assert_eq!(entries[0].fstype, None);
    assert!(entries[0].dummy);
}

#[test]
fn entries_classify_pseudo_filesystems() {
    let entries = mount_entries(TABLE).unwrap();
    let dummies: Vec<bool> = entries.iter().map(|e| e.dummy).collect();
    assert_eq!(dummies, vec![true, false, false, true]);
    assert_eq!(entries[1].fstype.as_deref(), Some("ext4"));
    assert_eq!(entries[2].fstype.as_deref(), Some("vfat"));
}

#[test]
fn dummy_type_names() {
    for t in [
        "autofs", "proc", "subfs", "debugfs", "devpts", "fusectl", "mqueue", "rpc_pipefs",
        "sysfs", "devfs", "kernfs", "ignore", "configfs", "binfmt_misc", "bpf", "pstore",
        "cgroup", "cgroup2", "securityfs", "efivarfs",
    ] {
        assert!(is_dummy_fstype(&t.to_string()), "{}", t);
    }
    for t in ["ext4", "xfs", "tmpfs", "overlay", "", "Proc"] {
        assert!(!is_dummy_fstype(&t.to_string()), "{}", t);
    }
}

#[test]
fn invalid_utf8_type_is_absent_and_not_dummy() {
    let entries = mount_entries(b"dev /mnt pro\xffc rw\n").unwrap();
    assert_eq!(entries[0].fstype, None);
    assert!(!entries[0].dummy);
}

#[test]
fn malformed_escape_fails_the_table() {
    assert_eq!(mountpaths(b"a /ok ext4\nb /bad\\9 ext4\n"), Err(Error::LinuxPathParseError));
    assert!(matches!(mount_entries(b"b /bad\\777 ext4\n"), Err(linux::Error::PathParseError)));
}

#[test]
fn consecutive_separators_make_no_empty_field() {
    let entries = mount_entries(b"dev  /mnt ext4\n").unwrap();
    assert_eq!(entries[0].path, b"/mnt");
    assert_eq!(entries[0].fstype.as_deref(), Some("ext4"));
    let tabs = mount_entries(b"\tdev \t/srv\t\t xfs \n").unwrap();
    assert_eq!(tabs[0].path, b"/srv");
    assert_eq!(tabs[0].fstype.as_deref(), Some("xfs"));
}

#[test]
fn trailing_separator_line_gives_no_entry() {
    assert!(mountpaths(b"a \nnone\t\n  \n").unwrap().is_empty());
    let entries = mount_entries(b"d /m \n").unwrap();
    assert_eq!(entries.len(), 1);
    assert_eq!(entries[0].path, b"/m");
    assert!(entries[0].dummy);
}

fn entry(path: &[u8], fstype: &str, dummy: bool) -> MountEntry {
    MountEntry { path: path.to_vec(), dummy, fstype: Some(fstype.to_string()) }
}

#[test]
fn statistics_scale_blocks_and_fragments() {
    let st = StatVfs { f_bsize: 4096, f_frsize: 1024, f_blocks: 1000, f_bfree: 300, f_bavail: 200, f_flag: 0 };
    let infos = mountinfos(vec![(entry(b"/", "ext4", false), Ok(st))]).unwrap();
    let i = &infos[0];
    assert_eq!(i.path, b"/");
    assert_eq!(i.size, Some(1_024_000));
    assert_eq!(i.free, Some(1_228_800));
    assert_eq!(i.avail, Some(819_200));
    assert_eq!(i.readonly, Some(false));
    assert_eq!(i.format.as_deref(), Some("ext4"));
    assert_eq!(i.name, None);
    assert!(!i.dummy);
}

#[test]
fn read_only_flag_and_saturation() {
    let st = StatVfs { f_bsize: 1 << 40, f_frsize: 2, f_blocks: u64::MAX, f_bfree: 1 << 30, f_bavail: 3, f_flag: ST_RDONLY | 4 };
    let infos = mountinfos(vec![(entry(b"/proc", "proc", true), Ok(st))]).unwrap();
    let i = &infos[0];
    assert_eq!(i.size, Some(u64::MAX));
    assert_eq!(i.free, Some(u64::MAX));
    assert_eq!(i.avail, Some(3 << 40));
    assert_eq!(i.readonly, Some(true));
    assert!(i.dummy);
    assert_eq!(saturating_mul(u64::MAX, 2), u64::MAX);
    assert_eq!(saturating_mul(6, 7), 42);
}

#[test]
fn first_failed_statistics_query_fails_the_call() {
    let st = StatVfs { f_bsize: 1, f_frsize: 1, f_blocks: 1, f_bfree: 1, f_bavail: 1, f_flag: 0 };
    let r = mountinfos(vec![
        (entry(b"/", "ext4", false), Ok(st)),
        (entry(b"/a", "ext4", false), Err(13)),
        (entry(b"/b", "ext4", false), Err(2)),
    ]);
    assert_eq!(r.unwrap_err(), Error::LinuxStatError(13));
    assert_eq!(mountinfos(Vec::new()).unwrap().len(), 0);
    assert!(matches!(
        linux::mountinfo(entry(b"/c", "xfs", false), Err(5)),
        Err(linux::Error::StatError(5))
    ));
}
