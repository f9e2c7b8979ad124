use mountpoints::macos::{
    filled_records, mountinfo, mountinfos, mountpaths, records_to_allocate, Error, StatFs,
    MNT_RDONLY,
};

fn field(text: &[u8], len: usize) -> Vec<u8> {
    let mut v = text.to_vec();
    v.resize(len, 0);
    v
}

fn record(path: &[u8], fstype: &[u8], flags: u32) -> StatFs {
    StatFs {
        f_bsize: 4096,
        f_blocks: 100,
        f_bfree: 40,
        f_bavail: 30,
        f_flags: flags,
        f_fstypename: field(fstype, 16),
        f_mntonname: field(path, 1024),
    }
}

#[test]
fn sizing_call_decides_the_allocation() {
    assert_eq!(records_to_allocate(5, 0), Ok(5));
    assert_eq!(records_to_allocate(0, 0), Ok(0));
    assert_eq!(records_to_allocate(-1, 12), Err(Error::GetMntInfo64(12)));
}

#[test]
fn filling_call_truncates_to_returned_count() {
    let buf = vec![record(b"/", b"apfs", 0), record(b"/dev", b"devfs", 0), record(b"/x", b"apfs", 0)];
    let v = filled_records(buf.clone(), 2, 0).unwrap();
    assert_eq!(v.len(), 2);
    assert_eq!(mountpaths(&v).unwrap(), vec![b"/".to_vec(), b"/dev".to_vec()]);
    assert_eq!(filled_records(buf.clone(), 7, 0).unwrap().len(), 3);
    assert!(matches!(filled_records(buf, -1, 4), Err(Error::GetMntInfo64(4))));
}

#[test]
fn fields_end_at_nul_or_bound() {
    let mut r = record(b"/Volumes/Data", b"apfs", 0);
    r.f_mntonname = b"/full/width".to_vec();
    let info = mountinfo(&r).unwrap();
    assert_eq!(info.path, b"/full/width");
    let r2 = record(b"/a\0junk", b"hfs\0xx", 0);
    let info2 = mountinfo(&r2).unwrap();
    assert_eq!(info2.path, b"/a");
    assert_eq!(info2.format.as_deref(), Some("hfs"));
}

#[test]
fn record_sizes_flags_and_dummy() {
    let info = mountinfo(&record(b"/", b"apfs", MNT_RDONLY)).unwrap();
    assert_eq!(info.size, Some(409_600));
    assert_eq!(info.free, Some(163_840));
    assert_eq!(info.avail, Some(122_880));
    assert_eq!(info.readonly, Some(true));
    assert_eq!(info.name, None);
    assert!(!info.dummy);
    let rw = mountinfo(&record(b"/", b"apfs", 0x10)).unwrap();
    assert_eq!(rw.readonly, Some(false));
}

#[test]
fn invalid_type_name_fails() {
    let records = vec![record(b"/", b"apfs", 0), record(b"/bad", b"ap\xfffs", 0)];
    assert_eq!(mountinfos(&records).unwrap_err(), Error::Utf8Error);
    assert_eq!(mountinfos(&records[..1].to_vec()).unwrap().len(), 1);
    assert_eq!(mountpaths(&records).unwrap().len(), 2);
}

#[test]
fn invalid_mount_path_fails() {
    let records = vec![record(b"/", b"apfs", 0), record(b"/Volumes/\xff\xfe", b"apfs", 0)];
    assert_eq!(mountpaths(&records).unwrap_err(), Error::Utf8Error);
    assert_eq!(mountinfos(&records).unwrap_err(), Error::Utf8Error);
    assert_eq!(mountinfo(&records[1]).unwrap_err(), Error::Utf8Error);
    let ok = mountinfo(&record(b"/Volumes/Caf\xc3\xa9", b"apfs", 0)).unwrap();
    assert_eq!(ok.path, "/Volumes/Caf\u{e9}".as_bytes());
}
