//! The macOS engine: the records of `getfsstat`.
//!
//! `getfsstat` is called twice: with no buffer, to learn how many records to
//! allocate, then with the buffer, which it fills with at most that many. The
//! filesystems that it lists are all real ones: no record is a dummy.

use vstd::prelude::*;

use crate::text::{c_bytes, until_nul, utf8_string, utf8_text};
use crate::{opt_text, sat_mul, saturating_mul, MountInfo};

verus! {

#[derive(Debug, Clone, Copy, PartialEq, Eq, Structural)]
pub enum Error {
    /// `getfsstat` failed, with this errno.
    GetMntInfo64(i32),
    /// A mount path or type name is not valid UTF-8.
    Utf8Error,
}

/// The read-only bit of `StatFs::f_flags`.
pub const MNT_RDONLY: u32 = 1;

/// The fields of a `statfs` record that the record of a mount comes from.
#[derive(Debug, Clone)]
pub struct StatFs {
    /// Fundamental block size
    pub f_bsize: u32,
    /// Blocks in the filesystem
    pub f_blocks: u64,
    /// Free blocks
    pub f_bfree: u64,
    /// Free blocks for unprivileged users
    pub f_bavail: u64,
    /// Mount flags
    pub f_flags: u32,
    /// The fixed-size field of the type name, NUL-terminated where it is shorter
    pub f_fstypename: Vec<u8>,
    /// The fixed-size field of the mount path, NUL-terminated where it is shorter
    pub f_mntonname: Vec<u8>,
}

/// How many records to allocate, after the sizing call (no buffer) returned
/// `n`; `errno` is the error number that the call left.
pub fn records_to_allocate(n: i32, errno: i32) -> (r: Result<usize, Error>)
    ensures
        n < 0 ==> r == Err::<usize, Error>(Error::GetMntInfo64(errno)),
        n >= 0 ==> r == Ok::<usize, Error>(n as usize),
{
    if n < 0 {
        Err(Error::GetMntInfo64(errno))
    } else {
        Ok(n as usize)
    }
}

/// The records that the filling call left in `buf` when it returned `n`: the
/// first `n`, never more than the buffer holds.
pub fn filled_records(buf: Vec<StatFs>, n: i32, errno: i32) -> (r: Result<Vec<StatFs>, Error>)
    ensures
        match r {
            Ok(v) => n >= 0 && v@ == buf@.take(
                if n as int <= buf@.len() {
                    n as int
                } else {
                    buf@.len() as int
                },
            ),
            Err(e) => n < 0 && e == Error::GetMntInfo64(errno),
        },
{
    if n < 0 {
        return Err(Error::GetMntInfo64(errno));
    }
    let mut v = buf;
    v.truncate(n as usize);
    proof {
        assert(v@ =~= buf@.take(
            if n as int <= buf@.len() {
                n as int
            } else {
                buf@.len() as int
            },
        ));
    }
    Ok(v)
}

/// The mount path of a record, where it is valid UTF-8.
pub open spec fn path_text(st: StatFs) -> Option<Seq<char>> {
    utf8_text(until_nul(st.f_mntonname@, 0u8))
}

/// The type name of a record, where it is valid UTF-8.
pub open spec fn type_text(st: StatFs) -> Option<Seq<char>> {
    utf8_text(until_nul(st.f_fstypename@, 0u8))
}

/// The mount path of a record, checked to be UTF-8.
fn mount_path(st: &StatFs) -> (r: Result<Vec<u8>, Error>)
    ensures
        match r {
            Ok(p) => p@ == until_nul(st.f_mntonname@, 0u8) && path_text(*st) is Some,
            Err(e) => e == Error::Utf8Error && path_text(*st) is None,
        },
{
    let path = c_bytes(st.f_mntonname.as_slice());
    match utf8_string(path.as_slice()) {
        Some(_) => Ok(path),
        None => Err(Error::Utf8Error),
    }
}

/// The mount paths of the records, in their order; fails when one is not
/// valid UTF-8.
pub fn mountpaths(records: &Vec<StatFs>) -> (r: Result<Vec<Vec<u8>>, Error>)
    ensures
        match r {
            Ok(v) => {
                &&& v.len() == records.len()
                &&& forall|k: int| 0 <= k < v.len() ==> v[k]@ == until_nul(#[trigger] records[k].f_mntonname@, 0u8)
                &&& forall|k: int| 0 <= k < records.len() ==> (#[trigger] path_text(records[k])) is Some
            },
            Err(e) => {
                &&& e == Error::Utf8Error
                &&& exists|k: int| 0 <= k < records.len() && (#[trigger] path_text(records[k])) is None
            },
        },
{
    let mut paths: Vec<Vec<u8>> = Vec::new();
    let mut k: usize = 0;
    while k < records.len()
        invariant
            0 <= k <= records.len(),
            paths.len() == k,
            forall|j: int| 0 <= j < k ==> paths[j]@ == until_nul(#[trigger] records[j].f_mntonname@, 0u8),
            forall|j: int| 0 <= j < k ==> (#[trigger] path_text(records[j])) is Some,
        decreases records.len() - k,
    {
        paths.push(mount_path(&records[k])?);
        k = k + 1;
    }
    Ok(paths)
}

/// Whether both text fields of a record are valid UTF-8.
pub open spec fn decodes(st: StatFs) -> bool {
    path_text(st) is Some && type_text(st) is Some
}

/// `i` describes the mount of record `st`: all sizes count blocks of `f_bsize`.
pub open spec fn record_info(st: StatFs, i: MountInfo) -> bool {
    &&& i.path@ == until_nul(st.f_mntonname@, 0u8)
    &&& path_text(st) is Some
    &&& i.avail == Some(sat_mul(st.f_bavail, st.f_bsize as u64))
    &&& i.free == Some(sat_mul(st.f_bfree, st.f_bsize as u64))
    &&& i.size == Some(sat_mul(st.f_blocks, st.f_bsize as u64))
    &&& i.name is None
    &&& opt_text(i.format) == type_text(st)
    &&& i.format is Some
    &&& i.readonly == Some(st.f_flags & MNT_RDONLY == MNT_RDONLY)
    &&& !i.dummy
}

/// The record of one mount; fails when its mount path or type name is not
/// valid UTF-8.
pub fn mountinfo(st: &StatFs) -> (r: Result<MountInfo, Error>)
    ensures
        match r {
            Ok(i) => record_info(*st, i),
            Err(e) => e == Error::Utf8Error && !decodes(*st),
        },
{
    let path = mount_path(st)?;
    let format = match utf8_string(c_bytes(st.f_fstypename.as_slice()).as_slice()) {
        Some(t) => t,
        None => return Err(Error::Utf8Error),
    };
    let bsize = st.f_bsize as u64;
    Ok(
        MountInfo {
            path,
            avail: Some(saturating_mul(st.f_bavail, bsize)),
            free: Some(saturating_mul(st.f_bfree, bsize)),
            size: Some(saturating_mul(st.f_blocks, bsize)),
            name: None,
            format: Some(format),
            readonly: Some(st.f_flags & MNT_RDONLY == MNT_RDONLY),
            dummy: false,
        },
    )
}

/// The records of the mounts, in their order; fails on the first record whose
/// mount path or type name is not valid UTF-8.
pub fn mountinfos(records: &Vec<StatFs>) -> (r: Result<Vec<MountInfo>, Error>)
    ensures
        match r {
            Ok(v) => {
                &&& v.len() == records.len()
                &&& forall|k: int| 0 <= k < v.len() ==> record_info(#[trigger] records[k], v[k])
            },
            Err(e) => {
                &&& e == Error::Utf8Error
                &&& exists|k: int| 0 <= k < records.len() && !decodes(#[trigger] records[k])
            },
        },
{
    let mut infos: Vec<MountInfo> = Vec::new();
    let mut k: usize = 0;
    while k < records.len()
        invariant
            0 <= k <= records.len(),
            infos.len() == k,
            forall|j: int| 0 <= j < k ==> record_info(#[trigger] records[j], infos[j]),
        decreases records.len() - k,
    {
        let i = mountinfo(&records[k])?;
        infos.push(i);
        k = k + 1;
    }
    Ok(infos)
}

} // verus!
