//! Lists the filesystems mounted on a host, with their capacity, type and flags.
//!
//! The library holds the decisions of three enumeration engines (Linux mount
//! table, macOS `getfsstat`, Windows volume walk) as functions on plain values.
//! The native calls that produce those values are made by the caller.

use vstd::prelude::*;

use crate::linux::{first_failure, queried_info, table_fields, unescape, MountEntry, StatVfs};

pub mod linux;
pub mod macos;
pub mod text;
pub mod windows;

verus! {

/// One mounted filesystem, or one mount path of a volume.
#[derive(Debug, Clone)]
pub struct MountInfo {
    /// Mount path, as raw bytes (UTF-8 where the platform's paths are text)
    pub path: Vec<u8>,
    /// Available bytes to current user
    pub avail: Option<u64>,
    /// Free bytes
    pub free: Option<u64>,
    /// Size in bytes
    pub size: Option<u64>,
    /// Name
    pub name: Option<String>,
    /// Format (NTFS, FAT, ext4, ...)
    pub format: Option<String>,
    /// Read only
    pub readonly: Option<bool>,
    /// True if this mount point is likely to not be important
    pub dummy: bool,
}

/// The errors of all engines.
#[derive(Debug, Clone, Copy, PartialEq, Eq, Structural)]
pub enum Error {
    WindowsUtf16Error,
    WindowsVolumeIterError(u32),
    WindowsMountIterError(u32),
    LinuxPathParseError,
    LinuxStatError(i32),
    MacOsGetfsstatError(i32),
    MacOsUtf8Error,
}

/// `a * b`, or `u64::MAX` where the product does not fit.
pub open spec fn sat_mul(a: u64, b: u64) -> u64 {
    if a * b <= u64::MAX {
        (a * b) as u64
    } else {
        u64::MAX
    }
}

pub fn saturating_mul(a: u64, b: u64) -> (r: u64)
    ensures
        r == sat_mul(a, b),
{
    match a.checked_mul(b) {
        Some(p) => p,
        None => u64::MAX,
    }
}

/// The view of an optional string.
pub open spec fn opt_text(o: Option<String>) -> Option<Seq<char>> {
    match o {
        Some(s) => Some(s@),
        None => None,
    }
}

impl From<linux::Error> for Error {
    fn from(e: linux::Error) -> Error {
        match e {
            linux::Error::PathParseError => Error::LinuxPathParseError,
            linux::Error::StatError(code) => Error::LinuxStatError(code),
        }
    }
}

impl vstd::std_specs::convert::FromSpecImpl<linux::Error> for Error {
    open spec fn obeys_from_spec() -> bool {
        true
    }

    open spec fn from_spec(e: linux::Error) -> Error {
        match e {
            linux::Error::PathParseError => Error::LinuxPathParseError,
            linux::Error::StatError(code) => Error::LinuxStatError(code),
        }
    }
}

impl From<macos::Error> for Error {
    fn from(e: macos::Error) -> Error {
        match e {
            macos::Error::GetMntInfo64(code) => Error::MacOsGetfsstatError(code),
            macos::Error::Utf8Error => Error::MacOsUtf8Error,
        }
    }
}

impl vstd::std_specs::convert::FromSpecImpl<macos::Error> for Error {
    open spec fn obeys_from_spec() -> bool {
        true
    }

    open spec fn from_spec(e: macos::Error) -> Error {
        match e {
            macos::Error::GetMntInfo64(code) => Error::MacOsGetfsstatError(code),
            macos::Error::Utf8Error => Error::MacOsUtf8Error,
        }
    }
}

impl From<windows::Error> for Error {
    fn from(e: windows::Error) -> Error {
        match e {
            windows::Error::Utf16Error => Error::WindowsUtf16Error,
            windows::Error::VolumeIterError(code) => Error::WindowsVolumeIterError(code),
            windows::Error::MountIterError(code) => Error::WindowsMountIterError(code),
        }
    }
}

impl vstd::std_specs::convert::FromSpecImpl<windows::Error> for Error {
    open spec fn obeys_from_spec() -> bool {
        true
    }

    open spec fn from_spec(e: windows::Error) -> Error {
        match e {
            windows::Error::Utf16Error => Error::WindowsUtf16Error,
            windows::Error::VolumeIterError(code) => Error::WindowsVolumeIterError(code),
            windows::Error::MountIterError(code) => Error::WindowsMountIterError(code),
        }
    }
}

/// The mount paths that the Linux mount table `table` describes, in the order
/// of its lines (see `linux::mountpaths`).
pub fn mountpaths(table: &[u8]) -> (r: Result<Vec<Vec<u8>>, Error>)
    ensures
        match r {
            Ok(ps) => {
                &&& ps.len() == table_fields(table@).len()
                &&& forall|k: int| 0 <= k < ps.len() ==> unescape(#[trigger] table_fields(table@)[k].0) == Some(ps[k]@)
                &&& forall|k: int| 0 <= k < ps.len() ==> (#[trigger] ps[k]@).len() > 0
            },
            Err(e) => {
                &&& e == Error::LinuxPathParseError
                &&& exists|k: int| 0 <= k < table_fields(table@).len() && (#[trigger] unescape(table_fields(table@)[k].0)) is None
            },
        },
{
    match linux::mountpaths(table) {
        Ok(ps) => Ok(ps),
        Err(e) => Err(Error::from(e)),
    }
}

/// The records of the mounts of a Linux mount table, each with the outcome of
/// `statvfs` on its path (see `linux::mountinfos`).
pub fn mountinfos(mounts: Vec<(MountEntry, Result<StatVfs, i32>)>) -> (r: Result<Vec<MountInfo>, Error>)
    ensures
        match r {
            Ok(v) => {
                &&& v.len() == mounts.len()
                &&& forall|k: int| 0 <= k < v.len() ==> queried_info(#[trigger] mounts[k], v[k])
            },
            Err(e) => exists|k: int, code: i32| first_failure(mounts@, k, code) && e == Error::LinuxStatError(code),
        },
{
    match linux::mountinfos(mounts) {
        Ok(v) => Ok(v),
        Err(e) => Err(Error::from(e)),
    }
}

} // verus!
