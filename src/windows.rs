//! The Windows engine: the volume walk and the queries on each mount path.
//!
//! The walk runs `FindFirstVolumeW` / `FindNextVolumeW` and, for each volume,
//! `GetVolumePathNamesForVolumeNameW`; `VolumeWalk` decides after each call
//! what to do next. Each mount path then gets `GetDiskFreeSpaceExW` and
//! `GetVolumeInformationW`, whose failures leave fields absent.

use vstd::prelude::*;
use vstd::slice::slice_subrange;
use vstd::string::StrSliceExecFns;
use vstd::utf8::encode_utf8;

use crate::text::{lemma_until_nul_len, until_nul, utf16_string, utf16_text, wide_units};
use crate::{opt_text, MountInfo};

verus! {

#[derive(Debug, Clone, Copy, PartialEq, Eq, Structural)]
pub enum Error {
    /// A name is not valid UTF-16.
    Utf16Error,
    /// Walking the volumes failed, with this status.
    VolumeIterError(u32),
    /// Listing the mount paths of a volume failed, with this status.
    MountIterError(u32),
}

/// Status: the volume has no mount path.
pub const ERROR_FILE_NOT_FOUND: u32 = 2;

/// Status: no volume is left.
pub const ERROR_NO_MORE_FILES: u32 = 18;

/// Status: the buffer is too small for the mount paths.
pub const ERROR_MORE_DATA: u32 = 234;

/// The read-only bit of the flags of `GetVolumeInformationW`.
pub const FILE_READ_ONLY_VOLUME: u32 = 0x0008_0000;

/// The length, in UTF-16 units, of the buffers of first attempts.
pub const MAX_PATH: usize = 32768;

/// The mount paths of a buffer of NUL-terminated strings, which an empty
/// string ends.
pub open spec fn path_list(w: Seq<u16>) -> Seq<Seq<u16>>
    decreases w.len(),
{
    let first = until_nul(w, 0u16);
    if first.len() == 0 {
        Seq::empty()
    } else if first.len() >= w.len() {
        seq![first]
    } else {
        seq![first] + path_list(w.subrange(first.len() + 1int, w.len() as int))
    }
}

pub open spec fn wide_views(v: Seq<Vec<u16>>) -> Seq<Seq<u16>> {
    v.map_values(|x: Vec<u16>| x@)
}

/// Splits a buffer of NUL-terminated mount paths.
pub fn split_paths(w: &[u16]) -> (r: Vec<Vec<u16>>)
    ensures
        wide_views(r@) == path_list(w@),
{
    let mut out: Vec<Vec<u16>> = Vec::new();
    let mut i: usize = 0;
    proof {
        assert(w@.subrange(0, w@.len() as int) =~= w@);
        assert(Seq::<Seq<u16>>::empty() + path_list(w@) =~= path_list(w@));
    }
    while i < w.len()
        invariant
            0 <= i <= w.len(),
            path_list(w@) == wide_views(out@) + path_list(w@.subrange(i as int, w@.len() as int)),
        decreases w.len() - i,
    {
        let ghost rest = w@.subrange(i as int, w@.len() as int);
        let first = wide_units(slice_subrange(w, i, w.len()));
        proof {
            lemma_until_nul_len(rest, 0u16);
        }
        if first.len() == 0 {
            proof {
                assert(wide_views(out@) + Seq::<Seq<u16>>::empty() =~= wide_views(out@));
                assert(w@.subrange(w@.len() as int, w@.len() as int) =~= Seq::<u16>::empty());
            }
            return out;
        }
        let ghost before = wide_views(out@);
        let n = first.len();
        out.push(first);
        proof {
            assert(wide_views(out@) =~= before.push(first@));
        }
        if n >= w.len() - i {
            proof {
                assert(before + seq![first@] =~= before.push(first@));
                assert(wide_views(out@) + Seq::<Seq<u16>>::empty() =~= wide_views(out@));
                assert(w@.subrange(w@.len() as int, w@.len() as int) =~= Seq::<u16>::empty());
            }
            return out;
        }
        proof {
            assert(rest.subrange(n + 1, rest.len() as int) =~= w@.subrange(i + n + 1, w@.len() as int));
            let tail = path_list(w@.subrange(i + n + 1, w@.len() as int));
            assert(before + (seq![first@] + tail) =~= before.push(first@) + tail);
        }
        i = i + n + 1;
    }
    proof {
        assert(w@.subrange(i as int, w@.len() as int) =~= Seq::<u16>::empty());
        assert(wide_views(out@) + Seq::<Seq<u16>>::empty() =~= wide_views(out@));
    }
    out
}

/// A buffer whose first string is empty lists no mount path: a volume with no
/// mount path adds nothing to the walk.
pub proof fn lemma_empty_path_list(w: Seq<u16>)
    requires
        w.len() == 0 || w[0] == 0u16,
    ensures
        path_list(w).len() == 0,
{
    assert(until_nul(w, 0u16).len() == 0);
}

/// What the walk asks for next.
#[derive(Debug, Clone, Copy)]
pub enum Action {
    /// Query the mount paths of the current volume into a buffer of this many units.
    QueryNames(usize),
    /// Ask for the next volume.
    NextVolume,
    /// Release the walk's handle, then end the walk with this result.
    Close(Result<(), Error>),
    /// End the walk with this error; no handle was opened.
    Stop(Error),
}

/// The decisions of one volume walk, and the mount paths found so far.
#[derive(Debug)]
pub struct VolumeWalk {
    /// The mount paths found so far, in the order of the volumes
    pub paths: Vec<Vec<u16>>,
    /// Whether `FindFirstVolumeW` opened a handle
    pub open: bool,
    /// Whether the mount paths of the current volume were queried again
    pub retried: bool,
}

impl VolumeWalk {
    /// A walk before `FindFirstVolumeW`.
    pub fn new() -> (w: VolumeWalk)
        ensures
            w.paths@.len() == 0,
            !w.open,
            !w.retried,
    {
        VolumeWalk { paths: Vec::new(), open: false, retried: false }
    }

    /// After `FindFirstVolumeW` (when no handle is open yet) or
    /// `FindNextVolumeW`: `Ok` when it gave a volume, else its status.
    pub fn on_volume(&mut self, found: Result<(), u32>) -> (a: Action)
        ensures
            final(self).paths@ == old(self).paths@,
            match found {
                Ok(()) => {
                    &&& a == Action::QueryNames(MAX_PATH)
                    &&& final(self).open
                    &&& !final(self).retried
                },
                Err(status) => {
                    &&& final(self).open == old(self).open
                    &&& final(self).retried == old(self).retried
                    &&& !old(self).open ==> a == Action::Stop(Error::VolumeIterError(status))
                    &&& old(self).open && status == ERROR_NO_MORE_FILES ==> a == Action::Close(Ok(()))
                    &&& old(self).open && status != ERROR_NO_MORE_FILES ==> a == Action::Close(
                        Err(Error::VolumeIterError(status)),
                    )
                },
            },
    {
        match found {
            Ok(()) => {
                self.open = true;
                self.retried = false;
                Action::QueryNames(MAX_PATH)
            },
            Err(status) => {
                if !self.open {
                    Action::Stop(Error::VolumeIterError(status))
                } else if status == ERROR_NO_MORE_FILES {
                    Action::Close(Ok(()))
                } else {
                    Action::Close(Err(Error::VolumeIterError(status)))
                }
            },
        }
    }

    /// After `GetVolumePathNamesForVolumeNameW`: the buffer that it filled, or
    /// its status and the buffer length that it reported as needed. A buffer
    /// too small is retried once, at the reported length; a volume without
    /// mount paths adds none.
    pub fn on_names(&mut self, reply: Result<Vec<u16>, (u32, u32)>) -> (a: Action)
        ensures
            final(self).open == old(self).open,
            match reply {
                Ok(buf) => {
                    &&& wide_views(final(self).paths@) == wide_views(old(self).paths@) + path_list(buf@)
                    &&& final(self).retried == old(self).retried
                    &&& a == Action::NextVolume
                },
                Err((status, needed)) => {
                    &&& final(self).paths@ == old(self).paths@
                    &&& status == ERROR_MORE_DATA && !old(self).retried ==> {
                        &&& a == Action::QueryNames(needed as usize)
                        &&& final(self).retried
                    }
                    &&& !(status == ERROR_MORE_DATA && !old(self).retried) ==> final(self).retried == old(self).retried
                    &&& status == ERROR_FILE_NOT_FOUND ==> a == Action::NextVolume
                    &&& !(status == ERROR_MORE_DATA && !old(self).retried) && status != ERROR_FILE_NOT_FOUND
                        ==> a == Action::Close(Err(Error::MountIterError(status)))
                },
            },
    {
        match reply {
            Ok(buf) => {
                let found = split_paths(buf.as_slice());
                let ghost before = wide_views(self.paths@);
                let mut k: usize = 0;
                while k < found.len()
                    invariant
                        0 <= k <= found.len(),
                        self.open == old(self).open,
                        self.retried == old(self).retried,
                        wide_views(found@) == path_list(buf@),
                        wide_views(self.paths@) == before + wide_views(found@).take(k as int),
                    decreases found.len() - k,
                {
                    let ghost prev = wide_views(self.paths@);
                    self.paths.push(found[k].clone());
                    proof {
                        assert(wide_views(self.paths@) =~= prev.push(self.paths@.last()@));
                        assert(wide_views(found@).take(k + 1) =~= wide_views(found@).take(k as int).push(
                            found@[k as int]@,
                        ));
                    }
                    k = k + 1;
                }
                proof {
                    assert(wide_views(found@).take(found.len() as int) =~= wide_views(found@));
                }
                Action::NextVolume
            },
            Err((status, needed)) => {
                if status == ERROR_MORE_DATA && !self.retried {
                    self.retried = true;
                    Action::QueryNames(needed as usize)
                } else if status == ERROR_FILE_NOT_FOUND {
                    Action::NextVolume
                } else {
                    Action::Close(Err(Error::MountIterError(status)))
                }
            },
        }
    }
}

/// What `GetDiskFreeSpaceExW` reports of a mount path.
#[derive(Debug, Clone, Copy, PartialEq, Eq, Structural)]
pub struct DiskSpace {
    /// Free bytes available to the caller
    pub avail: u64,
    /// Total bytes
    pub total: u64,
    /// Total free bytes
    pub free: u64,
}

/// What `GetVolumeInformationW` reports of a mount path: its two name buffers
/// (NUL-terminated where shorter) and the volume flags.
#[derive(Debug, Clone)]
pub struct VolumeInformation {
    /// The volume label buffer
    pub name: Vec<u16>,
    /// The filesystem name buffer
    pub fs_name: Vec<u16>,
    /// The filesystem flags
    pub flags: u32,
}

/// The UTF-8 bytes of a mount path given in UTF-16, where it decodes.
pub open spec fn path_bytes(w: Seq<u16>) -> Option<Seq<u8>> {
    match utf16_text(w) {
        Some(t) => Some(encode_utf8(t)),
        None => None,
    }
}

/// The decoded label and filesystem name of a volume, and its flags.
#[derive(Debug, Clone)]
pub struct VolumeText {
    /// The volume label
    pub name: String,
    /// The filesystem name
    pub format: String,
    /// The filesystem flags
    pub flags: u32,
}

pub open spec fn volume_view(v: Option<VolumeText>) -> Option<(Seq<char>, Seq<char>, u32)> {
    match v {
        Some(v) => Some((v.name@, v.format@, v.flags)),
        None => None,
    }
}

/// `i` describes the mount path `path` from the outcomes of its two queries
/// (`None` where a query failed). A path that neither query succeeded on is a
/// dummy.
pub open spec fn record_of(
    path: Seq<char>,
    space: Option<DiskSpace>,
    volume: Option<(Seq<char>, Seq<char>, u32)>,
    i: MountInfo,
) -> bool {
    &&& i.path@ == encode_utf8(path)
    &&& match space {
        Some(s) => i.avail == Some(s.avail) && i.free == Some(s.free) && i.size == Some(s.total),
        None => i.avail is None && i.free is None && i.size is None,
    }
    &&& match volume {
        Some((name, format, flags)) => {
            &&& opt_text(i.name) == Some(name)
            &&& opt_text(i.format) == Some(format)
            &&& i.readonly == Some(flags & FILE_READ_ONLY_VOLUME == FILE_READ_ONLY_VOLUME)
        },
        None => i.name is None && i.format is None && i.readonly is None,
    }
    &&& i.dummy == (space is None && volume is None)
}

/// The volume information with its two names decoded, where both decode.
pub open spec fn volume_decoded(volume: VolumeInformation) -> Option<(Seq<char>, Seq<char>, u32)> {
    match (utf16_text(until_nul(volume.name@, 0u16)), utf16_text(until_nul(volume.fs_name@, 0u16))) {
        (Some(name), Some(format)) => Some((name, format, volume.flags)),
        _ => None,
    }
}

/// `i` describes the mount path `path` (UTF-16) from the outcomes of its two
/// queries, all of whose strings decode.
pub open spec fn path_info(
    path: Seq<u16>,
    space: Option<DiskSpace>,
    volume: Option<VolumeInformation>,
    i: MountInfo,
) -> bool {
    match utf16_text(path) {
        Some(p) => match volume {
            Some(v) => volume_decoded(v) is Some && record_of(p, space, volume_decoded(v), i),
            None => record_of(p, space, None, i),
        },
        None => false,
    }
}

fn decode(w: &[u16]) -> (r: Result<String, Error>)
    ensures
        match r {
            Ok(s) => utf16_text(w@) == Some(s@),
            Err(e) => e == Error::Utf16Error && utf16_text(w@) is None,
        },
{
    match utf16_string(w) {
        Some(s) => Ok(s),
        None => Err(Error::Utf16Error),
    }
}

/// The record of a mount path from its decoded text and the outcomes of its
/// two queries, the volume information with its names decoded.
pub fn path_record(path: &String, space: Option<DiskSpace>, volume: Option<VolumeText>) -> (i: MountInfo)
    ensures
        record_of(path@, space, volume_view(volume), i),
{
    let mut info = MountInfo {
        path: path.as_str().as_bytes_vec(),
        avail: None,
        free: None,
        size: None,
        name: None,
        format: None,
        readonly: None,
        dummy: true,
    };
    if let Some(s) = space {
        info.avail = Some(s.avail);
        info.free = Some(s.free);
        info.size = Some(s.total);
        info.dummy = false;
    }
    if let Some(v) = volume {
        info.name = Some(v.name);
        info.format = Some(v.format);
        info.readonly = Some(v.flags & FILE_READ_ONLY_VOLUME == FILE_READ_ONLY_VOLUME);
        info.dummy = false;
    }
    info
}

/// Whether every string of a mount path's record decodes: the path, and the
/// two names where the volume information query succeeded.
pub open spec fn decodes(path: Seq<u16>, volume: Option<VolumeInformation>) -> bool {
    &&& utf16_text(path) is Some
    &&& volume matches Some(v) ==> volume_decoded(v) is Some
}

/// The record of one mount path, from the outcomes of `GetDiskFreeSpaceExW`
/// and `GetVolumeInformationW` on it; fails when a string does not decode.
pub fn mountinfo(path: &[u16], space: Option<DiskSpace>, volume: Option<VolumeInformation>) -> (r:
    Result<MountInfo, Error>)
    ensures
        match r {
            Ok(i) => path_info(path@, space, volume, i),
            Err(e) => e == Error::Utf16Error && !decodes(path@, volume),
        },
{
    let text = decode(path)?;
    let names = match volume {
        Some(v) => {
            let name = decode(wide_units(v.name.as_slice()).as_slice())?;
            let format = decode(wide_units(v.fs_name.as_slice()).as_slice())?;
            Some(VolumeText { name, format, flags: v.flags })
        },
        None => None,
    };
    Ok(path_record(&text, space, names))
}

/// The mount paths found by a walk, decoded, in their order.
pub fn mountpaths(paths: &Vec<Vec<u16>>) -> (r: Result<Vec<Vec<u8>>, Error>)
    ensures
        match r {
            Ok(v) => {
                &&& v.len() == paths.len()
                &&& forall|k: int| 0 <= k < v.len() ==> path_bytes(#[trigger] paths[k]@) == Some(v[k]@)
            },
            Err(e) => {
                &&& e == Error::Utf16Error
                &&& exists|k: int| 0 <= k < paths.len() && (#[trigger] utf16_text(paths[k]@)) is None
            },
        },
{
    let mut out: Vec<Vec<u8>> = Vec::new();
    let mut k: usize = 0;
    while k < paths.len()
        invariant
            0 <= k <= paths.len(),
            out.len() == k,
            forall|j: int| 0 <= j < k ==> path_bytes(#[trigger] paths[j]@) == Some(out[j]@),
        decreases paths.len() - k,
    {
        let text = decode(paths[k].as_slice())?;
        out.push(text.as_str().as_bytes_vec());
        k = k + 1;
    }
    Ok(out)
}

/// The records of the mount paths, each with the outcomes of its two queries,
/// in their order; fails on the first string that does not decode.
pub fn mountinfos(queried: Vec<(Vec<u16>, Option<DiskSpace>, Option<VolumeInformation>)>) -> (r: Result<
    Vec<MountInfo>,
    Error,
>)
    ensures
        match r {
            Ok(v) => {
                &&& v.len() == queried.len()
                &&& forall|k: int| 0 <= k < v.len() ==> path_info(#[trigger] queried[k].0@, queried[k].1, queried[k].2, v[k])
            },
            Err(e) => {
                &&& e == Error::Utf16Error
                &&& exists|k: int| 0 <= k < queried.len() && !decodes(#[trigger] queried[k].0@, queried[k].2)
            },
        },
{
    let ghost qs = queried@;
    let mut infos: Vec<MountInfo> = Vec::new();
    for q in it: queried
        invariant
            it.seq() == qs,
            infos.len() == it.index(),
            forall|k: int| 0 <= k < infos.len() ==> path_info(#[trigger] qs[k].0@, qs[k].1, qs[k].2, infos[k]),
    {
        let ghost k = it.index() as int;
        let (path, space, volume) = q;
        match mountinfo(path.as_slice(), space, volume) {
            Ok(i) => infos.push(i),
            Err(e) => {
                proof {
                    assert(!decodes(qs[k].0@, qs[k].2));
                }
                return Err(e);
            },
        }
    }
    Ok(infos)
}

} // verus!
