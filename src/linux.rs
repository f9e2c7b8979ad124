//! The Linux engine: the text of the kernel's mount table, and `statvfs`.

use vstd::prelude::*;
use vstd::string::StringExecFns;

use crate::text::{utf8_string, utf8_text};
use crate::{opt_text, saturating_mul, sat_mul, MountInfo};

verus! {

#[derive(Debug, Clone, Copy, PartialEq, Eq, Structural)]
pub enum Error {
    /// A backslash of a mount path starts no valid octal escape.
    PathParseError,
    /// `statvfs` failed on a mount path, with this errno.
    StatError(i32),
}

pub const BACKSLASH: u8 = 0x5c;

pub const HASH: u8 = 0x23;

pub const SPACE: u8 = 0x20;

pub const TAB: u8 = 0x09;

pub const NEWLINE: u8 = 0x0a;

pub const ZERO: u8 = 0x30;

pub const THREE: u8 = 0x33;

pub const SEVEN: u8 = 0x37;

pub open spec fn is_octal_triple(a: u8, b: u8, c: u8) -> bool {
    &&& ZERO <= a <= THREE
    &&& ZERO <= b <= SEVEN
    &&& ZERO <= c <= SEVEN
}

/// The byte that three octal digits (the first at most 3) stand for.
pub open spec fn octal_byte(a: u8, b: u8, c: u8) -> u8 {
    ((a - ZERO) * 64 + (b - ZERO) * 8 + (c - ZERO)) as u8
}

/// The bytes that an escaped mount path stands for: each backslash followed by
/// three octal digits (the first one at most 3) is that byte; every other byte
/// stands for itself; any other backslash makes the path malformed.
pub open spec fn unescape(s: Seq<u8>) -> Option<Seq<u8>>
    decreases s.len(),
{
    if s.len() == 0 {
        Some(Seq::empty())
    } else if s[0] == BACKSLASH {
        if s.len() >= 4 && is_octal_triple(s[1], s[2], s[3]) {
            match unescape(s.subrange(4, s.len() as int)) {
                Some(r) => Some(seq![octal_byte(s[1], s[2], s[3])] + r),
                None => None,
            }
        } else {
            None
        }
    } else {
        match unescape(s.subrange(1, s.len() as int)) {
            Some(r) => Some(seq![s[0]] + r),
            None => None,
        }
    }
}

pub open spec fn prefixed(p: Seq<u8>, o: Option<Seq<u8>>) -> Option<Seq<u8>> {
    match o {
        Some(r) => Some(p + r),
        None => None,
    }
}

/// Decodes the octal escapes of a mount path (`\040` is a space).
pub fn unescape_path(path: &[u8]) -> (r: Result<Vec<u8>, Error>)
    ensures
        match r {
            Ok(v) => unescape(path@) == Some(v@),
            Err(e) => unescape(path@) is None && e == Error::PathParseError,
        },
{
    let mut out: Vec<u8> = Vec::new();
    let mut i: usize = 0;
    proof {
        assert(path@.subrange(0, path@.len() as int) =~= path@);
        match unescape(path@) {
            Some(t) => assert(Seq::<u8>::empty() + t =~= t),
            None => {},
        }
    }
    while i < path.len()
        invariant
            0 <= i <= path.len(),
            unescape(path@) == prefixed(out@, unescape(path@.subrange(i as int, path@.len() as int))),
        decreases path.len() - i,
    {
        let ghost rest = path@.subrange(i as int, path@.len() as int);
        let b = path[i];
        if b == BACKSLASH {
            if path.len() - i < 4 {
                return Err(Error::PathParseError);
            }
            let (d0, d1, d2) = (path[i + 1], path[i + 2], path[i + 3]);
            if !(ZERO <= d0 && d0 <= THREE && ZERO <= d1 && d1 <= SEVEN && ZERO <= d2 && d2 <= SEVEN) {
                return Err(Error::PathParseError);
            }
            let v: u8 = (d0 - ZERO) * 64 + (d1 - ZERO) * 8 + (d2 - ZERO);
            proof {
                assert(rest.subrange(4, rest.len() as int) =~= path@.subrange(i + 4, path@.len() as int));
                match unescape(path@.subrange(i + 4, path@.len() as int)) {
                    Some(t) => assert(out@ + (seq![v] + t) =~= out@.push(v) + t),
                    None => {},
                }
            }
            out.push(v);
            i = i + 4;
        } else {
            proof {
                assert(rest.subrange(1, rest.len() as int) =~= path@.subrange(i + 1, path@.len() as int));
                match unescape(path@.subrange(i + 1, path@.len() as int)) {
                    Some(t) => assert(out@ + (seq![b] + t) =~= out@.push(b) + t),
                    None => {},
                }
            }
            out.push(b);
            i = i + 1;
        }
    }
    proof {
        assert(path@.subrange(i as int, path@.len() as int) =~= Seq::<u8>::empty());
        assert(out@ + Seq::<u8>::empty() =~= out@);
    }
    Ok(out)
}

pub open spec fn is_sep(b: u8, fields: bool) -> bool {
    if fields {
        b == SPACE || b == TAB
    } else {
        b == NEWLINE
    }
}

/// The pieces of `s` between separators: newlines (`fields == false`), or
/// spaces and tabs (`fields == true`). Each separator ends a piece, so two
/// separators in a row enclose an empty piece; there is always at least one.
pub open spec fn pieces(s: Seq<u8>, fields: bool) -> Seq<Seq<u8>>
    decreases s.len(),
{
    if s.len() == 0 {
        seq![Seq::empty()]
    } else {
        let p = pieces(s.drop_last(), fields);
        if is_sep(s.last(), fields) {
            p.push(Seq::empty())
        } else {
            p.update(p.len() - 1, p.last().push(s.last()))
        }
    }
}

pub open spec fn views(v: Seq<Vec<u8>>) -> Seq<Seq<u8>> {
    v.map_values(|x: Vec<u8>| x@)
}

fn split_pieces(s: &[u8], fields: bool) -> (r: Vec<Vec<u8>>)
    ensures
        views(r@) == pieces(s@, fields),
{
    let mut out: Vec<Vec<u8>> = Vec::new();
    let mut cur: Vec<u8> = Vec::new();
    let mut i: usize = 0;
    proof {
        assert(views(out@).push(cur@) =~= pieces(s@.subrange(0, 0), fields));
    }
    while i < s.len()
        invariant
            0 <= i <= s.len(),
            views(out@).push(cur@) == pieces(s@.subrange(0, i as int), fields),
        decreases s.len() - i,
    {
        let b = s[i];
        let ghost prev = views(out@);
        proof {
            assert(s@.subrange(0, i + 1).drop_last() =~= s@.subrange(0, i as int));
        }
        if (fields && (b == SPACE || b == TAB)) || (!fields && b == NEWLINE) {
            out.push(cur);
            cur = Vec::new();
            proof {
                assert(views(out@) =~= prev.push(views(out@).last()));
            }
        } else {
            let ghost old_cur = cur@;
            cur.push(b);
            proof {
                assert(views(out@).push(cur@) =~= prev.push(old_cur).update(prev.len() as int, old_cur.push(b)));
            }
        }
        i = i + 1;
    }
    out.push(cur);
    proof {
        assert(s@.subrange(0, s@.len() as int) =~= s@);
        assert(views(out@) =~= pieces(s@, fields));
    }
    out
}

/// The non-empty pieces of `ps`, in their order.
pub open spec fn nonempty(ps: Seq<Seq<u8>>) -> Seq<Seq<u8>>
    decreases ps.len(),
{
    if ps.len() == 0 {
        Seq::empty()
    } else if ps.last().len() > 0 {
        nonempty(ps.drop_last()).push(ps.last())
    } else {
        nonempty(ps.drop_last())
    }
}

pub proof fn lemma_nonempty_pieces(ps: Seq<Seq<u8>>)
    ensures
        forall|k: int| 0 <= k < nonempty(ps).len() ==> (#[trigger] nonempty(ps)[k]).len() > 0,
    decreases ps.len(),
{
    if ps.len() > 0 {
        lemma_nonempty_pieces(ps.drop_last());
        let rest = nonempty(ps.drop_last());
        if ps.last().len() > 0 {
            assert forall|k: int| 0 <= k < nonempty(ps).len() implies (#[trigger] nonempty(ps)[k]).len() > 0 by {
                if k < rest.len() {
                    assert(nonempty(ps)[k] == rest[k]);
                }
            }
        }
    }
}

/// The whitespace-separated fields of a line: the runs of bytes between
/// spaces and tabs, so that separators in a row, or at either end, make no
/// field.
pub open spec fn line_words(line: Seq<u8>) -> Seq<Seq<u8>> {
    nonempty(pieces(line, true))
}

/// The escaped mount path and the type field of one line of the mount table,
/// or `None` for a comment or a line of fewer than two fields.
pub open spec fn line_fields(line: Seq<u8>) -> Option<(Seq<u8>, Option<Seq<u8>>)> {
    let f = line_words(line);
    if line.len() > 0 && line[0] == HASH {
        None
    } else if f.len() < 2 {
        None
    } else {
        Some((f[1], if f.len() > 2 { Some(f[2]) } else { None }))
    }
}

fn split_words(line: &[u8]) -> (r: Vec<Vec<u8>>)
    ensures
        views(r@) == line_words(line@),
{
    let f = split_pieces(line, true);
    let ghost fv = views(f@);
    let mut out: Vec<Vec<u8>> = Vec::new();
    proof {
        assert(fv.take(0) =~= Seq::<Seq<u8>>::empty());
        assert(views(out@) =~= Seq::<Seq<u8>>::empty());
    }
    for p in it: f
        invariant
            it.seq() == f@,
            fv == views(f@),
            fv == pieces(line@, true),
            views(out@) == nonempty(fv.take(it.index() as int)),
    {
        let ghost k = it.index() as int;
        let ghost before = views(out@);
        proof {
            assert(fv.take(k + 1).drop_last() =~= fv.take(k));
            assert(fv.take(k + 1).last() == p@);
        }
        if p.len() > 0 {
            out.push(p);
            proof {
                assert(views(out@) =~= before.push(out@.last()@));
            }
        }
    }
    proof {
        assert(fv.take(fv.len() as int) =~= fv);
    }
    out
}

/// The fields of each line that describes a mount, in the order of the lines.
pub open spec fn lines_fields(lines: Seq<Seq<u8>>) -> Seq<(Seq<u8>, Option<Seq<u8>>)>
    decreases lines.len(),
{
    if lines.len() == 0 {
        Seq::empty()
    } else {
        let rest = lines_fields(lines.drop_last());
        match line_fields(lines.last()) {
            Some(x) => rest.push(x),
            None => rest,
        }
    }
}

/// The fields of each mount that the mount table `table` describes.
pub open spec fn table_fields(table: Seq<u8>) -> Seq<(Seq<u8>, Option<Seq<u8>>)> {
    lines_fields(pieces(table, false))
}

pub open spec fn opt_bytes(o: Option<Vec<u8>>) -> Option<Seq<u8>> {
    match o {
        Some(v) => Some(v@),
        None => None,
    }
}

fn read_line(line: &[u8]) -> (r: Option<(Vec<u8>, Option<Vec<u8>>)>)
    ensures
        match r {
            Some((p, t)) => line_fields(line@) == Some((p@, opt_bytes(t))) && p@.len() > 0,
            None => line_fields(line@) is None,
        },
{
    if line.len() > 0 && line[0] == HASH {
        return None;
    }
    let mut f = split_words(line);
    if f.len() < 2 {
        return None;
    }
    let ghost fv = views(f@);
    proof {
        lemma_nonempty_pieces(pieces(line@, true));
        assert(fv[1].len() > 0);
    }
    let fstype = if f.len() > 2 {
        Some(f.remove(2))
    } else {
        None
    };
    let path = f.remove(1);
    proof {
        assert(fv[1] == path@);
    }
    Some((path, fstype))
}

/// The type names of pseudo filesystems (process, device, control-group,
/// security and similar virtual trees).
pub open spec fn is_dummy_type(t: Seq<char>) -> bool {
    ||| t == "autofs"@
    ||| t == "proc"@
    ||| t == "subfs"@
    ||| t == "debugfs"@
    ||| t == "devpts"@
    ||| t == "fusectl"@
    ||| t == "mqueue"@
    ||| t == "rpc_pipefs"@
    ||| t == "sysfs"@
    ||| t == "devfs"@
    ||| t == "kernfs"@
    ||| t == "ignore"@
    ||| t == "configfs"@
    ||| t == "binfmt_misc"@
    ||| t == "bpf"@
    ||| t == "pstore"@
    ||| t == "cgroup"@
    ||| t == "cgroup2"@
    ||| t == "securityfs"@
    ||| t == "efivarfs"@
}

fn is_named(t: &String, name: &str) -> (r: bool)
    ensures
        r == (t@ == name@),
{
    *t == String::from_str(name)
}

/// Whether a type name is one of a pseudo filesystem.
pub fn is_dummy_fstype(t: &String) -> (r: bool)
    ensures
        r == is_dummy_type(t@),
{
    is_named(t, "autofs")
        || is_named(t, "proc")
        || is_named(t, "subfs")
        || is_named(t, "debugfs")
        || is_named(t, "devpts")
        || is_named(t, "fusectl")
        || is_named(t, "mqueue")
        || is_named(t, "rpc_pipefs")
        || is_named(t, "sysfs")
        || is_named(t, "devfs")
        || is_named(t, "kernfs")
        || is_named(t, "ignore")
        || is_named(t, "configfs")
        || is_named(t, "binfmt_misc")
        || is_named(t, "bpf")
        || is_named(t, "pstore")
        || is_named(t, "cgroup")
        || is_named(t, "cgroup2")
        || is_named(t, "securityfs")
        || is_named(t, "efivarfs")
}

/// One mount of the mount table, before its statistics are queried.
#[derive(Debug, Clone)]
pub struct MountEntry {
    /// The decoded mount path
    pub path: Vec<u8>,
    /// Whether the type names a pseudo filesystem
    pub dummy: bool,
    /// The type field, where it is valid UTF-8
    pub fstype: Option<String>,
}

/// The type text of a type field, where there is one and it is valid UTF-8.
pub open spec fn fstype_text(field: Option<Seq<u8>>) -> Option<Seq<char>> {
    match field {
        Some(b) => utf8_text(b),
        None => None,
    }
}

/// `e` is the entry that the fields `raw` of a mount table line describe. A
/// line without a type field gives no sign of what it holds, so it counts as
/// a dummy; a type field that is not valid UTF-8 names no pseudo filesystem.
pub open spec fn entry_of(raw: (Seq<u8>, Option<Seq<u8>>), e: MountEntry) -> bool {
    &&& unescape(raw.0) == Some(e.path@)
    &&& opt_text(e.fstype) == fstype_text(raw.1)
    &&& e.dummy == (match raw.1 {
        None => true,
        Some(b) => match utf8_text(b) {
            Some(t) => is_dummy_type(t),
            None => false,
        },
    })
}

/// The mounts that a mount table describes, in the order of its lines. Comment
/// lines and lines of fewer than two fields describe none. Fails when a mount
/// path holds a malformed escape.
pub fn mount_entries(table: &[u8]) -> (r: Result<Vec<MountEntry>, Error>)
    ensures
        match r {
            Ok(es) => {
                &&& es.len() == table_fields(table@).len()
                &&& forall|k: int| 0 <= k < es.len() ==> entry_of(#[trigger] table_fields(table@)[k], es[k])
                &&& forall|k: int| 0 <= k < es.len() ==> (#[trigger] es[k].path@).len() > 0
            },
            Err(e) => {
                &&& e == Error::PathParseError
                &&& exists|k: int| 0 <= k < table_fields(table@).len() && (#[trigger] unescape(table_fields(table@)[k].0)) is None
            },
        },
{
    let lines = split_pieces(table, false);
    let ghost ls = views(lines@);
    let mut es: Vec<MountEntry> = Vec::new();
    let mut j: usize = 0;
    proof {
        assert(ls.subrange(0, 0) =~= Seq::<Seq<u8>>::empty());
    }
    while j < lines.len()
        invariant
            0 <= j <= lines.len(),
            ls == views(lines@),
            ls == pieces(table@, false),
            ls.len() == lines.len(),
            es.len() == lines_fields(ls.subrange(0, j as int)).len(),
            forall|k: int| 0 <= k < es.len() ==> entry_of(#[trigger] lines_fields(ls.subrange(0, j as int))[k], es[k]),
            forall|k: int| 0 <= k < es.len() ==> (#[trigger] es[k].path@).len() > 0,
        decreases lines.len() - j,
    {
        let ghost before = lines_fields(ls.subrange(0, j as int));
        proof {
            assert(ls.subrange(0, j + 1).drop_last() =~= ls.subrange(0, j as int));
            assert(ls[j as int] == lines@[j as int]@);
        }
        match read_line(lines[j].as_slice()) {
            None => {},
            Some((raw_path, raw_type)) => {
                let ghost raw = (raw_path@, opt_bytes(raw_type));
                let path = match unescape_path(raw_path.as_slice()) {
                    Ok(p) => p,
                    Err(e) => {
                        proof {
                            let all = lines_fields(ls);
                            assert(ls.subrange(0, j + 1).last() == ls[j as int]);
                            assert(lines_fields(ls.subrange(0, j + 1)) == before.push(raw));
                            lemma_lines_fields_prefix(ls, j as int + 1);
                            assert(all[before.len() as int] == raw);
                            assert(all == table_fields(table@));
                            assert(unescape(table_fields(table@)[before.len() as int].0) is None);
                        }
                        return Err(e);
                    },
                };
                let fstype = match &raw_type {
                    Some(t) => utf8_string(t.as_slice()),
                    None => None,
                };
                let dummy = match (&raw_type, &fstype) {
                    (None, _) => true,
                    (Some(_), Some(t)) => is_dummy_fstype(t),
                    (Some(_), None) => false,
                };
                proof {
                    lemma_unescape_nonempty(raw_path@);
                }
                es.push(MountEntry { path, dummy, fstype });
                proof {
                    assert(entry_of(raw, es[es.len() - 1]));
                }
            },
        }
        j = j + 1;
    }
    proof {
        assert(ls.subrange(0, lines.len() as int) =~= ls);
    }
    Ok(es)
}

/// The fields of the first lines are a prefix of the fields of all lines.
pub proof fn lemma_lines_fields_prefix(ls: Seq<Seq<u8>>, j: int)
    requires
        0 <= j <= ls.len(),
    ensures
        lines_fields(ls.subrange(0, j)).len() <= lines_fields(ls).len(),
        forall|k: int| 0 <= k < lines_fields(ls.subrange(0, j)).len() ==> #[trigger] lines_fields(ls)[k] == lines_fields(ls.subrange(0, j))[k],
    decreases ls.len() - j,
{
    if j < ls.len() {
        lemma_lines_fields_prefix(ls, j + 1);
        assert(ls.subrange(0, j + 1).drop_last() =~= ls.subrange(0, j));
    } else {
        assert(ls.subrange(0, j) =~= ls);
    }
}

/// The mount paths that a mount table describes, in the order of its lines.
pub fn mountpaths(table: &[u8]) -> (r: Result<Vec<Vec<u8>>, Error>)
    ensures
        match r {
            Ok(ps) => {
                &&& ps.len() == table_fields(table@).len()
                &&& forall|k: int| 0 <= k < ps.len() ==> unescape(#[trigger] table_fields(table@)[k].0) == Some(ps[k]@)
                &&& forall|k: int| 0 <= k < ps.len() ==> (#[trigger] ps[k]@).len() > 0
            },
            Err(e) => {
                &&& e == Error::PathParseError
                &&& exists|k: int| 0 <= k < table_fields(table@).len() && (#[trigger] unescape(table_fields(table@)[k].0)) is None
            },
        },
{
    let es = mount_entries(table)?;
    let ghost fs = table_fields(table@);
    let ghost ev = es@;
    let mut ps: Vec<Vec<u8>> = Vec::new();
    for e in it: es
        invariant
            it.seq() == ev,
            ev.len() == fs.len(),
            forall|k: int| 0 <= k < ev.len() ==> entry_of(#[trigger] fs[k], ev[k]),
            ps.len() == it.index(),
            forall|k: int| 0 <= k < ps.len() ==> unescape(#[trigger] fs[k].0) == Some(ps[k]@),
            forall|k: int| 0 <= k < ev.len() ==> (#[trigger] ev[k].path@).len() > 0,
            forall|k: int| 0 <= k < ps.len() ==> (#[trigger] ps[k]@).len() > 0,
    {
        proof {
            assert(entry_of(fs[it.index() as int], ev[it.index() as int]));
        }
        ps.push(e.path);
    }
    Ok(ps)
}

/// The fields of a `statvfs` record that the statistics of a mount come from.
#[derive(Debug, Clone, Copy, PartialEq, Eq, Structural)]
pub struct StatVfs {
    /// Filesystem block size
    pub f_bsize: u64,
    /// Fragment size
    pub f_frsize: u64,
    /// Size of the filesystem in fragments
    pub f_blocks: u64,
    /// Free blocks
    pub f_bfree: u64,
    /// Free blocks for unprivileged users
    pub f_bavail: u64,
    /// Mount flags
    pub f_flag: u64,
}

/// The read-only bit of `StatVfs::f_flag`.
pub const ST_RDONLY: u64 = 1;

/// `i` describes the mount `e`, whose statistics are `st`: free and available
/// space count blocks, the size counts fragments.
pub open spec fn info_of(e: MountEntry, st: StatVfs, i: MountInfo) -> bool {
    &&& i.path@ == e.path@
    &&& i.avail == Some(sat_mul(st.f_bavail, st.f_bsize))
    &&& i.free == Some(sat_mul(st.f_bfree, st.f_bsize))
    &&& i.size == Some(sat_mul(st.f_blocks, st.f_frsize))
    &&& i.name is None
    &&& opt_text(i.format) == opt_text(e.fstype)
    &&& i.readonly == Some(st.f_flag & ST_RDONLY == ST_RDONLY)
    &&& i.dummy == e.dummy
}

/// The record of one mount, from the outcome of `statvfs` on its path: the
/// statistics, or the errno of the failure.
pub fn mountinfo(entry: MountEntry, stat: Result<StatVfs, i32>) -> (r: Result<MountInfo, Error>)
    ensures
        match stat {
            Ok(st) => r matches Ok(i) && info_of(entry, st, i),
            Err(code) => r == Err::<MountInfo, Error>(Error::StatError(code)),
        },
{
    match stat {
        Ok(st) => Ok(
            MountInfo {
                path: entry.path,
                avail: Some(saturating_mul(st.f_bavail, st.f_bsize)),
                free: Some(saturating_mul(st.f_bfree, st.f_bsize)),
                size: Some(saturating_mul(st.f_blocks, st.f_frsize)),
                name: None,
                format: entry.fstype,
                readonly: Some(st.f_flag & ST_RDONLY == ST_RDONLY),
                dummy: entry.dummy,
            },
        ),
        Err(code) => Err(Error::StatError(code)),
    }
}

/// `i` describes the mount of `m`, whose query succeeded.
pub open spec fn queried_info(m: (MountEntry, Result<StatVfs, i32>), i: MountInfo) -> bool {
    match m.1 {
        Ok(st) => info_of(m.0, st, i),
        Err(_) => false,
    }
}

/// The first failed query of `ms` is the one at `k`, with errno `code`.
pub open spec fn first_failure(ms: Seq<(MountEntry, Result<StatVfs, i32>)>, k: int, code: i32) -> bool {
    &&& 0 <= k < ms.len()
    &&& ms[k].1 == Err::<StatVfs, i32>(code)
    &&& forall|j: int| 0 <= j < k ==> (#[trigger] ms[j].1) is Ok
}

/// The records of the mounts, each with the outcome of `statvfs` on its path,
/// in their order. The first failed query fails the whole call.
pub fn mountinfos(mounts: Vec<(MountEntry, Result<StatVfs, i32>)>) -> (r: Result<Vec<MountInfo>, Error>)
    ensures
        match r {
            Ok(v) => {
                &&& v.len() == mounts.len()
                &&& forall|k: int| 0 <= k < v.len() ==> queried_info(#[trigger] mounts[k], v[k])
            },
            Err(e) => exists|k: int, code: i32| first_failure(mounts@, k, code) && e == Error::StatError(code),
        },
{
    let ghost ms = mounts@;
    let mut infos: Vec<MountInfo> = Vec::new();
    for m in it: mounts
        invariant
            it.seq() == ms,
            infos.len() == it.index(),
            forall|k: int| 0 <= k < infos.len() ==> queried_info(#[trigger] ms[k], infos[k]),
    {
        let ghost k = it.index() as int;
        let (entry, stat) = m;
        match mountinfo(entry, stat) {
            Ok(i) => infos.push(i),
            Err(e) => {
                proof {
                    assert(first_failure(ms, k, ms[k].1->Err_0));
                }
                return Err(e);
            },
        }
    }
    Ok(infos)
}

/// Two calls on an unchanged system read the same mount table, and so find
/// the same mounts: records built for them hold the same paths in the same
/// order, whatever the statistics queries report the second time.
pub proof fn lemma_same_mounts_same_paths(
    ms1: Seq<(MountEntry, Result<StatVfs, i32>)>,
    ms2: Seq<(MountEntry, Result<StatVfs, i32>)>,
    v1: Seq<MountInfo>,
    v2: Seq<MountInfo>,
)
    requires
        ms1.len() == ms2.len(),
        forall|k: int| 0 <= k < ms1.len() ==> (#[trigger] ms1[k]).0.path@ == ms2[k].0.path@,
        v1.len() == ms1.len(),
        v2.len() == ms2.len(),
        forall|k: int| 0 <= k < v1.len() ==> queried_info(#[trigger] ms1[k], v1[k]),
        forall|k: int| 0 <= k < v2.len() ==> queried_info(#[trigger] ms2[k], v2[k]),
    ensures
        v1.len() == v2.len(),
        forall|k: int| 0 <= k < v1.len() ==> (#[trigger] v1[k]).path@ == v2[k].path@,
{
    assert forall|k: int| 0 <= k < v1.len() implies (#[trigger] v1[k]).path@ == v2[k].path@ by {
        assert(queried_info(ms1[k], v1[k]));
        assert(queried_info(ms2[k], v2[k]));
    }
}

/// A non-empty path stands for a non-empty one.
pub proof fn lemma_unescape_nonempty(s: Seq<u8>)
    requires
        s.len() > 0,
    ensures
        unescape(s) matches Some(r) ==> r.len() > 0,
{
}

/// Every backslash of a path starts an escape: one that is not followed by
/// three octal digits, the first of them at most 3, makes the path malformed.
pub proof fn lemma_bad_escape_rejected(s: Seq<u8>, i: int)
    requires
        0 <= i < s.len(),
        s[i] == BACKSLASH,
        !(i + 3 < s.len() && is_octal_triple(s[i + 1], s[i + 2], s[i + 3])),
    ensures
        unescape(s) is None,
    decreases s.len(),
{
    if i > 0 {
        if s[0] == BACKSLASH {
            if s.len() >= 4 && is_octal_triple(s[1], s[2], s[3]) {
                assert(i >= 4);
                let t = s.subrange(4, s.len() as int);
                lemma_bad_escape_rejected(t, i - 4);
            }
        } else {
            let t = s.subrange(1, s.len() as int);
            lemma_bad_escape_rejected(t, i - 1);
        }
    }
}

/// An escape whose first digit is not one of `0` to `3` is rejected: the
/// byte value would not fit.
pub proof fn lemma_high_digit_rejected(s: Seq<u8>, i: int)
    requires
        0 <= i,
        i + 1 < s.len(),
        s[i] == BACKSLASH,
        !(ZERO <= s[i + 1] <= THREE),
    ensures
        unescape(s) is None,
{
    lemma_bad_escape_rejected(s, i);
}

/// A path that ends fewer than three digits after a backslash is rejected.
pub proof fn lemma_truncated_escape_rejected(s: Seq<u8>, i: int)
    requires
        0 <= i < s.len(),
        s[i] == BACKSLASH,
        s.len() - i < 4,
    ensures
        unescape(s) is None,
{
    lemma_bad_escape_rejected(s, i);
}

/// A path without backslashes stands for itself.
pub proof fn lemma_plain_path(s: Seq<u8>)
    requires
        forall|i: int| 0 <= i < s.len() ==> s[i] != BACKSLASH,
    ensures
        unescape(s) == Some(s),
    decreases s.len(),
{
    if s.len() > 0 {
        let t = s.subrange(1, s.len() as int);
        assert forall|i: int| 0 <= i < t.len() implies t[i] != BACKSLASH by {
            assert(t[i] == s[i + 1]);
        }
        lemma_plain_path(t);
        assert(seq![s[0]] + t =~= s);
    }
}

/// A comment line, or a line of fewer than two fields, describes no mount:
/// the table describes the same mounts without it.
pub proof fn lemma_skipped_line(ls: Seq<Seq<u8>>, i: int)
    requires
        0 <= i < ls.len(),
        (ls[i].len() > 0 && ls[i][0] == HASH) || line_words(ls[i]).len() < 2,
    ensures
        lines_fields(ls.remove(i)) == lines_fields(ls),
    decreases ls.len(),
{
    assert(line_fields(ls[i]) is None);
    if i == ls.len() - 1 {
        assert(ls.remove(i) =~= ls.drop_last());
    } else {
        lemma_skipped_line(ls.drop_last(), i);
        assert(ls.remove(i).drop_last() =~= ls.drop_last().remove(i));
        assert(ls.remove(i).last() == ls.last());
    }
}

} // verus!
