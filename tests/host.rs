use mountpoints::linux::{mount_entries, MountEntry, StatVfs};
use mountpoints::{mountinfos, mountpaths, MountInfo};
use nix::fcntl::OFlag;
use nix::sys::stat::Mode;

fn mount_table() -> Vec<u8> {
    let fd = nix::fcntl::open("/proc/mounts", OFlag::O_RDONLY, Mode::empty()).unwrap();
    let mut table = Vec::new();
    let mut buf = [0u8; 4096];
    loop {
        let n = nix::unistd::read(fd, &mut buf).unwrap();
        if n == 0 {
            break;
        }
        table.extend_from_slice(&buf[..n]);
    }
    nix::unistd::close(fd).unwrap();
    table
}

fn stat(path: &[u8]) -> Result<StatVfs, i32> {
    match nix::sys::statvfs::statvfs(path) {
        Ok(st) => Ok(StatVfs {
            f_bsize: st.block_size() as u64,
            f_frsize: st.fragment_size() as u64,
            f_blocks: st.blocks() as u64,
            f_bfree: st.blocks_free() as u64,
            f_bavail: st.blocks_available() as u64,
            f_flag: st.flags().bits() as u64,
        }),
        Err(errno) => Err(errno as i32),
    }
}

fn host_infos() -> Vec<MountInfo> {
    let entries = mount_entries(&mount_table()).unwrap();
    let mounts: Vec<(MountEntry, Result<StatVfs, i32>)> = entries
        .into_iter()
        .map(|e| {
            let st = stat(&e.path);
            (e, st)
        })
        .collect();
    mountinfos(mounts).unwrap()
}

fn root() -> &'static [u8] {
    b"/"
}

#[test]
fn mountpaths_works() {
    let paths = mountpaths(&mount_table()).unwrap();
    assert!(paths.len() > 0);
    assert!(paths.iter().any(|p| p.as_slice() == root()));

    for mountpath in &paths {
        println!("{:?}", String::from_utf8_lossy(mountpath));
    }
}

#[test]
fn mountinfosworks() {
    let infos = host_infos();
    assert!(infos.len() > 0);
    assert!(infos.iter().any(|i| if i.path.as_slice() == root() {
        assert!(i.size.unwrap_or_default() > 1024 * 1024); // > 1Mb
        assert!(i.avail.unwrap_or_default() < i.size.unwrap_or_default());
        assert!(i.free.unwrap_or_default() < i.size.unwrap_or_default());
        true
    } else {
        false
    }));
    for mountinfo in &infos {
        println!("{:?}", mountinfo);
    }
}

#[test]
fn host_root_sizes_are_consistent() {
    let infos = host_infos();
    let root_info = infos.iter().find(|i| i.path.as_slice() == root()).unwrap();
    let size = root_info.size.unwrap();
    assert!(size > 1024 * 1024);
    assert!(root_info.avail.unwrap() <= size);
    assert!(root_info.free.unwrap() <= size);
    assert!(root_info.readonly.is_some());
}

#[test]
fn two_calls_give_the_same_paths() {
    let first = mountpaths(&mount_table()).unwrap();
    let second = mountpaths(&mount_table()).unwrap();
    assert_eq!(first.len(), second.len());
    for p in &first {
        assert!(second.contains(p));
    }
    let infos_a = host_infos();
    let infos_b = host_infos();
    assert_eq!(infos_a.len(), infos_b.len());
    for i in &infos_a {
        assert!(infos_b.iter().any(|j| j.path == i.path));
    }
}
