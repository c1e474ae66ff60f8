use vstd::prelude::*;

use crate::convert::bytes::append;

verus! {

/// The process does not run in a WSL distribution.
#[derive(Clone, Copy, Debug, PartialEq, Eq, Structural)]
pub struct NotWslError {}

/// The mount table could not be read.
#[derive(Debug)]
pub struct MountError {
    pub source: std::io::Error,
}

/// A drvfs mount: where a Windows drive is mounted in the WSL namespace.
#[derive(Clone, Debug)]
pub struct DrvFsMountPoint {
    /// The mount point, such as `/mnt/c`.
    pub wsl: Vec<u8>,
    /// What is mounted there, such as `C:\`.
    pub win: Vec<u8>,
}

/// An entry of the mount table.
#[derive(Clone, Debug)]
pub struct MountEntry {
    /// Where it is mounted.
    pub dest: Vec<u8>,
    /// What is mounted.
    pub source: Vec<u8>,
    /// The file system type.
    pub fstype: Vec<u8>,
}

/// `//wsl$/`, the Windows path under which WSL distributions are reached.
pub open spec fn unc_prefix() -> Seq<u8> {
    seq![0x2fu8, 0x2f, 0x77, 0x73, 0x6c, 0x24, 0x2f]
}

/// `drvfs`, the file system type of mounted Windows drives.
pub open spec fn drvfs() -> Seq<u8> {
    seq![0x64u8, 0x72, 0x76, 0x66, 0x73]
}

/// The Windows path of the root of the distribution named `distro_name`:
/// `//wsl$/<name>`. Without a name the process is not in WSL.
pub fn get_unc_root(distro_name: Option<Vec<u8>>) -> (r: Result<Vec<u8>, NotWslError>)
    ensures
        match distro_name {
            None => r is Err,
            Some(d) => r is Ok && r->Ok_0@ == unc_prefix() + d@,
        },
{
    match distro_name {
        None => Err(NotWslError {}),
        Some(d) => {
            let mut path: Vec<u8> = Vec::with_capacity(7);
            path.push(0x2f);
            path.push(0x2f);
            path.push(0x77);
            path.push(0x73);
            path.push(0x6c);
            path.push(0x24);
            path.push(0x2f);
            append(&mut path, d.as_slice());
            assert(path@ =~= unc_prefix() + d@);
            Ok(path)
        },
    }
}

pub open spec fn mount_point_of(e: MountEntry) -> (Seq<u8>, Seq<u8>) {
    (e.dest@, e.source@)
}

/// The drvfs entries of a mount table, as (mount point, source) pairs, in order.
pub open spec fn drvfs_entries(entries: Seq<MountEntry>) -> Seq<(Seq<u8>, Seq<u8>)>
    decreases entries.len(),
{
    if entries.len() == 0 {
        Seq::empty()
    } else {
        let rest = drvfs_entries(entries.drop_last());
        if entries.last().fstype@ == drvfs() {
            rest.push(mount_point_of(entries.last()))
        } else {
            rest
        }
    }
}

pub open spec fn mount_points_view(m: Seq<DrvFsMountPoint>) -> Seq<(Seq<u8>, Seq<u8>)> {
    m.map_values(|p: DrvFsMountPoint| (p.wsl@, p.win@))
}

fn is_drvfs(fstype: &[u8]) -> (r: bool)
    ensures
        r == (fstype@ == drvfs()),
{
    if fstype.len() != 5 {
        return false;
    }
    let r = fstype[0] == 0x64 && fstype[1] == 0x72 && fstype[2] == 0x76 && fstype[3] == 0x66 && fstype[4] == 0x73;
    if r {
        assert(fstype@ =~= drvfs());
    }
    r
}

/// The drvfs mounts among the entries of the mount table, in order.
pub fn get_drvfs_mount_points(entries: Vec<MountEntry>) -> (r: Vec<DrvFsMountPoint>)
    ensures
        mount_points_view(r@) == drvfs_entries(entries@),
{
    let mut mounts: Vec<DrvFsMountPoint> = Vec::new();
    let mut i: usize = 0;
    while i < entries.len()
        invariant
            i <= entries@.len(),
            mount_points_view(mounts@) == drvfs_entries(entries@.subrange(0, i as int)),
        decreases entries@.len() - i,
    {
        let e = &entries[i];
        let ghost before = mounts@;
        proof {
            assert(entries@.subrange(0, i + 1).drop_last() =~= entries@.subrange(0, i as int));
        }
        if is_drvfs(e.fstype.as_slice()) {
            let mut wsl: Vec<u8> = Vec::new();
            append(&mut wsl, e.dest.as_slice());
            let mut win: Vec<u8> = Vec::new();
            append(&mut win, e.source.as_slice());
            mounts.push(DrvFsMountPoint { wsl, win });
            assert(mount_points_view(mounts@) =~= mount_points_view(before).push(mount_point_of(entries@[i as int])));
        }
        i = i + 1;
    }
    assert(entries@.subrange(0, entries@.len() as int) =~= entries@);
    mounts
}

} // verus!
