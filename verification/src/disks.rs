//! Free space on the disk that holds a folder.
use vstd::prelude::*;
use crate::error::BackupResult;
use crate::text::{starts_with, starts_with_spec};

verus! {

/// A mounted disk: where it is mounted and how many bytes are free on it.
pub struct DiskSpace {
    pub mount_point: String,
    pub available: u64,
}

/// Calls `sysinfo::Disks::new_with_refreshed_list` and reads each disk's
/// mount point (lossily decoded) and free space. What the system reports
/// changes from one call to the next, so nothing is stated of it.
#[verifier::external_body]
pub(crate) fn list_disks() -> Vec<DiskSpace> {
    let disks = sysinfo::Disks::new_with_refreshed_list();
    let mut out = Vec::new();
    for disk in disks.iter() {
        out.push(DiskSpace {
            mount_point: disk.mount_point().to_string_lossy().into_owned(),
            available: disk.available_space(),
        });
    }
    out
}

/// The free space for `path`: that of the first disk whose mount point
/// begins the path, or that is mounted at `/`; half the largest `u64` when
/// no disk matches.
pub open spec fn space_for(path: Seq<char>, disks: Seq<DiskSpace>) -> u64
    decreases disks.len(),
{
    if disks.len() == 0 {
        (u64::MAX / 2) as u64
    } else if starts_with_spec(path, disks[0].mount_point@) || disks[0].mount_point@ == "/"@ {
        disks[0].available
    } else {
        space_for(path, disks.drop_first())
    }
}

/// The free space for `path` among the given disks.
pub fn available_space_for(path: &str, disks: &Vec<DiskSpace>) -> (r: u64)
    ensures
        r == space_for(path@, disks@),
{
    let mut i: usize = 0;
    assert(disks@.subrange(0, disks@.len() as int) =~= disks@);
    while i < disks.len()
        invariant
            i <= disks.len(),
            space_for(path@, disks@) == space_for(path@, disks@.subrange(i as int, disks@.len() as int)),
        decreases disks.len() - i,
    {
        let ghost rest = disks@.subrange(i as int, disks@.len() as int);
        assert(rest[0] == disks@[i as int]);
        assert(rest.drop_first() =~= disks@.subrange(i + 1, disks@.len() as int));
        let mount = disks[i].mount_point.as_str();
        if starts_with(path, mount) || crate::text::str_eq(mount, "/") {
            return disks[i].available;
        }
        i = i + 1;
    }
    assert(disks@.subrange(i as int, disks@.len() as int) =~= Seq::<DiskSpace>::empty());
    0xffff_ffff_ffff_ffff / 2
}

/// The free space for the folder `path`, from the disks the system reports
/// now (`space_for` of that list); never an error.
pub fn get_available_space(path: &str) -> (r: BackupResult<u64>)
    ensures
        r is Ok,
{
    let disks = list_disks();
    Ok(available_space_for(path, &disks))
}

} // verus!
