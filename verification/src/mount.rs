//! The mount table.
//!
//! The primary disk, `disk0`, is always implicitly attached and never a
//! member of the table.  Only `disk1` and `disk2` can be attached, each
//! at most once, so the table is two flags.  Every operation is total:
//! a bad name, a missing image, a double mount or a double unmount is an
//! outcome reported to the operator, never an error and never a change
//! to the table.

use vstd::prelude::*;

use crate::bytes::{bytes_eq, views_of};

verus! {

/// A disk the shell knows by name.
#[derive(Clone, Copy, PartialEq, Eq, Structural, Debug)]
pub enum DiskId {
    Disk0,
    Disk1,
    Disk2,
}

/// The byte name `disk0`.
pub open spec fn disk0_name() -> Seq<u8> {
    seq![100u8, 105u8, 115u8, 107u8, 48u8]
}

/// The byte name `disk1`.
pub open spec fn disk1_name() -> Seq<u8> {
    seq![100u8, 105u8, 115u8, 107u8, 49u8]
}

/// The byte name `disk2`.
pub open spec fn disk2_name() -> Seq<u8> {
    seq![100u8, 105u8, 115u8, 107u8, 50u8]
}

/// The byte name of a disk.
pub open spec fn disk_name_of(d: DiskId) -> Seq<u8> {
    match d {
        DiskId::Disk0 => disk0_name(),
        DiskId::Disk1 => disk1_name(),
        DiskId::Disk2 => disk2_name(),
    }
}

/// Which disk a name denotes; every other name is invalid.
pub open spec fn parse_disk(name: Seq<u8>) -> Option<DiskId> {
    if name == disk0_name() {
        Some(DiskId::Disk0)
    } else if name == disk1_name() {
        Some(DiskId::Disk1)
    } else if name == disk2_name() {
        Some(DiskId::Disk2)
    } else {
        None
    }
}

/// The byte name of a disk, as executable bytes.
pub fn disk_name_bytes(d: DiskId) -> (r: Vec<u8>)
    ensures
        r@ == disk_name_of(d),
{
    let mut r: Vec<u8> = Vec::new();
    r.push(100);
    r.push(105);
    r.push(115);
    r.push(107);
    match d {
        DiskId::Disk0 => r.push(48),
        DiskId::Disk1 => r.push(49),
        DiskId::Disk2 => r.push(50),
    }
    proof {
        assert(r@ =~= disk_name_of(d));
    }
    r
}

/// Parse a disk name.
pub fn parse_disk_name(name: &Vec<u8>) -> (r: Option<DiskId>)
    ensures
        r == parse_disk(name@),
{
    let d0 = disk_name_bytes(DiskId::Disk0);
    if bytes_eq(name, &d0) {
        return Some(DiskId::Disk0);
    }
    let d1 = disk_name_bytes(DiskId::Disk1);
    if bytes_eq(name, &d1) {
        return Some(DiskId::Disk1);
    }
    let d2 = disk_name_bytes(DiskId::Disk2);
    if bytes_eq(name, &d2) {
        return Some(DiskId::Disk2);
    }
    None
}

/// Which secondary disks are currently attached.
#[derive(Clone, Copy, PartialEq, Eq, Structural, Debug)]
pub struct MountTable {
    pub disk1: bool,
    pub disk2: bool,
}

impl MountTable {
    /// Membership: `disk0` is never a member.
    pub open spec fn contains(self, d: DiskId) -> bool {
        match d {
            DiskId::Disk0 => false,
            DiskId::Disk1 => self.disk1,
            DiskId::Disk2 => self.disk2,
        }
    }

    /// How many disks are attached.
    pub open spec fn size(self) -> int {
        (if self.disk1 {
            1int
        } else {
            0int
        }) + (if self.disk2 {
            1int
        } else {
            0int
        })
    }

    /// The table with `d` attached; attaching `disk0` means nothing.
    pub open spec fn with_mounted(self, d: DiskId) -> MountTable {
        match d {
            DiskId::Disk0 => self,
            DiskId::Disk1 => MountTable { disk1: true, disk2: self.disk2 },
            DiskId::Disk2 => MountTable { disk1: self.disk1, disk2: true },
        }
    }

    /// The table with `d` detached; detaching `disk0` means nothing.
    pub open spec fn with_unmounted(self, d: DiskId) -> MountTable {
        match d {
            DiskId::Disk0 => self,
            DiskId::Disk1 => MountTable { disk1: false, disk2: self.disk2 },
            DiskId::Disk2 => MountTable { disk1: self.disk1, disk2: false },
        }
    }

    /// An empty table: nothing attached.
    pub fn new() -> (t: MountTable)
        ensures
            t == (MountTable { disk1: false, disk2: false }),
    {
        MountTable { disk1: false, disk2: false }
    }
}

/// The table's invariant holds of every table by construction: `disk0`
/// is never a member and at most the two secondary disks are attached.
pub proof fn lemma_mount_table_invariant(t: MountTable)
    ensures
        !t.contains(DiskId::Disk0),
        0 <= t.size() <= 2,
{
}

/// The names of the attached disks, `disk1` before `disk2`.
pub open spec fn mounted_names(t: MountTable) -> Seq<Seq<u8>> {
    (if t.disk1 {
        seq![disk1_name()]
    } else {
        Seq::<Seq<u8>>::empty()
    }) + (if t.disk2 {
        seq![disk2_name()]
    } else {
        Seq::<Seq<u8>>::empty()
    })
}

/// List the attached disks for the operator.
pub fn mounted_disks(table: &MountTable) -> (r: Vec<Vec<u8>>)
    ensures
        views_of(r@) == mounted_names(*table),
        r@.len() == table.size(),
{
    let mut r: Vec<Vec<u8>> = Vec::new();
    if table.disk1 {
        r.push(disk_name_bytes(DiskId::Disk1));
    }
    if table.disk2 {
        r.push(disk_name_bytes(DiskId::Disk2));
    }
    proof {
        assert(views_of(r@) =~~= mounted_names(*table));
    }
    r
}

/// What a mount attempt reports.
#[derive(Clone, Copy, PartialEq, Eq, Structural, Debug)]
pub enum MountOutcome {
    /// `disk0` is the already-active root; mounting it is a no-op.
    RootAlready,
    /// The disk was attached and the session moved to its mount point.
    Mounted,
    /// The disk is already a member of the table; nothing changed.
    AlreadyMounted,
    /// The backing image file is absent; nothing changed.
    ImageMissing,
    /// Not a mountable name; nothing changed.
    InvalidName,
    /// The elevation password was wrong; nothing changed.
    Denied,
}

/// What an unmount attempt reports.
#[derive(Clone, Copy, PartialEq, Eq, Structural, Debug)]
pub enum UnmountOutcome {
    /// The root disk cannot be unmounted.
    RootKept,
    /// The disk was detached.
    Unmounted,
    /// The disk is not a member of the table; nothing changed.
    NotMounted,
    /// Not an unmountable name; nothing changed.
    InvalidName,
    /// The elevation password was wrong; nothing changed.
    Denied,
}

/// The table after a mount attempt of `name` when the backing image's
/// presence is `image_exists`.
pub open spec fn mount_table_after(t: MountTable, name: Seq<u8>, image_exists: bool) -> MountTable {
    match parse_disk(name) {
        Some(DiskId::Disk1) | Some(DiskId::Disk2) => {
            let d = parse_disk(name).unwrap();
            if image_exists && !t.contains(d) {
                t.with_mounted(d)
            } else {
                t
            }
        },
        _ => t,
    }
}

/// What that mount attempt reports.
pub open spec fn mount_outcome(t: MountTable, name: Seq<u8>, image_exists: bool) -> MountOutcome {
    match parse_disk(name) {
        None => MountOutcome::InvalidName,
        Some(DiskId::Disk0) => MountOutcome::RootAlready,
        Some(d) => if !image_exists {
            MountOutcome::ImageMissing
        } else if t.contains(d) {
            MountOutcome::AlreadyMounted
        } else {
            MountOutcome::Mounted
        },
    }
}

/// The table after an unmount attempt of `name`.
pub open spec fn umount_table_after(t: MountTable, name: Seq<u8>) -> MountTable {
    match parse_disk(name) {
        Some(DiskId::Disk1) | Some(DiskId::Disk2) => {
            let d = parse_disk(name).unwrap();
            if t.contains(d) {
                t.with_unmounted(d)
            } else {
                t
            }
        },
        _ => t,
    }
}

/// What that unmount attempt reports.
pub open spec fn umount_outcome(t: MountTable, name: Seq<u8>) -> UnmountOutcome {
    match parse_disk(name) {
        None => UnmountOutcome::InvalidName,
        Some(DiskId::Disk0) => UnmountOutcome::RootKept,
        Some(d) => if t.contains(d) {
            UnmountOutcome::Unmounted
        } else {
            UnmountOutcome::NotMounted
        },
    }
}

/// After a mount succeeds, mounting the same name again reports
/// already-mounted and leaves the table unchanged.
pub proof fn lemma_mount_twice(t: MountTable, name: Seq<u8>)
    requires
        mount_outcome(t, name, true) == MountOutcome::Mounted,
    ensures
        mount_outcome(mount_table_after(t, name, true), name, true) == MountOutcome::AlreadyMounted,
        mount_table_after(mount_table_after(t, name, true), name, true) == mount_table_after(
            t,
            name,
            true,
        ),
{
}

/// After an unmount succeeds, unmounting the same name again reports
/// not-mounted and leaves the table unchanged.
pub proof fn lemma_unmount_twice(t: MountTable, name: Seq<u8>)
    requires
        umount_outcome(t, name) == UnmountOutcome::Unmounted,
    ensures
        umount_outcome(umount_table_after(t, name), name) == UnmountOutcome::NotMounted,
        umount_table_after(umount_table_after(t, name), name) == umount_table_after(t, name),
{
}

/// Mounting or unmounting `disk0` never alters the table; neither does
/// any attempt with an invalid name.
pub proof fn lemma_root_and_invalid_keep_table(t: MountTable, name: Seq<u8>, image_exists: bool)
    requires
        parse_disk(name) == Some(DiskId::Disk0) || parse_disk(name) is None,
    ensures
        mount_table_after(t, name, image_exists) == t,
        umount_table_after(t, name) == t,
{
}

} // verus!
