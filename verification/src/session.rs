//! The session and directory context, and privilege gating.
//!
//! A session is created at successful login and tracks the authenticated
//! identity, the active directory and the cosmetic path string shown at
//! the prompt.  The directory is modelled as a reference into the
//! caller's handle table — the filesystem handles themselves live with
//! the caller — and every directory change is paired with a path-string
//! change.  The privileged verbs, mount and unmount, run only behind an
//! elevation step that re-verifies the logged-in user's password against
//! the credential store; a failed elevation changes nothing.

use vstd::prelude::*;

use crate::bytes::{bytes_eq, copy_bytes};
use crate::credstore::{auth_ok, auwp, opt_view, root_name, root_name_bytes};
use crate::mount::{
    DiskId, MountOutcome, MountTable, UnmountOutcome, disk_name_bytes, disk_name_of,
    mount_outcome, mount_table_after, parse_disk, parse_disk_name, umount_outcome,
    umount_table_after,
};

verus! {

/// Byte value of `/`, the path separator.
pub const SLASH: u8 = 47;

/// A directory the session can have active, as a reference that the
/// caller's handle table gives meaning to.
#[derive(Clone, Copy, PartialEq, Eq, Structural, Debug)]
pub enum DirRef {
    /// The filesystem root of the primary disk.
    Root,
    /// The home directory on the primary disk.
    Home,
    /// The mount-point directory of an attached secondary disk.
    Mount(DiskId),
    /// A directory the caller opened and registered under an index.
    Opened(usize),
}

/// The interactive session of one logged-in user.
pub struct Session {
    /// The authenticated username.
    pub username: Vec<u8>,
    /// Whether the authenticated identity is the privileged account.
    pub is_root: bool,
    /// The active directory.
    pub dir: DirRef,
    /// The logical path string shown at the prompt; a cosmetic mirror
    /// of `dir`, updated with it.
    pub cur_path: Vec<u8>,
}

/// The path string a fresh session starts with: `/`.
pub open spec fn login_path() -> Seq<u8> {
    seq![SLASH]
}

/// The path string of a mount point: `/volumes/<disk>`.
pub open spec fn mount_path(d: DiskId) -> Seq<u8> {
    seq![
        SLASH,
        118u8,
        111u8,
        108u8,
        117u8,
        109u8,
        101u8,
        115u8,
        SLASH,
    ] + disk_name_of(d)
}

/// The path string of a mount point, as executable bytes.
pub fn mount_path_bytes(d: DiskId) -> (r: Vec<u8>)
    ensures
        r@ == mount_path(d),
{
    let mut r: Vec<u8> = Vec::new();
    r.push(SLASH);
    r.push(118);
    r.push(111);
    r.push(108);
    r.push(117);
    r.push(109);
    r.push(101);
    r.push(115);
    r.push(SLASH);
    let name = disk_name_bytes(d);
    let n = name.len();
    let mut i: usize = 0;
    while i < n
        invariant
            n == name@.len(),
            i <= n,
            name@ == disk_name_of(d),
            r@ == seq![
                SLASH,
                118u8,
                111u8,
                108u8,
                117u8,
                109u8,
                101u8,
                115u8,
                SLASH,
            ] + name@.subrange(0, i as int),
        decreases n - i,
    {
        r.push(name[i]);
        i = i + 1;
        proof {
            assert(r@ =~= seq![
                SLASH,
                118u8,
                111u8,
                108u8,
                117u8,
                109u8,
                101u8,
                115u8,
                SLASH,
            ] + name@.subrange(0, i as int));
        }
    }
    proof {
        assert(r@ =~= mount_path(d));
    }
    r
}

/// Log in: authenticate against the stored records and, on success,
/// create the session.  The primary disk is implicitly active; a
/// regular user starts in the home directory, the privileged user is
/// rebound to the filesystem root instead.  Wrong credentials create
/// nothing — the caller loops and prompts again.
pub fn login(
    root_rec: Option<&Vec<u8>>,
    users_rec: Option<&Vec<u8>>,
    username: &Vec<u8>,
    password: &Vec<u8>,
) -> (r: Option<Session>)
    ensures
        r is Some <==> auth_ok(opt_view(root_rec), opt_view(users_rec), username@, password@),
        r matches Some(s) ==> s.username@ == username@ && s.is_root == (username@ == root_name())
            && s.dir == (if username@ == root_name() {
            DirRef::Root
        } else {
            DirRef::Home
        }) && s.cur_path@ == login_path(),
{
    if !auwp(root_rec, users_rec, username, password) {
        return None;
    }
    let rn = root_name_bytes();
    let is_root = bytes_eq(username, &rn);
    let mut path: Vec<u8> = Vec::new();
    path.push(SLASH);
    proof {
        assert(path@ =~= login_path());
    }
    Some(
        Session {
            username: copy_bytes(username),
            is_root,
            dir: if is_root {
                DirRef::Root
            } else {
                DirRef::Home
            },
            cur_path: path,
        },
    )
}

/// Change directory.  The caller resolves `name` against the active
/// directory and passes the resulting handle reference, or `None` where
/// no such directory exists.  On success both the handle and the path
/// string move together; on failure neither changes and the caller
/// reports not-found.
pub fn cd(session: &mut Session, name: &Vec<u8>, target: Option<DirRef>) -> (r: bool)
    ensures
        r == (target is Some),
        target matches Some(d) ==> final(session).dir == d
            && final(session).cur_path@ == old(session).cur_path@ + seq![SLASH] + name@
            && final(session).username == old(session).username
            && final(session).is_root == old(session).is_root,
        target is None ==> *final(session) == *old(session),
{
    match target {
        Some(d) => {
            session.dir = d;
            let ghost before = session.cur_path@;
            session.cur_path.push(SLASH);
            let n = name.len();
            let mut i: usize = 0;
            while i < n
                invariant
                    n == name@.len(),
                    i <= n,
                    session.cur_path@ == before + seq![SLASH] + name@.subrange(0, i as int),
                    session.dir == d,
                    session.username == old(session).username,
                    session.is_root == old(session).is_root,
                decreases n - i,
            {
                session.cur_path.push(name[i]);
                i = i + 1;
                proof {
                    assert(session.cur_path@ =~= before + seq![SLASH] + name@.subrange(
                        0,
                        i as int,
                    ));
                }
            }
            proof {
                assert(session.cur_path@ =~= before + seq![SLASH] + name@);
            }
            true
        },
        None => false,
    }
}

/// Mount a disk by name.  The table takes the disk; on success the
/// session's active directory is rebound to the mount point, path
/// string included.  Every failure leaves both untouched and is only
/// reported.
pub fn mountdisk(
    name: &Vec<u8>,
    table: &mut MountTable,
    session: &mut Session,
    image_exists: bool,
) -> (r: MountOutcome)
    ensures
        *final(table) == mount_table_after(*old(table), name@, image_exists),
        r == mount_outcome(*old(table), name@, image_exists),
        r == MountOutcome::Mounted ==> (parse_disk(name@) matches Some(d)
            && final(session).dir == DirRef::Mount(d)
            && final(session).cur_path@ == mount_path(d)
            && final(session).username == old(session).username
            && final(session).is_root == old(session).is_root),
        r != MountOutcome::Mounted ==> *final(session) == *old(session),
{
    match parse_disk_name(name) {
        None => MountOutcome::InvalidName,
        Some(DiskId::Disk0) => MountOutcome::RootAlready,
        Some(d) => {
            if !image_exists {
                return MountOutcome::ImageMissing;
            }
            let mounted = match d {
                DiskId::Disk0 => false,
                DiskId::Disk1 => table.disk1,
                DiskId::Disk2 => table.disk2,
            };
            if mounted {
                return MountOutcome::AlreadyMounted;
            }
            match d {
                DiskId::Disk0 => {},
                DiskId::Disk1 => {
                    table.disk1 = true;
                },
                DiskId::Disk2 => {
                    table.disk2 = true;
                },
            }
            session.dir = DirRef::Mount(d);
            session.cur_path = mount_path_bytes(d);
            MountOutcome::Mounted
        },
    }
}

/// Unmount a disk by name.  Only a mounted secondary disk leaves the
/// table; the root disk is kept, everything else is only reported.  The
/// active directory is not touched.
pub fn umountdisk(name: &Vec<u8>, table: &mut MountTable) -> (r: UnmountOutcome)
    ensures
        *final(table) == umount_table_after(*old(table), name@),
        r == umount_outcome(*old(table), name@),
{
    match parse_disk_name(name) {
        None => UnmountOutcome::InvalidName,
        Some(DiskId::Disk0) => UnmountOutcome::RootKept,
        Some(d) => {
            let mounted = match d {
                DiskId::Disk0 => false,
                DiskId::Disk1 => table.disk1,
                DiskId::Disk2 => table.disk2,
            };
            if !mounted {
                return UnmountOutcome::NotMounted;
            }
            match d {
                DiskId::Disk0 => {},
                DiskId::Disk1 => {
                    table.disk1 = false;
                },
                DiskId::Disk2 => {
                    table.disk2 = false;
                },
            }
            UnmountOutcome::Unmounted
        },
    }
}

/// Mount behind the elevation flow: the freshly prompted password is
/// verified against the *logged-in* username first.  A failed elevation
/// is denied with zero mutation of table and session.
pub fn sudo_mount(
    name: &Vec<u8>,
    password: &Vec<u8>,
    root_rec: Option<&Vec<u8>>,
    users_rec: Option<&Vec<u8>>,
    table: &mut MountTable,
    session: &mut Session,
    image_exists: bool,
) -> (r: MountOutcome)
    ensures
        !auth_ok(opt_view(root_rec), opt_view(users_rec), old(session).username@, password@)
            ==> r == MountOutcome::Denied && *final(table) == *old(table) && *final(session)
            == *old(session),
        auth_ok(opt_view(root_rec), opt_view(users_rec), old(session).username@, password@) ==> {
            &&& *final(table) == mount_table_after(*old(table), name@, image_exists)
            &&& r == mount_outcome(*old(table), name@, image_exists)
            &&& (r == MountOutcome::Mounted ==> (parse_disk(name@) matches Some(d)
                && final(session).dir == DirRef::Mount(d)
                && final(session).cur_path@ == mount_path(d)
                && final(session).username == old(session).username
                && final(session).is_root == old(session).is_root))
            &&& (r != MountOutcome::Mounted ==> *final(session) == *old(session))
        },
{
    if !auwp(root_rec, users_rec, &session.username, password) {
        return MountOutcome::Denied;
    }
    mountdisk(name, table, session, image_exists)
}

/// Unmount behind the elevation flow, gated exactly as `sudo_mount`.
pub fn sudo_umount(
    name: &Vec<u8>,
    password: &Vec<u8>,
    root_rec: Option<&Vec<u8>>,
    users_rec: Option<&Vec<u8>>,
    table: &mut MountTable,
    session: &Session,
) -> (r: UnmountOutcome)
    ensures
        !auth_ok(opt_view(root_rec), opt_view(users_rec), session.username@, password@) ==> r
            == UnmountOutcome::Denied && *final(table) == *old(table),
        auth_ok(opt_view(root_rec), opt_view(users_rec), session.username@, password@)
            ==> *final(table) == umount_table_after(*old(table), name@)
            && r == umount_outcome(*old(table), name@),
{
    if !auwp(root_rec, users_rec, &session.username, password) {
        return UnmountOutcome::Denied;
    }
    umountdisk(name, table)
}

/// The command words that demand the elevation flow: `mount`.
pub open spec fn mount_cmd() -> Seq<u8> {
    seq![109u8, 111u8, 117u8, 110u8, 116u8]
}

/// ... and `umount`.
pub open spec fn umount_cmd() -> Seq<u8> {
    seq![117u8, 109u8, 111u8, 117u8, 110u8, 116u8]
}

/// Whether a command word demands the elevation flow.  The dispatcher
/// rejects such a command outright when issued plainly, so a session
/// that never elevates never reaches the mount table at all.
pub fn requires_sudo(cmd: &Vec<u8>) -> (r: bool)
    ensures
        r == (cmd@ == mount_cmd() || cmd@ == umount_cmd()),
{
    let mut m: Vec<u8> = Vec::new();
    m.push(109);
    m.push(111);
    m.push(117);
    m.push(110);
    m.push(116);
    proof {
        assert(m@ =~= mount_cmd());
    }
    if bytes_eq(cmd, &m) {
        return true;
    }
    let mut u: Vec<u8> = Vec::new();
    u.push(117);
    u.push(109);
    u.push(111);
    u.push(117);
    u.push(110);
    u.push(116);
    proof {
        assert(u@ =~= umount_cmd());
    }
    bytes_eq(cmd, &u)
}

/// Whether the logged-in user may reset the root disk: only the
/// privileged account itself.
pub fn resetroot_allowed(session: &Session) -> (r: bool)
    ensures
        r == (session.username@ == root_name()),
{
    let rn = root_name_bytes();
    bytes_eq(&session.username, &rn)
}

} // verus!
