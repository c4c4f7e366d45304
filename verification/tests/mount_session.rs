use rnix_shell::credstore::{SetupOutcome, bootstrap_root_default, setup};
use rnix_shell::mount::{DiskId, MountOutcome, MountTable, UnmountOutcome, mounted_disks};
use rnix_shell::session::{
    DirRef, Session, cd, login, mountdisk, requires_sudo, resetroot_allowed, sudo_mount,
    sudo_umount, umountdisk,
};

fn user_store(name: &[u8], password: &[u8]) -> Vec<u8> {
    match setup(None, &name.to_vec(), &password.to_vec()) {
        Ok(SetupOutcome::Created(w)) => w,
        _ => panic!("setup on an absent record must create it"),
    }
}

fn root_store() -> Vec<u8> {
    bootstrap_root_default(None)
        .expect("hashing must succeed")
        .expect("first bootstrap must write")
}

fn alice_session() -> Session {
    let users = user_store(b"alice", b"secret1");
    login(None, Some(&users), &b"alice".to_vec(), &b"secret1".to_vec())
        .expect("login with the right password must succeed")
}

#[test]
fn mount_then_remount_reports_already_mounted() {
    let mut table = MountTable::new();
    let mut session = alice_session();
    let disk1 = b"disk1".to_vec();
    assert_eq!(mountdisk(&disk1, &mut table, &mut session, true), MountOutcome::Mounted);
    let after_first = table;
    assert!(table.disk1);
    assert_eq!(
        mountdisk(&disk1, &mut table, &mut session, true),
        MountOutcome::AlreadyMounted
    );
    assert_eq!(table, after_first);
}

#[test]
fn unmount_then_again_reports_not_mounted() {
    let mut table = MountTable::new();
    let mut session = alice_session();
    let disk1 = b"disk1".to_vec();
    assert_eq!(mountdisk(&disk1, &mut table, &mut session, true), MountOutcome::Mounted);
    assert_eq!(umountdisk(&disk1, &mut table), UnmountOutcome::Unmounted);
    let after = table;
    assert_eq!(umountdisk(&disk1, &mut table), UnmountOutcome::NotMounted);
    assert_eq!(table, after);
    assert!(!table.disk1 && !table.disk2);
}

#[test]
fn disk0_never_alters_the_table() {
    let mut table = MountTable::new();
    let mut session = alice_session();
    let disk0 = b"disk0".to_vec();
    assert_eq!(mountdisk(&disk0, &mut table, &mut session, true), MountOutcome::RootAlready);
    assert_eq!(table, MountTable::new());
    assert_eq!(umountdisk(&disk0, &mut table), UnmountOutcome::RootKept);
    assert_eq!(table, MountTable::new());
}

#[test]
fn invalid_disk_name_leaves_empty_table_unchanged() {
    let mut table = MountTable::new();
    let mut session = alice_session();
    let disk3 = b"disk3".to_vec();
    assert_eq!(mountdisk(&disk3, &mut table, &mut session, true), MountOutcome::InvalidName);
    assert_eq!(table, MountTable::new());
    assert_eq!(umountdisk(&disk3, &mut table), UnmountOutcome::InvalidName);
    assert_eq!(table, MountTable::new());
}

#[test]
fn missing_image_is_reported_without_mutation() {
    let mut table = MountTable::new();
    let mut session = alice_session();
    let before_dir = session.dir;
    assert_eq!(
        mountdisk(&b"disk2".to_vec(), &mut table, &mut session, false),
        MountOutcome::ImageMissing
    );
    assert_eq!(table, MountTable::new());
    assert_eq!(session.dir, before_dir);
}

#[test]
fn mounting_rebinds_the_session_directory() {
    let mut table = MountTable::new();
    let mut session = alice_session();
    assert_eq!(
        mountdisk(&b"disk2".to_vec(), &mut table, &mut session, true),
        MountOutcome::Mounted
    );
    assert_eq!(session.dir, DirRef::Mount(DiskId::Disk2));
    assert_eq!(session.cur_path, b"/volumes/disk2".to_vec());
}

#[test]
fn sudo_mount_with_wrong_password_is_denied_without_mutation() {
    let users = user_store(b"alice", b"secret1");
    let mut session =
        login(None, Some(&users), &b"alice".to_vec(), &b"secret1".to_vec()).unwrap();
    let mut table = MountTable::new();
    let before_dir = session.dir;
    let r = sudo_mount(
        &b"disk1".to_vec(),
        &b"wrong".to_vec(),
        None,
        Some(&users),
        &mut table,
        &mut session,
        true,
    );
    assert_eq!(r, MountOutcome::Denied);
    assert_eq!(table, MountTable::new());
    assert_eq!(session.dir, before_dir);
    assert_eq!(session.username, b"alice".to_vec());
}

#[test]
fn sudo_mount_with_fresh_password_succeeds() {
    let users = user_store(b"alice", b"secret1");
    let mut session =
        login(None, Some(&users), &b"alice".to_vec(), &b"secret1".to_vec()).unwrap();
    let mut table = MountTable::new();
    let r = sudo_mount(
        &b"disk1".to_vec(),
        &b"secret1".to_vec(),
        None,
        Some(&users),
        &mut table,
        &mut session,
        true,
    );
    assert_eq!(r, MountOutcome::Mounted);
    assert!(table.disk1);
    assert_eq!(session.dir, DirRef::Mount(DiskId::Disk1));
}

#[test]
fn sudo_umount_is_gated_the_same_way() {
    let users = user_store(b"alice", b"secret1");
    let mut session =
        login(None, Some(&users), &b"alice".to_vec(), &b"secret1".to_vec()).unwrap();
    let mut table = MountTable::new();
    assert_eq!(
        mountdisk(&b"disk1".to_vec(), &mut table, &mut session, true),
        MountOutcome::Mounted
    );
    let before = table;
    let denied = sudo_umount(
        &b"disk1".to_vec(),
        &b"wrong".to_vec(),
        None,
        Some(&users),
        &mut table,
        &session,
    );
    assert_eq!(denied, UnmountOutcome::Denied);
    assert_eq!(table, before);
    let ok = sudo_umount(
        &b"disk1".to_vec(),
        &b"secret1".to_vec(),
        None,
        Some(&users),
        &mut table,
        &session,
    );
    assert_eq!(ok, UnmountOutcome::Unmounted);
    assert!(!table.disk1);
}

#[test]
fn mount_and_umount_demand_elevation() {
    assert!(requires_sudo(&b"mount".to_vec()));
    assert!(requires_sudo(&b"umount".to_vec()));
    assert!(!requires_sudo(&b"ls".to_vec()));
    assert!(!requires_sudo(&b"listdisks".to_vec()));
}

#[test]
fn login_binds_home_for_users_and_root_for_root() {
    let root_rec = root_store();
    let users = user_store(b"alice", b"secret1");

    let s = login(Some(&root_rec), Some(&users), &b"alice".to_vec(), &b"secret1".to_vec())
        .expect("alice must log in");
    assert!(!s.is_root);
    assert_eq!(s.dir, DirRef::Home);
    assert_eq!(s.cur_path, b"/".to_vec());

    let r = login(Some(&root_rec), Some(&users), &b"root".to_vec(), &b"iloveapple".to_vec())
        .expect("root must log in");
    assert!(r.is_root);
    assert_eq!(r.dir, DirRef::Root);

    assert!(login(Some(&root_rec), Some(&users), &b"alice".to_vec(), &b"bad".to_vec())
        .is_none());
    assert!(login(Some(&root_rec), Some(&users), &b"mallory".to_vec(), &b"secret1".to_vec())
        .is_none());
}

#[test]
fn cd_moves_handle_and_path_together() {
    let mut session = alice_session();
    let ok = cd(&mut session, &b"docs".to_vec(), Some(DirRef::Opened(0)));
    assert!(ok);
    assert_eq!(session.dir, DirRef::Opened(0));
    assert_eq!(session.cur_path, b"//docs".to_vec());

    let before_path = session.cur_path.clone();
    let missing = cd(&mut session, &b"nope".to_vec(), None);
    assert!(!missing);
    assert_eq!(session.dir, DirRef::Opened(0));
    assert_eq!(session.cur_path, before_path);
}

#[test]
fn only_root_may_reset_the_root_disk() {
    let root_rec = root_store();
    let users = user_store(b"alice", b"secret1");
    let alice = login(None, Some(&users), &b"alice".to_vec(), &b"secret1".to_vec()).unwrap();
    assert!(!resetroot_allowed(&alice));
    let root =
        login(Some(&root_rec), None, &b"root".to_vec(), &b"iloveapple".to_vec()).unwrap();
    assert!(resetroot_allowed(&root));
}

#[test]
fn listing_names_exactly_the_attached_disks() {
    let mut table = MountTable::new();
    let mut session = alice_session();
    assert_eq!(mounted_disks(&table), Vec::<Vec<u8>>::new());
    mountdisk(&b"disk2".to_vec(), &mut table, &mut session, true);
    assert_eq!(mounted_disks(&table), vec![b"disk2".to_vec()]);
    mountdisk(&b"disk1".to_vec(), &mut table, &mut session, true);
    assert_eq!(mounted_disks(&table), vec![b"disk1".to_vec(), b"disk2".to_vec()]);
    umountdisk(&b"disk1".to_vec(), &mut table);
    assert_eq!(mounted_disks(&table), vec![b"disk2".to_vec()]);
}
