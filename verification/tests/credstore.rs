use rnix_shell::codec::edcrypt;
use rnix_shell::credstore::{
    SetupOutcome, auwp, bootstrap_root, bootstrap_root_default, default_root_password_bytes,
    setup,
};
use rnix_shell::hasher::{hashp, verify_password};

fn hash(password: &[u8]) -> Vec<u8> {
    hashp(&password.to_vec()).expect("hashing failed")
}

fn fresh_user_store(name: &[u8], password: &[u8]) -> Vec<u8> {
    match setup(None, &name.to_vec(), &password.to_vec()) {
        Ok(SetupOutcome::Created(w)) => w,
        _ => panic!("setup on an absent record must create it"),
    }
}

#[test]
fn verify_accepts_matching_password() {
    let digest = hash(b"secret1");
    assert!(verify_password(&b"secret1".to_vec(), &digest));
}

#[test]
fn verify_rejects_other_password() {
    let digest = hash(b"secret1");
    assert!(!verify_password(&b"secret2".to_vec(), &digest));
    assert!(!verify_password(&b"".to_vec(), &digest));
}

#[test]
fn verify_rejects_malformed_digest() {
    assert!(!verify_password(&b"secret1".to_vec(), &b"not a digest".to_vec()));
    assert!(!verify_password(&b"secret1".to_vec(), &Vec::new()));
    // Not UTF-8 at all.
    assert!(!verify_password(&b"secret1".to_vec(), &vec![0xff, 0xfe, 0x24]));
}

#[test]
fn bootstrap_root_writes_once_then_never_again() {
    let digest = hash(b"iloveapple");
    let written = bootstrap_root(None, &digest).expect("first bootstrap must write");
    // The stored bytes de-obfuscate to the expected record line.
    let mut plain = written.clone();
    edcrypt(&mut plain);
    let mut expected = b"root:".to_vec();
    expected.extend_from_slice(&digest);
    assert_eq!(plain, expected);
    // A second pass leaves the stored record byte-identical: it writes
    // nothing, even with a fresh digest in hand.
    let digest2 = hash(b"iloveapple");
    assert!(bootstrap_root(Some(&written), &digest2).is_none());
    assert_eq!(bootstrap_root_default(Some(&written)), Ok(None));
}

#[test]
fn default_root_password_authenticates_after_bootstrap() {
    let pw = default_root_password_bytes();
    assert_eq!(pw, b"iloveapple".to_vec());
    let stored = bootstrap_root_default(None)
        .expect("hashing must succeed")
        .expect("first bootstrap must write");
    assert!(auwp(Some(&stored), None, &b"root".to_vec(), &pw));
    assert!(!auwp(Some(&stored), None, &b"root".to_vec(), &b"wrong".to_vec()));
}

#[test]
fn setup_creates_the_first_user_account() {
    let written = fresh_user_store(b"alice", b"secret1");
    let mut plain = written.clone();
    edcrypt(&mut plain);
    assert!(plain.starts_with(b"alice:"));
    // The fresh store then authenticates exactly the collected account.
    assert!(auwp(None, Some(&written), &b"alice".to_vec(), &b"secret1".to_vec()));
    assert!(!auwp(None, Some(&written), &b"alice".to_vec(), &b"wrong".to_vec()));
    assert!(!auwp(None, Some(&written), &b"bob".to_vec(), &b"secret1".to_vec()));
}

#[test]
fn setup_parses_an_existing_store() {
    let written = fresh_user_store(b"alice", b"secret1");
    let mut plain = written.clone();
    edcrypt(&mut plain);
    match setup(Some(&written), &b"ignored".to_vec(), &b"ignored".to_vec()) {
        Ok(SetupOutcome::Existing(lines)) => {
            assert_eq!(lines.len(), 1);
            assert_eq!(lines[0], plain);
        },
        _ => panic!("setup on a valid record must report its accounts"),
    }
}

#[test]
fn setup_reports_empty_store_as_corruption() {
    let empty: Vec<u8> = Vec::new();
    assert!(matches!(
        setup(Some(&empty), &b"x".to_vec(), &b"pw".to_vec()),
        Ok(SetupOutcome::Corrupt)
    ));
    // Whitespace-only content parses to no accounts as well.
    let mut blank = b"\n  \n".to_vec();
    edcrypt(&mut blank);
    assert!(matches!(
        setup(Some(&blank), &b"x".to_vec(), &b"pw".to_vec()),
        Ok(SetupOutcome::Corrupt)
    ));
}

#[test]
fn missing_records_deny_everyone() {
    assert!(!auwp(None, None, &b"root".to_vec(), &b"iloveapple".to_vec()));
    assert!(!auwp(None, None, &b"alice".to_vec(), &b"secret1".to_vec()));
}

#[test]
fn any_matching_line_authenticates() {
    let d1 = hash(b"first");
    let d2 = hash(b"second");
    let mut plain = b"alice:".to_vec();
    plain.extend_from_slice(&d1);
    plain.push(b'\n');
    plain.extend_from_slice(b"alice:");
    plain.extend_from_slice(&d2);
    let mut stored = plain.clone();
    edcrypt(&mut stored);
    assert!(auwp(None, Some(&stored), &b"alice".to_vec(), &b"first".to_vec()));
    assert!(auwp(None, Some(&stored), &b"alice".to_vec(), &b"second".to_vec()));
    assert!(!auwp(None, Some(&stored), &b"alice".to_vec(), &b"third".to_vec()));
}

#[test]
fn non_utf8_store_denies_everyone() {
    let d1 = hash(b"secret1");
    let mut plain = b"alice:".to_vec();
    plain.extend_from_slice(&d1);
    plain.push(b'\n');
    plain.push(0xff);
    let mut stored = plain.clone();
    edcrypt(&mut stored);
    assert!(!auwp(None, Some(&stored), &b"alice".to_vec(), &b"secret1".to_vec()));
}

#[test]
fn root_lookup_never_reads_the_user_store() {
    // A user record that names `root` does not grant root access; the
    // root account lives only in its own record.
    let written = fresh_user_store(b"root", b"sneaky");
    assert!(!auwp(None, Some(&written), &b"root".to_vec(), &b"sneaky".to_vec()));
}
