//! The credential store.
//!
//! Accounts are `name:digest` lines.  The privileged account, `root`,
//! lives in a record of its own; regular users share a second record as
//! newline-delimited lines.  Both records are passed through the
//! obfuscation codec before they are persisted.  This module states and
//! decides everything about those records — bootstrap, first-run setup
//! and authentication — over the raw record bytes; reading and writing
//! the records inside the disk image is the caller's business.

use vstd::prelude::*;

use crate::bytes::{
    COLON, NEWLINE, bytes_eq, copy_bytes, is_space, split, split_bytes, trim, trim_bytes,
    views_of, lemma_split_concat, lemma_split_no_sep, lemma_trim_id,
};
use crate::codec::{codec_of, edcrypt, lemma_codec_involution};
use crate::hasher::{bcrypt_verifies, digest_byte_ok, digest_wf, hashp, verify_password};
use crate::utf8::{check_utf8, is_utf8, lemma_ascii_is_utf8};

verus! {

/// The name of the privileged account: `root`.
pub open spec fn root_name() -> Seq<u8> {
    seq![114u8, 111u8, 111u8, 116u8]
}

/// The name of the privileged account, as executable bytes.
pub fn root_name_bytes() -> (r: Vec<u8>)
    ensures
        r@ == root_name(),
{
    let mut r: Vec<u8> = Vec::new();
    r.push(114);
    r.push(111);
    r.push(111);
    r.push(116);
    proof {
        assert(r@ =~= root_name());
    }
    r
}

/// The default root password, hashed at first bootstrap: `iloveapple`.
pub open spec fn default_root_password() -> Seq<u8> {
    seq![105u8, 108u8, 111u8, 118u8, 101u8, 97u8, 112u8, 112u8, 108u8, 101u8]
}

/// The default root password, as executable bytes.
pub fn default_root_password_bytes() -> (r: Vec<u8>)
    ensures
        r@ == default_root_password(),
{
    let mut r: Vec<u8> = Vec::new();
    r.push(105);
    r.push(108);
    r.push(111);
    r.push(118);
    r.push(101);
    r.push(97);
    r.push(112);
    r.push(112);
    r.push(108);
    r.push(101);
    proof {
        assert(r@ =~= default_root_password());
    }
    r
}

/// The plain (not yet obfuscated) record line for one account.
pub open spec fn record_plain(user: Seq<u8>, digest: Seq<u8>) -> Seq<u8> {
    user + seq![COLON] + digest
}

/// The view of an optional record argument.
pub open spec fn opt_view(o: Option<&Vec<u8>>) -> Option<Seq<u8>> {
    match o {
        Some(v) => Some(v@),
        None => None,
    }
}

/// Whether one plain record line grants `user` access with `pass`: the
/// line splits into exactly a name part and a digest part, the trimmed
/// name is `user`, and the trimmed digest verifies `pass`.
pub open spec fn line_matches(line: Seq<u8>, user: Seq<u8>, pass: Seq<u8>) -> bool {
    let parts = split(line, COLON);
    parts.len() == 2 && trim(parts[0]) == user && bcrypt_verifies(pass, trim(parts[1]))
}

/// Whether the stored root record grants `user` access with `pass`.
/// The record is de-obfuscated and read as a single `name:digest` line;
/// bytes that are not valid UTF-8 are treated as no account.
pub open spec fn root_auth_ok(stored: Seq<u8>, user: Seq<u8>, pass: Seq<u8>) -> bool {
    let plain = codec_of(stored);
    is_utf8(plain) && line_matches(plain, user, pass)
}

/// The account lines of the stored user record: de-obfuscated, trimmed,
/// and split at newlines.
pub open spec fn users_store_lines(stored: Seq<u8>) -> Seq<Seq<u8>> {
    split(trim(codec_of(stored)), NEWLINE)
}

/// Whether the stored user record grants `user` access with `pass`:
/// some line matches.  The first matching line wins in executable code;
/// since the answer is a single bit, that equals this existential.
pub open spec fn users_auth_ok(stored: Seq<u8>, user: Seq<u8>, pass: Seq<u8>) -> bool {
    is_utf8(codec_of(stored)) && exists|k: int|
        0 <= k < users_store_lines(stored).len() && line_matches(
            #[trigger] users_store_lines(stored)[k],
            user,
            pass,
        )
}

/// The whole authentication decision over both records: `root` is looked
/// up in its own record, every other name in the shared user record.  A
/// missing record denies access; nothing is ever mutated.
pub open spec fn auth_ok(
    root_rec: Option<Seq<u8>>,
    users_rec: Option<Seq<u8>>,
    user: Seq<u8>,
    pass: Seq<u8>,
) -> bool {
    if user == root_name() {
        match root_rec {
            Some(stored) => root_auth_ok(stored, user, pass),
            None => false,
        }
    } else {
        match users_rec {
            Some(stored) => users_auth_ok(stored, user, pass),
            None => false,
        }
    }
}

/// Decide whether one plain record line grants access.
fn line_auth(line: &Vec<u8>, username: &Vec<u8>, password: &Vec<u8>) -> (r: bool)
    ensures
        r == line_matches(line@, username@, password@),
{
    let parts = split_bytes(line, COLON);
    if parts.len() != 2 {
        return false;
    }
    let name = trim_bytes(&parts[0]);
    if !bytes_eq(&name, username) {
        return false;
    }
    let digest = trim_bytes(&parts[1]);
    verify_password(password, &digest)
}

/// Authenticate `username` with `password` against the stored records.
/// `root_rec` and `users_rec` are the raw stored bytes of the root
/// record and the user record, or `None` where the record is absent.
pub fn auwp(
    root_rec: Option<&Vec<u8>>,
    users_rec: Option<&Vec<u8>>,
    username: &Vec<u8>,
    password: &Vec<u8>,
) -> (r: bool)
    ensures
        r == auth_ok(opt_view(root_rec), opt_view(users_rec), username@, password@),
{
    let rn = root_name_bytes();
    if bytes_eq(username, &rn) {
        match root_rec {
            Some(stored) => {
                let mut plain = copy_bytes(stored);
                edcrypt(&mut plain);
                if !check_utf8(&plain) {
                    false
                } else {
                    line_auth(&plain, username, password)
                }
            },
            None => false,
        }
    } else {
        match users_rec {
            Some(stored) => {
                let mut plain = copy_bytes(stored);
                edcrypt(&mut plain);
                if !check_utf8(&plain) {
                    false
                } else {
                    let trimmed = trim_bytes(&plain);
                    let lines = split_bytes(&trimmed, NEWLINE);
                    let m = lines.len();
                    let mut k: usize = 0;
                    while k < m
                        invariant
                            m == lines@.len(),
                            k <= m,
                            opt_view(users_rec) == Some(stored@),
                            username@ != root_name(),
                            is_utf8(codec_of(stored@)),
                            views_of(lines@) == users_store_lines(stored@),
                            forall|j: int|
                                0 <= j < k ==> !line_matches(
                                    #[trigger] users_store_lines(stored@)[j],
                                    username@,
                                    password@,
                                ),
                        decreases m - k,
                    {
                        if line_auth(&lines[k], username, password) {
                            proof {
                                assert(line_matches(
                                    users_store_lines(stored@)[k as int],
                                    username@,
                                    password@,
                                ));
                            }
                            return true;
                        }
                        k = k + 1;
                    }
                    false
                }
            },
            None => false,
        }
    }
}

/// Build the stored (obfuscated) record for one account.
pub fn make_record(username: &Vec<u8>, digest: &Vec<u8>) -> (r: Vec<u8>)
    ensures
        r@ == codec_of(record_plain(username@, digest@)),
{
    let mut plain = copy_bytes(username);
    plain.push(COLON);
    let n = digest.len();
    let mut i: usize = 0;
    while i < n
        invariant
            n == digest@.len(),
            i <= n,
            plain@ == username@ + seq![COLON] + digest@.subrange(0, i as int),
        decreases n - i,
    {
        plain.push(digest[i]);
        i = i + 1;
        proof {
            assert(plain@ =~= username@ + seq![COLON] + digest@.subrange(0, i as int));
        }
    }
    proof {
        assert(plain@ =~= record_plain(username@, digest@));
    }
    edcrypt(&mut plain);
    plain
}

/// The content of the root record after one bootstrap pass over a store
/// holding `store`: an absent record is created from `digest`, an
/// existing one is left untouched.
pub open spec fn bootstrap_root_spec(store: Option<Seq<u8>>, digest: Seq<u8>) -> Seq<u8> {
    match store {
        None => codec_of(record_plain(root_name(), digest)),
        Some(b) => b,
    }
}

/// Bootstrap the root record: where `existing` is absent, return the
/// bytes to write; where it is present, write nothing.
pub fn bootstrap_root(existing: Option<&Vec<u8>>, digest: &Vec<u8>) -> (r: Option<Vec<u8>>)
    ensures
        r is Some <==> existing is None,
        match r {
            Some(w) => w@ == bootstrap_root_spec(opt_view(existing), digest@),
            None => true,
        },
{
    match existing {
        None => {
            let rn = root_name_bytes();
            Some(make_record(&rn, digest))
        },
        Some(_) => None,
    }
}

/// Bootstrapping is idempotent: a second pass over a store that already
/// went through one pass leaves the stored root record byte-identical,
/// whatever digest the second pass would have used.
pub proof fn lemma_bootstrap_root_idempotent(store: Option<Seq<u8>>, d1: Seq<u8>, d2: Seq<u8>)
    ensures
        bootstrap_root_spec(Some(bootstrap_root_spec(store, d1)), d2) == bootstrap_root_spec(
            store,
            d1,
        ),
{
}

/// A username that embeds cleanly into a record line: non-empty, valid
/// UTF-8, free of the two separator bytes, and not starting or ending
/// with whitespace.  Names collected by the setup prompt are trimmed, so
/// they satisfy the whitespace part by construction.
pub open spec fn name_wf(user: Seq<u8>) -> bool {
    user.len() > 0 && is_utf8(user) && (forall|i: int|
        0 <= i < user.len() ==> user[i] != COLON && user[i] != NEWLINE) && !is_space(user.first())
        && !is_space(user.last())
}

/// The digest alphabet avoids separators and whitespace, and stays in
/// ASCII.
proof fn lemma_digest_bytes_plain(d: Seq<u8>)
    requires
        digest_wf(d),
    ensures
        forall|i: int| 0 <= i < d.len() ==> d[i] != COLON && d[i] != NEWLINE && !is_space(#[trigger] d[i])
            && d[i] < 0x80,
{
    assert forall|i: int| 0 <= i < d.len() implies d[i] != COLON && d[i] != NEWLINE && !is_space(
        #[trigger] d[i],
    ) && d[i] < 0x80 by {
        assert(digest_byte_ok(d[i]));
    }
}

/// A record line built from a well-formed name and digest grants that
/// name access with any password the digest verifies, and no split or
/// trim step disturbs it.
proof fn lemma_record_line_matches(user: Seq<u8>, digest: Seq<u8>, pass: Seq<u8>)
    requires
        name_wf(user),
        digest_wf(digest),
        bcrypt_verifies(pass, digest),
    ensures
        is_utf8(record_plain(user, digest)),
        line_matches(record_plain(user, digest), user, pass),
{
    let plain = record_plain(user, digest);
    lemma_digest_bytes_plain(digest);
    // UTF-8: the name is, and `:` plus the digest alphabet are ASCII.
    lemma_ascii_is_utf8(seq![COLON] + digest);
    crate::utf8::lemma_utf8_concat(user, seq![COLON] + digest);
    assert(user + (seq![COLON] + digest) =~= plain);
    // Splitting at the colon recovers exactly the name and the digest.
    lemma_split_no_sep(digest, COLON);
    lemma_split_concat(user, digest, COLON);
    assert(split(plain, COLON) =~~= seq![user, digest]);
    lemma_trim_id(user);
    lemma_trim_id(digest);
    assert(split(plain, COLON)[0] == user);
    assert(split(plain, COLON)[1] == digest);
}

/// A freshly bootstrapped root record authenticates `root` with every
/// password its digest verifies — in particular, with the password the
/// digest was hashed from.
pub proof fn lemma_root_record_authenticates(digest: Seq<u8>, pass: Seq<u8>)
    requires
        digest_wf(digest),
        bcrypt_verifies(pass, digest),
    ensures
        root_auth_ok(codec_of(record_plain(root_name(), digest)), root_name(), pass),
{
    let plain = record_plain(root_name(), digest);
    lemma_codec_involution(plain);
    lemma_ascii_is_utf8(root_name());
    assert(!is_space(root_name().first()));
    assert(!is_space(root_name().last()));
    lemma_record_line_matches(root_name(), digest, pass);
}

/// A user record holding one freshly created account authenticates that
/// account's name with every password its digest verifies.
pub proof fn lemma_user_record_authenticates(user: Seq<u8>, digest: Seq<u8>, pass: Seq<u8>)
    requires
        name_wf(user),
        digest_wf(digest),
        bcrypt_verifies(pass, digest),
    ensures
        users_auth_ok(codec_of(record_plain(user, digest)), user, pass),
{
    let plain = record_plain(user, digest);
    let stored = codec_of(plain);
    lemma_codec_involution(plain);
    lemma_record_line_matches(user, digest, pass);
    lemma_digest_bytes_plain(digest);
    // The single line is the whole trimmed record.
    lemma_trim_id(plain);
    lemma_split_no_sep(plain, NEWLINE);
    assert(users_store_lines(stored) == seq![plain]);
    assert(users_store_lines(stored)[0] == plain);
    assert(line_matches(users_store_lines(stored)[0], user, pass));
}

/// What first-run setup decides about the user record.
pub enum SetupOutcome {
    /// The record was absent: these bytes become the new user record,
    /// holding the one collected account.
    Created(Vec<u8>),
    /// The record exists and parses: its account lines.
    Existing(Vec<Vec<u8>>),
    /// The record exists but parses to no accounts at all — store
    /// corruption, not a silent success.
    Corrupt,
}

/// Whether a stored user record parses to at least one account line.
pub open spec fn users_store_ok(stored: Seq<u8>) -> bool {
    is_utf8(codec_of(stored)) && trim(codec_of(stored)).len() > 0
}

/// First-run setup of the user record.  Where the record is absent, the
/// one collected account is hashed and written; where it exists, its
/// lines are parsed and an empty parse is reported as corruption.
/// `Err` means hashing failed, which the caller treats as fatal.
pub fn setup(existing: Option<&Vec<u8>>, username: &Vec<u8>, password: &Vec<u8>) -> (r: Result<
    SetupOutcome,
    (),
>)
    ensures
        r matches Ok(SetupOutcome::Created(w)) ==> existing is None && (exists|d: Seq<u8>|
            digest_wf(d) && bcrypt_verifies(password@, d) && w@ == codec_of(
                record_plain(username@, d),
            )),
        r matches Ok(SetupOutcome::Existing(lines)) ==> existing matches Some(e)
            && users_store_ok(e@) && views_of(lines@) == users_store_lines(e@),
        r matches Ok(SetupOutcome::Corrupt) ==> existing matches Some(e) && !users_store_ok(e@),
        r is Err ==> existing is None,
{
    match existing {
        None => {
            match hashp(password) {
                Some(digest) => {
                    let record = make_record(username, &digest);
                    proof {
                        assert(digest_wf(digest@) && bcrypt_verifies(password@, digest@)
                            && record@ == codec_of(record_plain(username@, digest@)));
                    }
                    Ok(SetupOutcome::Created(record))
                },
                None => Err(()),
            }
        },
        Some(stored) => {
            let mut plain = copy_bytes(stored);
            edcrypt(&mut plain);
            if !check_utf8(&plain) {
                Ok(SetupOutcome::Corrupt)
            } else {
                let trimmed = trim_bytes(&plain);
                if trimmed.len() == 0 {
                    Ok(SetupOutcome::Corrupt)
                } else {
                    Ok(SetupOutcome::Existing(split_bytes(&trimmed, NEWLINE)))
                }
            }
        },
    }
}

/// Bootstrap the root record from the fixed default password: where the
/// record is absent, hash the default password and return the bytes to
/// write; where it is present, write nothing.  `Err` means hashing
/// failed, which the caller treats as fatal.
pub fn bootstrap_root_default(existing: Option<&Vec<u8>>) -> (r: Result<Option<Vec<u8>>, ()>)
    ensures
        r matches Ok(w) ==> ((w is Some <==> existing is None) && (w matches Some(rec)
            ==> exists|d: Seq<u8>|
            digest_wf(d) && bcrypt_verifies(default_root_password(), d) && rec@ == codec_of(
                record_plain(root_name(), d),
            ))),
        r is Err ==> existing is None,
{
    match existing {
        Some(_) => Ok(None),
        None => {
            let pw = default_root_password_bytes();
            match hashp(&pw) {
                Some(digest) => {
                    let rn = root_name_bytes();
                    let record = make_record(&rn, &digest);
                    proof {
                        assert(digest_wf(digest@) && bcrypt_verifies(default_root_password(),
                            digest@,
                        ) && record@ == codec_of(record_plain(root_name(), digest@)));
                    }
                    Ok(Some(record))
                },
                None => Err(()),
            }
        },
    }
}

} // verus!
