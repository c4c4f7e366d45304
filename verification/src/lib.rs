//! Core of a single-user interactive shell that lives inside a virtual
//! disk image: the credential store (accounts hashed with bcrypt and
//! obfuscated before they are persisted), the mount table for the two
//! secondary disk images, and the session context with its directory
//! state and privilege gating.  Reading and writing the disk image, and
//! the command prompt around it, are the embedding program's business;
//! everything here works on plain values and is verified.

pub mod bytes;
pub mod codec;
pub mod credstore;
pub mod hasher;
pub mod mount;
pub mod paths;
pub mod session;
pub mod utf8;
pub mod version;
