//! Credential-secured uploads to an S3-compatible object store.
//!
//! The crate holds the decisions of the upload pipeline and leaves the work
//! on the network, the file system and the secure store to its caller:
//!
//! - [`credentials`]: the bundle of sensitive fields, wiped when dropped,
//!   and the rule by which a save merges submitted fields into it;
//! - [`settings`] and [`storage`]: the settings map, what part of it goes
//!   to the configuration file, and what counts as a configured account;
//! - [`client`]: what an object-store client is bound to, and the cache of
//!   one client;
//! - [`clock`]: the system clock, read so that a wrong clock is an error;
//! - [`object_key`]: the key under which a file is stored;
//! - [`upload`]: the upload as a sequence of steps, with the overwrite
//!   guard before the write;
//! - [`url`]: the URL that is handed out, plain, with a static token, or
//!   signed with an expiry;
//! - [`history`]: the bounded list of past uploads.

pub mod client;
pub mod clock;
pub mod credentials;
pub mod error;
pub mod history;
pub mod object_key;
pub mod settings;
pub mod storage;
pub mod text;
pub mod upload;
pub mod url;
