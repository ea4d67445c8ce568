//! The storage engine of a local, file-based secret store.
//!
//! A store holds named entries; an entry holds fields whose values are
//! plain text, text encrypted under the store's key, or the encrypted seed of
//! a time-based one-time password. Three generations of the file format are
//! kept, each with its own key derivation and value encoding, together with
//! the steps that bring an older store to the newest format.
//!
//! `cipher` holds the calls into the cryptographic crates, on whose
//! contracts everything else is proved. `version` holds the formats and the
//! accessors to entries and fields; `search` ranks the entries against a
//! search term; `app` holds the rules of an interface that need no terminal.

pub mod app;
pub mod cipher;
pub mod crypt;
pub mod search;
pub mod utils;
pub mod version;
