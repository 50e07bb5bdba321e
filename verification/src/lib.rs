//! A client for repositories that follow The Update Framework (TUF).
//!
//! Given a trusted root metadata file and the two base locations of a
//! repository, the library walks the chain of trust to the current
//! repository state and hands out targets whose length and digest match the
//! signed metadata.
//!
//! The library does no input or output of its own. It reaches the
//! repository through a [`Transport`], reads metadata out of bytes through
//! a [`schema::Schema`], and keeps what it must remember between loads in a
//! [`Datastore`] that lives in memory. What it decides is its own: which
//! file is asked for and how much of it is read ([`request`], [`fetch`]),
//! whether a signature counts ([`signature`]), whether metadata is accepted
//! ([`checks`]), whether the clock can be believed ([`clock`]), and in which
//! order all of this happens ([`load`], [`repository`]).
//!
//! ```text
//! let repository = RepositoryLoader::new(root, metadata_base, targets_base, transport, schema)
//!     .datastore(datastore)
//!     .load()?;
//! let reader = repository.read_target("file.txt")?;
//! ```

pub mod cache;
pub mod checks;
pub mod clock;
pub mod datastore;
pub mod digest;
pub mod enforcement;
pub mod error;
pub mod fetch;
pub mod limits;
pub mod load;
pub mod location;
pub mod names;
pub mod repository;
pub mod request;
pub mod schema;
pub mod signature;
pub mod text;
pub mod time;
pub mod transport;

pub use crate::datastore::Datastore;
pub use crate::enforcement::ExpirationEnforcement;
pub use crate::error::Error;
pub use crate::limits::Limits;
pub use crate::location::{parse_url, Url};
pub use crate::repository::{LoadError, Repository, RepositoryLoader};
pub use crate::schema::RoleType;
pub use crate::signature::{Key, KeyEntry, Signature, SignatureScheme};
pub use crate::time::UtcTime;
pub use crate::transport::{ByteStream, Transport, TransportError, TransportErrorKind};
