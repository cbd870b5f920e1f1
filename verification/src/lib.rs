//! Verified core of a command-line tool-version manager.
//!
//! The library contains the decision logic of the manager: the layout of the
//! installation root, the catalog text decoders, the revalidating fetch
//! protocol, the archive installation protocol, and the registry of installed
//! tool versions with its state transitions.  All file-system and network
//! effects are computed here as plain data (plans, decisions, environment
//! pairs) and performed by an unverified shell around the library.

pub mod args;
pub mod cache;
pub mod client;
pub mod decode;
pub mod fetch;
pub mod home;
pub mod install;
pub mod path;
pub mod registry;
pub mod shell;
pub mod text;
pub mod tool_version;
