//! Decides whether a network's on-chain runtime has caught up with the latest published
//! release, and if so asks for that release to be deployed.
//!
//! [`codec`] turns a release tag into a runtime version, [`release`] picks the latest release of
//! a channel, and [`engine`] compares the versions of the source repository, of the packaged
//! repository and of the chain, one network after another. [`github`] holds what is sent to the
//! release host. [`hasher`] stands beside them: it gives the hash under which a runtime upgrade
//! is whitelisted.

pub mod codec;
pub mod codec_proofs;
pub mod engine;
pub mod engine_proofs;
pub mod error;
pub mod github;
pub mod hasher;
pub mod number;
pub mod release;
pub mod text;

pub use error::WatchError;
