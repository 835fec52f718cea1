//! A local runtime-version manager core: it resolves version specifiers
//! against a remote catalog, plans concurrent installs of the chosen
//! versions, switches which installed version is active, and removes
//! installed versions while keeping the active-version state consistent.
//!
//! Everything here is pure decision logic over plain values; the
//! surrounding binary performs the network and filesystem effects that
//! these functions plan and account for.

pub mod catalog;
pub mod commands;
pub mod install;
pub mod laws;
pub mod resolver;
pub mod ranges;
pub mod semver;
pub mod store;
