//! Manifest-driven multi-repository orchestration engine.
//!
//! A fleet of git repositories is described by a declarative manifest:
//! named projects, each a clone-URL prefix, a remote name and an ordered
//! list of repository paths. This library holds the verified core: the
//! version-constraint grammar used to filter releases, the manifest model
//! and its merge rules, and the fleet-wide planning and decision logic for
//! synchronizing, tagging, branching, diffing and changelog generation.
//! The version-control backend itself (clone, fetch, push, resolve) is an
//! outside collaborator; a front end performs those calls and feeds the
//! observations back into the decision functions defined here.

pub mod commands;
pub mod fleet;
pub mod manifest;
pub mod ops;
pub mod strutil;
pub mod sync;
pub mod util;
pub mod ver;
pub mod versions;
