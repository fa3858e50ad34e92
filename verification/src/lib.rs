//! Verified core of a btrfs disk-usage reporter.
//!
//! The library accounts the true on-disk space occupied by a set of files on a
//! btrfs filesystem: it decodes the packed little-endian records returned by
//! the `TREE_SEARCH_V2` ioctl, classifies every file extent, deduplicates
//! shared physical extents, and renders the aggregate statistics in the
//! `compsize`-compatible table format.  All I/O — the ioctl itself, directory
//! enumeration, channels and threads — lives outside this crate; the library
//! holds the decisions and the arithmetic, each with a proved contract.

pub mod btrfs;
pub mod collector;
pub mod global;
pub mod scale;
pub mod taskpak;
pub mod walkdir;
