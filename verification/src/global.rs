//! The run's configuration, as the command line delivers it: the scale of
//! the output, the one-filesystem policy, the worker count, and the paths
//! to crawl.  Parsing the command line and holding the process-wide copy
//! are the shell's business; the library only reads the record.

use vstd::prelude::*;
use crate::scale::Scale;

verus! {

/// The immutable configuration of one run.
#[derive(Debug)]
pub struct Config {
    /// Do not descend into directories on a different filesystem.
    pub one_fs: bool,
    /// Print raw byte counts instead of human-scaled sizes.
    pub bytes: bool,
    /// How many workers crawl and search in parallel; at least one.
    pub jobs: u8,
    /// The files and directories to account.
    pub args: Vec<String>,
}

impl Config {
    /// The output scale this configuration asks for.
    pub fn scale(&self) -> (r: Scale)
        ensures
            self.bytes ==> r == Scale::Bytes,
            !self.bytes ==> r == Scale::Human,
    {
        if self.bytes {
            Scale::Bytes
        } else {
            Scale::Human
        }
    }
}

} // verus!
