//! Commands to the file watcher.
use vstd::prelude::*;

use crate::types::WatchedFolder;

verus! {

/// A change to the set of watched folders.
#[derive(Debug)]
pub enum WatchCommand {
    Add { folder: WatchedFolder },
    Remove { folder: WatchedFolder },
}

} // verus!
