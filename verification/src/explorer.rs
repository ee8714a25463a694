//! A minimal directory browser: it only remembers which directory is open.
//! Listing the directory and rendering the listing stay with the caller.

use vstd::prelude::*;

verus! {

/// The open directory of the minimal browser.
pub struct FileExplorer {
    pub current_path: String,
}

impl FileExplorer {
    /// A browser opened at the given directory (the caller usually starts
    /// it at the user's home directory).
    pub fn new(start_dir: String) -> (r: FileExplorer)
        ensures
            r.current_path == start_dir,
    {
        FileExplorer { current_path: start_dir }
    }

    /// Enters a subdirectory: the open action of the listing.
    pub fn open(&mut self, dir: String)
        ensures
            final(self).current_path == dir,
    {
        self.current_path = dir;
    }
}

} // verus!
