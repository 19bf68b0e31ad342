//! Startup state: the workspace file path handed to the process on launch
//! (command-line argument or file-manager association), held as an explicit
//! single-use container and consumed at most once.

use vstd::prelude::*;

verus! {

/// Holds the file path passed at startup until the caller consumes it.
pub struct AppState {
    /// The initial file path, present until consumed.
    pub initial_file: Option<String>,
}

impl AppState {
    pub fn new(initial_file: Option<String>) -> (s: AppState)
        ensures
            s.initial_file == initial_file,
    {
        AppState { initial_file }
    }

    /// Retrieve and consume the initial file path: the first call returns
    /// it, every later call returns nothing.
    pub fn get_initial_file(&mut self) -> (r: Option<String>)
        ensures
            r == old(self).initial_file,
            final(self).initial_file is None,
    {
        self.initial_file.take()
    }
}

} // verus!
