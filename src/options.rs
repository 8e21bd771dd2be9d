use vstd::prelude::*;

verus! {

/// The repository's settings: where it lives remotely and locally.
pub struct Options {
    pub remote: Remote,
    pub local: Local,
}

impl Options {
    /// Settings with the given remote and local roots and nothing ignored.
    pub fn new(remote_path: String, local_path: String) -> (r: Options)
        ensures
            r.remote.path@ == remote_path@,
            r.local.path@ == local_path@,
            r.local.ignore@.len() == 0,
    {
        Options {
            remote: Remote { path: remote_path },
            local: Local { path: local_path, ignore: Vec::new() },
        }
    }

    /// The remote root.
    pub fn remote_path(&self) -> (r: &str)
        ensures
            r@ == self.remote.path@,
    {
        self.remote.path.as_str()
    }

    /// The local root.
    pub fn local_path(&self) -> (r: &str)
        ensures
            r@ == self.local.path@,
    {
        self.local.path.as_str()
    }
}

/// The remote side of the settings.
pub struct Remote {
    pub path: String,
}

/// The local side of the settings.
pub struct Local {
    pub path: String,
    pub ignore: Vec<String>,
}

} // verus!
