//! Where the files of the program lie.
//!
//! The environment is not read here: a caller says which variables are set and
//! whether the home directory is known, and gets a [`Location`] to join.

use vstd::prelude::*;

verus! {

/// The directory that a location starts from.
#[derive(Debug, Clone, Copy, PartialEq, Eq, Structural)]
pub enum Root {
    /// The value of a variable that names the file itself.
    Override,
    /// The value of `XDG_CONFIG_HOME`.
    XdgConfig,
    /// The value of `XDG_DATA_HOME`.
    XdgData,
    /// The value of `XDG_RUNTIME_DIR`.
    XdgRuntime,
    /// The home directory.
    Home,
}

/// A path: a root and what is joined to it, one component at a time.
#[derive(Debug)]
pub struct Location {
    pub root: Root,
    pub parts: Vec<String>,
}

/// The home directory is needed and not known.
#[derive(Debug, Clone, Copy, PartialEq, Eq, Structural)]
pub struct NoHome;

impl NoHome {
    /// What to tell the user.
    pub fn message(&self) -> (r: String)
        ensures
            r@ == "could not determine home directory"@,
    {
        "could not determine home directory".to_string()
    }
}

impl View for Location {
    type V = (Root, Seq<Seq<char>>);

    open spec fn view(&self) -> (Root, Seq<Seq<char>>) {
        (self.root, crate::text::texts(self.parts@))
    }
}

/// A location of the given components.
pub fn location(root: Root, parts: &[&str]) -> (r: Location)
    ensures
        r@ == (root, Seq::new(parts@.len(), |i: int| parts@[i]@)),
{
    let mut out: Vec<String> = Vec::new();
    for i in 0..parts.len()
        invariant
            out@.len() == i,
            forall|j: int| 0 <= j < i ==> out@[j]@ == parts@[j]@,
    {
        out.push(parts[i].to_string());
    }
    let r = Location { root, parts: out };
    assert(r@.1 =~= Seq::new(parts@.len(), |i: int| parts@[i]@));
    r
}

} // verus!
