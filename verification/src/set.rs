//! A single set of strings.

use vstd::prelude::*;

verus! {

/// A set of strings, each held once.
pub struct SetServer {
    data: Vec<String>,
}

impl View for SetServer {
    type V = Set<Seq<char>>;

    closed spec fn view(&self) -> Set<Seq<char>> {
        Set::new(|s: Seq<char>| exists|i: int| 0 <= i < self.data@.len() && self.data@[i]@ == s)
    }
}

impl SetServer {
    /// Creates an empty set.
    pub fn new() -> (server: SetServer)
        ensures
            server@ == Set::<Seq<char>>::empty(),
    {
        let server = SetServer { data: Vec::new() };
        assert(server@ =~= Set::<Seq<char>>::empty());
        server
    }
}

} // verus!
