use vstd::prelude::*;

verus! {

/// Decides, for a path given by its text, whether it should be ignored.
pub trait IgnorePath {
    /// Whether the path whose text is `path` is ignored.
    spec fn ignores(&self, path: Seq<char>) -> bool;

    /// Returns `true` if the path should be ignored.
    fn ignore(&self, path: &str) -> (r: bool)
        ensures
            r == self.ignores(path@),
    ;
}

} // verus!
