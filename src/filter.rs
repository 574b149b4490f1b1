use vstd::prelude::*;

use crate::extension::{normalized_set, ExtensionFilter, ExtensionsFilter};
use crate::ignore::IgnorePath;
use crate::path::{opt_str_view, strip_dots};
use crate::pattern::{regex_is_match, RegexFilter};

verus! {

/// One filter of any of the kinds this library offers.
#[derive(Debug)]
pub enum PathFilter {
    /// Ignores the paths with one extension.
    Extension(ExtensionFilter),
    /// Ignores the paths whose extension is in a set.
    Extensions(ExtensionsFilter),
    /// Ignores the paths whose text a regular expression matches.
    Regex(RegexFilter),
}

impl From<ExtensionFilter> for PathFilter {
    fn from(value: ExtensionFilter) -> (r: Self) {
        PathFilter::Extension(value)
    }
}

impl vstd::std_specs::convert::FromSpecImpl<ExtensionFilter> for PathFilter {
    open spec fn obeys_from_spec() -> bool {
        true
    }

    open spec fn from_spec(v: ExtensionFilter) -> Self {
        PathFilter::Extension(v)
    }
}

impl From<ExtensionsFilter> for PathFilter {
    fn from(value: ExtensionsFilter) -> (r: Self) {
        PathFilter::Extensions(value)
    }
}

impl vstd::std_specs::convert::FromSpecImpl<ExtensionsFilter> for PathFilter {
    open spec fn obeys_from_spec() -> bool {
        true
    }

    open spec fn from_spec(v: ExtensionsFilter) -> Self {
        PathFilter::Extensions(v)
    }
}

impl From<RegexFilter> for PathFilter {
    fn from(value: RegexFilter) -> (r: Self) {
        PathFilter::Regex(value)
    }
}

impl vstd::std_specs::convert::FromSpecImpl<RegexFilter> for PathFilter {
    open spec fn obeys_from_spec() -> bool {
        true
    }

    open spec fn from_spec(v: RegexFilter) -> Self {
        PathFilter::Regex(v)
    }
}

impl PathFilter {
    /// Creates a filter on one extension; leading dots are dropped.
    pub fn new_extension(extension: &str) -> (r: Self)
        ensures
            r is Extension,
            r->Extension_0@ == strip_dots(extension@),
    {
        PathFilter::from(ExtensionFilter::new(extension))
    }

    /// Creates a filter on a list of extensions; leading dots are dropped.
    pub fn new_extensions(extensions: &[&str]) -> (r: Self)
        ensures
            r is Extensions,
            r->Extensions_0@ == normalized_set(extensions@),
    {
        PathFilter::from(ExtensionsFilter::new(extensions))
    }

    /// Creates a filter on an already compiled regular expression.
    pub fn new_regex(regex: regex::Regex) -> (r: Self)
        ensures
            r is Regex,
            r->Regex_0.matcher() == regex,
    {
        PathFilter::from(RegexFilter::new(regex))
    }

    /// Whether a path is ignored, given its text form (`None` when it is not
    /// valid text) and its extension (`None` when it has none).
    pub open spec fn ignores_parts(
        &self,
        text: Option<Seq<char>>,
        extension: Option<Seq<char>>,
    ) -> bool {
        match self {
            PathFilter::Extension(f) => extension == Some(f@),
            PathFilter::Extensions(f) => match extension {
                Some(e) => f@.contains(e),
                None => false,
            },
            PathFilter::Regex(f) => match text {
                Some(t) => regex_is_match(f.matcher(), t),
                None => false,
            },
        }
    }

    /// Decides from a path's text form and extension, for paths that are
    /// not valid text.
    pub fn ignore_parts(&self, text: Option<&str>, extension: Option<&str>) -> (r: bool)
        ensures
            r == self.ignores_parts(opt_str_view(text), opt_str_view(extension)),
    {
        match self {
            PathFilter::Extension(f) => f.ignore_extension(extension),
            PathFilter::Extensions(f) => f.ignore_extension(extension),
            PathFilter::Regex(f) => f.ignore_text(text),
        }
    }
}

impl Clone for PathFilter {
    fn clone(&self) -> (r: Self)
        ensures
            r is Extension <==> self is Extension,
            r is Extensions <==> self is Extensions,
            r is Regex <==> self is Regex,
            forall|text: Option<Seq<char>>, extension: Option<Seq<char>>|
                r.ignores_parts(text, extension) == self.ignores_parts(text, extension),
            forall|path: Seq<char>| r.ignores(path) == self.ignores(path),
    {
        match self {
            PathFilter::Extension(f) => PathFilter::Extension(f.clone()),
            PathFilter::Extensions(f) => PathFilter::Extensions(f.clone()),
            PathFilter::Regex(f) => PathFilter::Regex(f.clone()),
        }
    }
}

impl IgnorePath for PathFilter {
    open spec fn ignores(&self, path: Seq<char>) -> bool {
        match self {
            PathFilter::Extension(f) => f.ignores(path),
            PathFilter::Extensions(f) => f.ignores(path),
            PathFilter::Regex(f) => f.ignores(path),
        }
    }

    fn ignore(&self, path: &str) -> (r: bool) {
        match self {
            PathFilter::Extension(f) => f.ignore(path),
            PathFilter::Extensions(f) => f.ignore(path),
            PathFilter::Regex(f) => f.ignore(path),
        }
    }
}

/// Whether some filter of `filters` ignores the path whose text is `path`.
pub open spec fn any_ignores(filters: Seq<PathFilter>, path: Seq<char>) -> bool {
    exists|i: int| 0 <= i < filters.len() && #[trigger] filters[i].ignores(path)
}

/// Returns `true` if some filter of `filters` ignores the path, trying them
/// in order and stopping at the first that does.
pub fn ignore_any(filters: &[PathFilter], path: &str) -> (r: bool)
    ensures
        r == any_ignores(filters@, path@),
{
    let mut i: usize = 0;
    while i < filters.len()
        invariant
            i <= filters@.len(),
            forall|j: int| 0 <= j < i ==> !(#[trigger] filters@[j].ignores(path@)),
        decreases filters@.len() - i,
    {
        if filters[i].ignore(path) {
            return true;
        }
        i = i + 1;
    }
    false
}

/// Whether some filter of `filters` ignores a path given by its text form
/// (`None` when it is not valid text) and its extension.
pub open spec fn any_ignores_parts(
    filters: Seq<PathFilter>,
    text: Option<Seq<char>>,
    extension: Option<Seq<char>>,
) -> bool {
    exists|i: int| 0 <= i < filters.len() && #[trigger] filters[i].ignores_parts(text, extension)
}

/// Returns `true` if some filter of `filters` ignores a path given by its
/// text form and its extension, for paths that are not valid text; the
/// filters are tried in order, stopping at the first that ignores it.
pub fn ignore_any_parts(
    filters: &[PathFilter],
    text: Option<&str>,
    extension: Option<&str>,
) -> (r: bool)
    ensures
        r == any_ignores_parts(filters@, opt_str_view(text), opt_str_view(extension)),
{
    let mut i: usize = 0;
    while i < filters.len()
        invariant
            i <= filters@.len(),
            forall|j: int|
                0 <= j < i ==> !(#[trigger] filters@[j].ignores_parts(
                    opt_str_view(text),
                    opt_str_view(extension),
                )),
        decreases filters@.len() - i,
    {
        if filters[i].ignore_parts(text, extension) {
            return true;
        }
        i = i + 1;
    }
    false
}

impl IgnorePath for Vec<PathFilter> {
    open spec fn ignores(&self, path: Seq<char>) -> bool {
        any_ignores(self@, path)
    }

    fn ignore(&self, path: &str) -> (r: bool) {
        ignore_any(self.as_slice(), path)
    }
}

impl IgnorePath for [PathFilter] {
    open spec fn ignores(&self, path: Seq<char>) -> bool {
        any_ignores(self@, path)
    }

    fn ignore(&self, path: &str) -> (r: bool) {
        ignore_any(self, path)
    }
}

impl<const N: usize> IgnorePath for [PathFilter; N] {
    open spec fn ignores(&self, path: Seq<char>) -> bool {
        any_ignores(self@, path)
    }

    fn ignore(&self, path: &str) -> (r: bool) {
        let filters = self.as_slice();
        proof {
            vstd::array::axiom_spec_array_as_slice(self);
        }
        ignore_any(filters, path)
    }
}

/// Reordering the filters of a sequence never changes which paths it
/// ignores: two sequences with the same filters, each as often, ignore the
/// same paths.
pub proof fn lemma_order_of_filters_irrelevant(
    a: Seq<PathFilter>,
    b: Seq<PathFilter>,
    path: Seq<char>,
)
    requires
        a.to_multiset() == b.to_multiset(),
    ensures
        any_ignores(a, path) == any_ignores(b, path),
{
    assert forall|x: Seq<PathFilter>, y: Seq<PathFilter>|
        x.to_multiset() == y.to_multiset() && any_ignores(x, path) implies any_ignores(y, path) by {
        let i = choose|i: int| 0 <= i < x.len() && #[trigger] x[i].ignores(path);
        vstd::seq_lib::to_multiset_contains(x, x[i]);
        assert(x.contains(x[i]));
        vstd::seq_lib::to_multiset_contains(y, x[i]);
        let j = choose|j: int| 0 <= j < y.len() && y[j] == x[i];
        assert(y[j].ignores(path));
    }
}

/// A sequence with no filters ignores no path.
pub proof fn lemma_empty_sequence_ignores_nothing(path: Seq<char>)
    ensures
        !any_ignores(Seq::<PathFilter>::empty(), path),
{
}

} // verus!
