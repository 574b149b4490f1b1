use vstd::prelude::*;

use crate::ignore::IgnorePath;
use crate::path::{
    extension_of,
    lemma_strip_dots_idempotent,
    opt_str_view,
    path_extension,
    strip_dots,
    trim_leading_dots,
};

verus! {

/// A filter that ignores the paths whose extension is one given extension.
/// The extension is kept without leading dots and compared case-sensitively.
#[derive(Debug, Eq, Hash, PartialOrd, Ord)]
pub struct ExtensionFilter {
    extension: String,
}

impl View for ExtensionFilter {
    type V = Seq<char>;

    /// The extension that this filter matches, without leading dots.
    closed spec fn view(&self) -> Seq<char> {
        self.extension@
    }
}

impl ExtensionFilter {
    /// The extension has no leading dot.
    #[verifier::type_invariant]
    spec fn wf(&self) -> bool {
        strip_dots(self.extension@) == self.extension@
    }

    /// Creates a filter for one extension; leading dots are dropped, so
    /// `".rs"` and `"rs"` give the same filter.
    pub fn new(extension: &str) -> (r: Self)
        ensures
            r@ == strip_dots(extension@),
    {
        let trimmed = trim_leading_dots(extension);
        proof {
            lemma_strip_dots_idempotent(extension@);
        }
        ExtensionFilter { extension: trimmed.to_owned() }
    }

    /// The extension that this filter matches, without leading dots.
    pub fn extension(&self) -> (r: &str)
        ensures
            r@ == self@,
            strip_dots(self@) == self@,
    {
        proof {
            use_type_invariant(self);
        }
        self.extension.as_str()
    }

    /// Decides from a path's extension, `None` when it has none.
    pub fn ignore_extension(&self, extension: Option<&str>) -> (r: bool)
        ensures
            r == (opt_str_view(extension) == Some(self@)),
    {
        match extension {
            Some(e) => {
                let owned = e.to_owned();
                owned == self.extension
            },
            None => false,
        }
    }
}

impl Clone for ExtensionFilter {
    fn clone(&self) -> (r: Self)
        ensures
            r@ == self@,
    {
        proof {
            use_type_invariant(self);
        }
        ExtensionFilter { extension: self.extension.clone() }
    }
}

impl PartialEq for ExtensionFilter {
    fn eq(&self, other: &ExtensionFilter) -> (r: bool) {
        self.extension == other.extension
    }
}

impl vstd::std_specs::cmp::PartialEqSpecImpl for ExtensionFilter {
    open spec fn obeys_eq_spec() -> bool {
        true
    }

    open spec fn eq_spec(&self, other: &ExtensionFilter) -> bool {
        self@ == other@
    }
}

impl IgnorePath for ExtensionFilter {
    open spec fn ignores(&self, path: Seq<char>) -> bool {
        extension_of(path) == Some(self@)
    }

    fn ignore(&self, path: &str) -> (r: bool) {
        let ext = path_extension(path);
        match ext {
            Some(e) => self.ignore_extension(Some(e.as_str())),
            None => self.ignore_extension(None),
        }
    }
}

/// The extensions named in `extensions`, each without its leading dots.
pub open spec fn normalized_set(extensions: Seq<&str>) -> Set<Seq<char>> {
    Set::new(
        |e: Seq<char>|
            exists|i: int| 0 <= i < extensions.len() && strip_dots(extensions[i]@) == e,
    )
}

/// A filter that ignores the paths whose extension belongs to a set of
/// extensions. Each is kept without leading dots, and each once.
#[derive(Debug)]
pub struct ExtensionsFilter {
    extensions: Vec<String>,
}

impl View for ExtensionsFilter {
    type V = Set<Seq<char>>;

    /// The set of extensions that this filter matches.
    closed spec fn view(&self) -> Set<Seq<char>> {
        Set::new(
            |e: Seq<char>|
                exists|i: int| 0 <= i < self.extensions@.len() && self.extensions@[i]@ == e,
        )
    }
}

/// Whether `text` is one of the strings in `v`.
fn contains_string(v: &Vec<String>, text: &String) -> (r: bool)
    ensures
        r == exists|i: int| 0 <= i < v@.len() && v@[i]@ == text@,
{
    let mut i: usize = 0;
    while i < v.len()
        invariant
            i <= v@.len(),
            forall|j: int| 0 <= j < i ==> v@[j]@ != text@,
        decreases v@.len() - i,
    {
        if v[i] == *text {
            return true;
        }
        i = i + 1;
    }
    false
}

impl ExtensionsFilter {
    /// No extension is held twice.
    #[verifier::type_invariant]
    spec fn wf(&self) -> bool {
        &&& forall|i: int, j: int|
            0 <= i < j < self.extensions@.len() ==> self.extensions@[i]@ != self.extensions@[j]@
        &&& forall|i: int|
            0 <= i < self.extensions@.len() ==> strip_dots(#[trigger] self.extensions@[i]@)
                == self.extensions@[i]@
    }

    /// Creates a filter for a list of extensions; leading dots are dropped
    /// and repeated extensions are kept once.
    pub fn new(extensions: &[&str]) -> (r: Self)
        ensures
            r@ == normalized_set(extensions@),
    {
        let mut filter = ExtensionsFilter { extensions: Vec::new() };
        let mut i: usize = 0;
        proof {
            assert(filter@ =~= normalized_set(extensions@.subrange(0, 0)));
        }
        while i < extensions.len()
            invariant
                i <= extensions@.len(),
                filter@ == normalized_set(extensions@.subrange(0, i as int)),
            decreases extensions@.len() - i,
        {
            filter = filter.with_extension(extensions[i]);
            proof {
                let prev = extensions@.subrange(0, i as int);
                let next = extensions@.subrange(0, i + 1);
                assert forall|e: Seq<char>|
                    normalized_set(next).contains(e) == normalized_set(prev).insert(
                        strip_dots(extensions@[i as int]@),
                    ).contains(e) by {
                    if normalized_set(next).contains(e) {
                        let k = choose|k: int| 0 <= k < next.len() && strip_dots(next[k]@) == e;
                        if k < i {
                            assert(prev[k] == next[k]);
                        }
                    }
                    if normalized_set(prev).contains(e) {
                        let k = choose|k: int| 0 <= k < prev.len() && strip_dots(prev[k]@) == e;
                        assert(prev[k] == next[k]);
                    }
                    if e == strip_dots(extensions@[i as int]@) {
                        assert(next[i as int] == extensions@[i as int]);
                    }
                }
                assert(normalized_set(next) =~= normalized_set(prev).insert(
                    strip_dots(extensions@[i as int]@),
                ));
            }
            i = i + 1;
        }
        proof {
            assert(extensions@.subrange(0, extensions@.len() as int) =~= extensions@);
        }
        filter
    }

    /// Adds one extension, leading dots dropped, and returns the filter.
    pub fn with_extension(self, extension: &str) -> (r: Self)
        ensures
            r@ == self@.insert(strip_dots(extension@)),
    {
        proof {
            use_type_invariant(&self);
        }
        let e = trim_leading_dots(extension).to_owned();
        proof {
            lemma_strip_dots_idempotent(extension@);
        }
        let mut extensions = self.extensions;
        let ghost before = extensions@;
        if !contains_string(&extensions, &e) {
            extensions.push(e);
        }
        let r = ExtensionsFilter { extensions };
        proof {
            assert forall|x: Seq<char>| r@.contains(x) == self@.insert(e@).contains(x) by {
                if r@.contains(x) {
                    let k = choose|k: int|
                        0 <= k < r.extensions@.len() && r.extensions@[k]@ == x;
                    if k < before.len() {
                        assert(self.extensions@[k]@ == x);
                    }
                }
                if self@.contains(x) {
                    let k = choose|k: int|
                        0 <= k < before.len() && before[k]@ == x;
                    assert(r.extensions@[k] == before[k]);
                }
                if x == e@ && before.len() < r.extensions@.len() {
                    assert(r.extensions@[before.len() as int] == e);
                }
            }
            assert(r@ =~= self@.insert(e@));
        }
        r
    }

    /// The extensions of this filter, each once, in the order they were
    /// first added.
    pub fn extensions(&self) -> (r: &Vec<String>)
        ensures
            forall|e: Seq<char>|
                self@.contains(e) <==> exists|i: int| 0 <= i < r@.len() && r@[i]@ == e,
            forall|i: int, j: int| 0 <= i < j < r@.len() ==> r@[i]@ != r@[j]@,
            forall|e: Seq<char>| #[trigger] self@.contains(e) ==> strip_dots(e) == e,
    {
        proof {
            use_type_invariant(self);
        }
        &self.extensions
    }

    /// Decides from a path's extension, `None` when it has none.
    pub fn ignore_extension(&self, extension: Option<&str>) -> (r: bool)
        ensures
            r == match opt_str_view(extension) {
                Some(e) => self@.contains(e),
                None => false,
            },
    {
        match extension {
            Some(e) => {
                let owned = e.to_owned();
                contains_string(&self.extensions, &owned)
            },
            None => false,
        }
    }
}

impl Clone for ExtensionsFilter {
    fn clone(&self) -> (r: Self)
        ensures
            r@ == self@,
    {
        proof {
            use_type_invariant(self);
        }
        let extensions = self.extensions.clone();
        proof {
            assert forall|i: int| 0 <= i < extensions@.len() implies extensions@[i]
                == self.extensions@[i] by {
                assert(cloned::<String>(self.extensions[i], extensions[i]));
            }
            assert(extensions@ =~= self.extensions@);
        }
        ExtensionsFilter { extensions }
    }
}

impl PartialEq for ExtensionsFilter {
    /// Two filters are equal when they hold the same set of extensions,
    /// whatever the order they were added in.
    fn eq(&self, other: &ExtensionsFilter) -> (r: bool) {
        let mut i: usize = 0;
        while i < self.extensions.len()
            invariant
                i <= self.extensions@.len(),
                forall|j: int| 0 <= j < i ==> other@.contains(#[trigger] self.extensions@[j]@),
            decreases self.extensions@.len() - i,
        {
            if !contains_string(&other.extensions, &self.extensions[i]) {
                proof {
                    assert(self@.contains(self.extensions@[i as int]@));
                }
                return false;
            }
            i = i + 1;
        }
        let mut k: usize = 0;
        while k < other.extensions.len()
            invariant
                k <= other.extensions@.len(),
                forall|j: int| 0 <= j < k ==> self@.contains(#[trigger] other.extensions@[j]@),
            decreases other.extensions@.len() - k,
        {
            if !contains_string(&self.extensions, &other.extensions[k]) {
                proof {
                    assert(other@.contains(other.extensions@[k as int]@));
                }
                return false;
            }
            k = k + 1;
        }
        proof {
            assert forall|e: Seq<char>| self@.contains(e) == other@.contains(e) by {
                if self@.contains(e) {
                    let j = choose|j: int|
                        0 <= j < self.extensions@.len() && self.extensions@[j]@ == e;
                    assert(other@.contains(self.extensions@[j]@));
                }
                if other@.contains(e) {
                    let j = choose|j: int|
                        0 <= j < other.extensions@.len() && other.extensions@[j]@ == e;
                    assert(self@.contains(other.extensions@[j]@));
                }
            }
            assert(self@ =~= other@);
        }
        true
    }
}

impl vstd::std_specs::cmp::PartialEqSpecImpl for ExtensionsFilter {
    open spec fn obeys_eq_spec() -> bool {
        true
    }

    open spec fn eq_spec(&self, other: &ExtensionsFilter) -> bool {
        self@ == other@
    }
}

impl Eq for ExtensionsFilter {

}

impl IgnorePath for ExtensionsFilter {
    open spec fn ignores(&self, path: Seq<char>) -> bool {
        match extension_of(path) {
            Some(e) => self@.contains(e),
            None => false,
        }
    }

    fn ignore(&self, path: &str) -> (r: bool) {
        let ext = path_extension(path);
        match ext {
            Some(e) => self.ignore_extension(Some(e.as_str())),
            None => self.ignore_extension(None),
        }
    }
}

/// Leading dots are dropped from a configured extension, so prefixing it with
/// one more dot gives the same filter.
pub proof fn lemma_leading_dot_is_stripped(extension: Seq<char>)
    ensures
        strip_dots(seq!['.'] + extension) == strip_dots(extension),
{
    assert((seq!['.'] + extension).drop_first() =~= extension);
}

/// A path with no extension is ignored by no extension filter and by no
/// extensions filter.
pub proof fn lemma_no_extension_no_ignore(f: ExtensionFilter, g: ExtensionsFilter, path: Seq<char>)
    requires
        extension_of(path) is None,
    ensures
        !f.ignores(path),
        !g.ignores(path),
{
}

/// A filter built from a list of extensions ignores a path exactly when the
/// path has an extension and it is one of the list, leading dots dropped.
pub proof fn lemma_extensions_filter_membership(
    extensions: Seq<&str>,
    f: ExtensionsFilter,
    path: Seq<char>,
)
    requires
        f@ == normalized_set(extensions),
    ensures
        f.ignores(path) <==> (extension_of(path) matches Some(e) && exists|i: int|
            0 <= i < extensions.len() && strip_dots(extensions[i]@) == e),
{
}

/// Adding one extension to a filter made from no extensions gives a filter
/// that ignores the same paths as one made from that extension alone.
pub proof fn lemma_with_extension_on_empty(
    extension: &str,
    empty: ExtensionsFilter,
    added: ExtensionsFilter,
    single: ExtensionsFilter,
)
    requires
        empty@ == normalized_set(Seq::empty()),
        added@ == empty@.insert(strip_dots(extension@)),
        single@ == normalized_set(seq![extension]),
    ensures
        forall|path: Seq<char>| added.ignores(path) == single.ignores(path),
{
    assert(added@ =~= single@) by {
        assert(seq![extension][0] == extension);
    }
}

} // verus!
