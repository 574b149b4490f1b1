use vstd::prelude::*;

use crate::extension::{normalized_set, ExtensionFilter, ExtensionsFilter};
use crate::filter::PathFilter;
use crate::ignore::IgnorePath;
use crate::path::strip_dots;
use crate::pattern::{pattern_compiles, pattern_is_match, regex_is_match, regex_source, RegexFilter};

verus! {

/// A filter written as plain values, ready to be stored: the extensions as
/// text, and a regular expression as its source pattern.
#[derive(Clone, Debug, PartialEq, Eq)]
pub enum FilterRecord {
    /// An extension filter, by its extension.
    Extension(String),
    /// An extensions filter, by its extensions.
    Extensions(Vec<String>),
    /// A regular-expression filter, by its source pattern.
    Regex(String),
}

/// The texts of `v`, as a set.
pub open spec fn text_set(v: Seq<String>) -> Set<Seq<char>> {
    Set::new(|e: Seq<char>| exists|i: int| 0 <= i < v.len() && v[i]@ == e)
}

/// The texts of `v`, each without its leading dots, as a set.
pub open spec fn normalized_text_set(v: Seq<String>) -> Set<Seq<char>> {
    Set::new(|e: Seq<char>| exists|i: int| 0 <= i < v.len() && strip_dots(v[i]@) == e)
}

/// Whether `record` is the record of `filter`.
pub open spec fn encodes(filter: PathFilter, record: FilterRecord) -> bool {
    match filter {
        PathFilter::Extension(f) => record matches FilterRecord::Extension(s) && s@ == f@,
        PathFilter::Extensions(f) => record matches FilterRecord::Extensions(v) && text_set(v@)
            == f@,
        PathFilter::Regex(f) => record matches FilterRecord::Regex(p) && p@ == regex_source(
            f.matcher(),
        ),
    }
}

/// Whether `result` is what reading `record` back gives: extensions lose
/// their leading dots, and a pattern is compiled again, which fails exactly
/// when it does not compile.
pub open spec fn decodes(record: FilterRecord, result: Result<PathFilter, regex::Error>) -> bool {
    match record {
        FilterRecord::Extension(s) => result matches Ok(PathFilter::Extension(f)) && f@
            == strip_dots(s@),
        FilterRecord::Extensions(v) => result matches Ok(PathFilter::Extensions(f)) && f@
            == normalized_text_set(v@),
        FilterRecord::Regex(p) => {
            &&& (result is Ok <==> pattern_compiles(p@))
            &&& (result matches Ok(g) ==> (g is Regex && regex_source(g->Regex_0.matcher())
                == p@))
            &&& (result matches Ok(g) ==> forall|t: Seq<char>|
                regex_is_match(g->Regex_0.matcher(), t) == pattern_is_match(p@, t))
        },
    }
}

impl PathFilter {
    /// A filter as this library builds it: extensions are kept without
    /// leading dots.
    pub open spec fn valid(&self) -> bool {
        match self {
            PathFilter::Extension(f) => strip_dots(f@) == f@,
            PathFilter::Extensions(f) => forall|e: Seq<char>|
                #[trigger] f@.contains(e) ==> strip_dots(e) == e,
            PathFilter::Regex(_) => true,
        }
    }

    /// Writes this filter as plain values.
    pub fn to_record(&self) -> (r: FilterRecord)
        ensures
            encodes(*self, r),
            self.valid(),
    {
        match self {
            PathFilter::Extension(f) => FilterRecord::Extension(f.extension().to_owned()),
            PathFilter::Extensions(f) => {
                let exts = f.extensions();
                let out = exts.clone();
                proof {
                    assert forall|i: int| 0 <= i < out@.len() implies out@[i] == exts@[i] by {
                        assert(cloned::<String>(exts[i], out[i]));
                    }
                    assert(out@ =~= exts@);
                    assert forall|e: Seq<char>| text_set(out@).contains(e) == f@.contains(e) by {
                        if f@.contains(e) {
                            let k = choose|k: int| 0 <= k < exts@.len() && exts@[k]@ == e;
                            assert(out@[k]@ == e);
                        }
                    }
                    assert(text_set(out@) =~= f@);
                }
                FilterRecord::Extensions(out)
            },
            PathFilter::Regex(f) => FilterRecord::Regex(f.pattern().to_owned()),
        }
    }

    /// Reads a filter back from its record. A pattern is compiled again and
    /// fails with the engine's error where it does not compile.
    pub fn from_record(record: &FilterRecord) -> (r: Result<PathFilter, regex::Error>)
        ensures
            decodes(*record, r),
    {
        match record {
            FilterRecord::Extension(s) => Ok(PathFilter::Extension(ExtensionFilter::new(s.as_str()))),
            FilterRecord::Extensions(v) => {
                let mut names: Vec<&str> = Vec::new();
                let mut i: usize = 0;
                while i < v.len()
                    invariant
                        i <= v@.len(),
                        names@.len() == i,
                        forall|j: int| 0 <= j < i ==> names@[j]@ == v@[j]@,
                    decreases v@.len() - i,
                {
                    names.push(v[i].as_str());
                    i = i + 1;
                }
                let filter = ExtensionsFilter::new(names.as_slice());
                proof {
                    assert forall|e: Seq<char>|
                        normalized_set(names@).contains(e) == normalized_text_set(v@).contains(e) by {
                        if normalized_set(names@).contains(e) {
                            let k = choose|k: int|
                                0 <= k < names@.len() && strip_dots(names@[k]@) == e;
                            assert(strip_dots(v@[k]@) == e);
                        }
                        if normalized_text_set(v@).contains(e) {
                            let k = choose|k: int| 0 <= k < v@.len() && strip_dots(v@[k]@) == e;
                            assert(strip_dots(names@[k]@) == e);
                        }
                    }
                    assert(normalized_set(names@) =~= normalized_text_set(v@));
                }
                Ok(PathFilter::Extensions(filter))
            },
            FilterRecord::Regex(p) => match RegexFilter::new_str(p.as_str()) {
                Ok(f) => Ok(PathFilter::Regex(f)),
                Err(e) => Err(e),
            },
        }
    }
}

/// Writing a filter as a record and reading it back gives a filter of the
/// same kind that ignores exactly the same paths. Reading back fails only for
/// a regular expression whose source does not compile; the regular
/// expression is one compiled from its source, as `new_str` gives.
pub proof fn lemma_record_round_trip(
    filter: PathFilter,
    record: FilterRecord,
    back: Result<PathFilter, regex::Error>,
)
    requires
        filter.valid(),
        filter matches PathFilter::Regex(f) ==> f.compiled_from_source(),
        encodes(filter, record),
        decodes(record, back),
    ensures
        back is Ok <==> (filter matches PathFilter::Regex(f) ==> pattern_compiles(
            regex_source(f.matcher()),
        )),
        back matches Ok(g) ==> {
            &&& (g is Extension <==> filter is Extension)
            &&& (g is Extensions <==> filter is Extensions)
            &&& (g is Regex <==> filter is Regex)
            &&& forall|path: Seq<char>| g.ignores(path) == filter.ignores(path)
        },
{
    match filter {
        PathFilter::Extension(f) => {},
        PathFilter::Extensions(f) => {
            let v = record->Extensions_0@;
            assert forall|e: Seq<char>| normalized_text_set(v).contains(e) == f@.contains(e) by {
                if normalized_text_set(v).contains(e) {
                    let k = choose|k: int| 0 <= k < v.len() && strip_dots(v[k]@) == e;
                    assert(text_set(v).contains(v[k]@));
                }
                if f@.contains(e) {
                    let k = choose|k: int| 0 <= k < v.len() && v[k]@ == e;
                    assert(strip_dots(v[k]@) == e);
                }
            }
            assert(normalized_text_set(v) =~= f@);
        },
        PathFilter::Regex(f) => {},
    }
}

} // verus!
