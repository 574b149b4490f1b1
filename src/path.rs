use vstd::prelude::*;

verus! {

/// The extension of the path whose text is `path`, as `std::path::Path`
/// computes it, when there is one.
pub uninterp spec fn extension_of(path: Seq<char>) -> Option<Seq<char>>;

/// An optional string seen as an optional sequence of characters.
pub open spec fn opt_string_view(o: Option<String>) -> Option<Seq<char>> {
    match o {
        Some(s) => Some(s@),
        None => None,
    }
}

/// An optional string slice seen as an optional sequence of characters.
pub open spec fn opt_str_view(o: Option<&str>) -> Option<Seq<char>> {
    match o {
        Some(s) => Some(s@),
        None => None,
    }
}

/// `s` with every leading `.` removed.
pub open spec fn strip_dots(s: Seq<char>) -> Seq<char>
    decreases s.len(),
{
    if s.len() > 0 && s[0] == '.' {
        strip_dots(s.drop_first())
    } else {
        s
    }
}

/// After the leading dots are removed none is left, so removing them again
/// changes nothing.
pub proof fn lemma_strip_dots_idempotent(s: Seq<char>)
    ensures
        !(strip_dots(s).len() > 0 && strip_dots(s)[0] == '.'),
        strip_dots(strip_dots(s)) == strip_dots(s),
    decreases s.len(),
{
    if s.len() > 0 && s[0] == '.' {
        lemma_strip_dots_idempotent(s.drop_first());
    }
}

/// Relies on `std::path::Path::extension`: the text after the last `.` of
/// the final component, with none where that component has no `.` past its
/// first character. A path with no `.` at all has no extension.
#[verifier::external_body]
pub(crate) fn path_extension(path: &str) -> (r: Option<String>)
    ensures
        opt_string_view(r) == extension_of(path@),
        !path@.contains('.') ==> r is None,
{
    let ext = std::path::Path::new(path).extension()?;
    Some(ext.to_str()?.to_string())
}

/// Relies on `str::trim_start_matches` with the pattern `'.'`: it removes
/// every leading `.` and keeps the rest.
#[verifier::external_body]
pub(crate) fn trim_leading_dots(s: &str) -> (r: &str)
    ensures
        r@ == strip_dots(s@),
{
    s.trim_start_matches('.')
}

} // verus!
