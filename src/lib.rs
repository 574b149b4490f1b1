//! Filters that decide whether a path should be ignored: by its extension,
//! by a set of extensions, or by a regular expression over its text, and any
//! sequence of such filters combined as a logical "or".
//!
//! A path is given by its text. Each filter also offers an entry point that
//! takes the parts of a path it reads (its extension, its text form) so that
//! paths which are not valid text can still be filtered.

mod path;
mod ignore;
mod extension;
mod pattern;
mod filter;
mod record;

pub use crate::path::{extension_of, opt_str_view, strip_dots};
pub use crate::ignore::IgnorePath;
pub use crate::extension::{
    lemma_extensions_filter_membership,
    lemma_leading_dot_is_stripped,
    lemma_no_extension_no_ignore,
    lemma_with_extension_on_empty,
    normalized_set,
    ExtensionFilter,
    ExtensionsFilter,
};
pub use crate::pattern::{
    pattern_compiles,
    pattern_is_match,
    regex_is_match,
    regex_source,
    RegexFilter,
};
pub use crate::filter::{
    any_ignores,
    any_ignores_parts,
    ignore_any,
    ignore_any_parts,
    lemma_empty_sequence_ignores_nothing,
    lemma_order_of_filters_irrelevant,
    PathFilter,
};
pub use crate::record::{
    decodes,
    encodes,
    lemma_record_round_trip,
    normalized_text_set,
    text_set,
    FilterRecord,
};
