//! The two questions the tools ask of a path's text, answered by `std::path::Path`.
use vstd::prelude::*;

verus! {

/// The extension `Path::extension` finds in the path with this text.
pub uninterp spec fn extension_of(path: Seq<char>) -> Option<Seq<char>>;

/// The stem `Path::file_stem` finds in the path with this text.
pub uninterp spec fn file_stem_of(path: Seq<char>) -> Option<Seq<char>>;

/// The text of an optional string, as an optional character sequence.
pub open spec fn opt_text(o: Option<&str>) -> Option<Seq<char>> {
    match o {
        Some(s) => Some(s@),
        None => None,
    }
}

/// Calls `Path::extension` on the path with this text. The result is a
/// function of the text alone; what it is for given text is left to std and
/// not restated here.
#[verifier::external_body]
pub(crate) fn path_extension(path: &str) -> (r: Option<String>)
    ensures
        r matches Some(e) ==> extension_of(path@) == Some(e@),
        r is None ==> extension_of(path@) is None,
{
    std::path::Path::new(path).extension().and_then(|e| e.to_str()).map(String::from)
}

/// Calls `Path::file_stem` on the path with this text. The result is a
/// function of the text alone; what it is for given text is left to std and
/// not restated here.
#[verifier::external_body]
pub(crate) fn path_file_stem(path: &str) -> (r: Option<String>)
    ensures
        r matches Some(e) ==> file_stem_of(path@) == Some(e@),
        r is None ==> file_stem_of(path@) is None,
{
    std::path::Path::new(path).file_stem().and_then(|e| e.to_str()).map(String::from)
}

} // verus!
