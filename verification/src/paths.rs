//! The parts of a file system path that std's `Path` reads out of it.
use vstd::prelude::*;

verus! {

/// What `Path::file_name` gives for a path, as text.
pub uninterp spec fn file_name_of(p: Seq<char>) -> Option<Seq<char>>;

/// What `Path::file_stem` gives for a path, as text.
pub uninterp spec fn file_stem_of(p: Seq<char>) -> Option<Seq<char>>;

/// What `Path::extension` gives for a path, as text.
pub uninterp spec fn extension_of(p: Seq<char>) -> Option<Seq<char>>;

/// What `Path::parent` gives for a path, as text.
pub uninterp spec fn parent_of(p: Seq<char>) -> Option<Seq<char>>;

/// Whether `Path`'s `==` holds of two paths (it compares components).
pub uninterp spec fn same_path(a: Seq<char>, b: Seq<char>) -> bool;

/// std's `Path::file_name`: the final component of the path, if there is
/// one (none for a path ending in `..` or the root alone).
#[verifier::external_body]
pub(crate) fn path_file_name(p: &str) -> (r: Option<String>)
    ensures
        match r {
            Some(s) => file_name_of(p@) == Some(s@),
            None => file_name_of(p@) is None,
        },
{
    match std::path::Path::new(p).file_name() {
        Some(n) => match n.to_str() {
            Some(s) => Some(String::from(s)),
            None => None,
        },
        None => None,
    }
}

/// std's `Path::file_stem`: the file name without its extension.
#[verifier::external_body]
pub(crate) fn path_file_stem(p: &str) -> (r: Option<String>)
    ensures
        match r {
            Some(s) => file_stem_of(p@) == Some(s@),
            None => file_stem_of(p@) is None,
        },
{
    match std::path::Path::new(p).file_stem() {
        Some(n) => match n.to_str() {
            Some(s) => Some(String::from(s)),
            None => None,
        },
        None => None,
    }
}

/// std's `Path::extension`: what follows the last dot of the file name.
#[verifier::external_body]
pub(crate) fn path_extension(p: &str) -> (r: Option<String>)
    ensures
        match r {
            Some(s) => extension_of(p@) == Some(s@),
            None => extension_of(p@) is None,
        },
{
    match std::path::Path::new(p).extension() {
        Some(n) => match n.to_str() {
            Some(s) => Some(String::from(s)),
            None => None,
        },
        None => None,
    }
}

/// std's `Path::parent`: the path without its final component.
#[verifier::external_body]
pub(crate) fn path_parent(p: &str) -> (r: Option<String>)
    ensures
        match r {
            Some(s) => parent_of(p@) == Some(s@),
            None => parent_of(p@) is None,
        },
{
    match std::path::Path::new(p).parent() {
        Some(n) => match n.to_str() {
            Some(s) => Some(String::from(s)),
            None => None,
        },
        None => None,
    }
}

/// std's `==` on `Path`: equal components.
#[verifier::external_body]
pub(crate) fn path_eq(a: &str, b: &str) -> (r: bool)
    ensures
        r == same_path(a@, b@),
{
    std::path::Path::new(a) == std::path::Path::new(b)
}

} // verus!
