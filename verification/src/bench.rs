//! Where a bench or demo run keeps its files: one memory database per
//! mode, beside the one the user named.
use crate::text::push_str;
use vstd::prelude::*;

verus! {

/// What `Path::parent` gives for a path, as text.
pub uninterp spec fn parent_of(path: Seq<char>) -> Option<Seq<char>>;

/// What `Path::file_stem` gives for a path, as text.
pub uninterp spec fn file_stem_of(path: Seq<char>) -> Option<Seq<char>>;

/// What `Path::extension` gives for a path, as text.
pub uninterp spec fn extension_of(path: Seq<char>) -> Option<Seq<char>>;

/// What `Path::join` gives for a base and a relative name, as text.
pub uninterp spec fn joined(base: Seq<char>, name: Seq<char>) -> Seq<char>;

/// `std::path::Path::parent`: the path without its final component, named
/// `parent_of`.
#[verifier::external_body]
fn path_parent(path: &str) -> (r: Option<String>)
    ensures
        match r {
            Some(p) => parent_of(path@) == Some(p@),
            None => parent_of(path@) is None,
        },
{
    std::path::Path::new(path).parent().map(|p| p.to_string_lossy().into_owned())
}

/// `std::path::Path::file_stem`: the file name without its extension,
/// named `file_stem_of`.
#[verifier::external_body]
fn path_file_stem(path: &str) -> (r: Option<String>)
    ensures
        match r {
            Some(p) => file_stem_of(path@) == Some(p@),
            None => file_stem_of(path@) is None,
        },
{
    std::path::Path::new(path).file_stem().map(|p| p.to_string_lossy().into_owned())
}

/// `std::path::Path::extension`: the part of the file name after its last
/// dot, named `extension_of`.
#[verifier::external_body]
fn path_extension(path: &str) -> (r: Option<String>)
    ensures
        match r {
            Some(p) => extension_of(path@) == Some(p@),
            None => extension_of(path@) is None,
        },
{
    std::path::Path::new(path).extension().map(|p| p.to_string_lossy().into_owned())
}

/// `std::path::Path::join`: `name` under `base`, named `joined`. As std
/// documents it for Unix (`PathBuf::push`): an absolute name replaces the
/// base; an empty base gives the name; otherwise the two are joined with
/// one `/` unless the base already ends in one.
#[verifier::external_body]
pub(crate) fn path_join(base: &str, name: &str) -> (r: String)
    ensures
        r@ == joined(base@, name@),
        name@.len() > 0 && name@[0] == '/' ==> r@ == name@,
        !(name@.len() > 0 && name@[0] == '/') ==> r@ == if base@.len() == 0 {
            name@
        } else if base@.last() == '/' {
            base@ + name@
        } else {
            base@ + seq!['/'] + name@
        },
{
    std::path::Path::new(base).join(name).to_string_lossy().into_owned()
}

/// The file name of a mode's database: `<stem>-<mode>.<extension>`, with
/// `memlink` for a missing stem and `sqlite` for a missing extension.
pub open spec fn mode_file_name(
    stem: Option<Seq<char>>,
    mode: Seq<char>,
    extension: Option<Seq<char>>,
) -> Seq<char> {
    let s = match stem {
        Some(s) => s,
        None => "memlink"@,
    };
    let e = match extension {
        Some(e) => e,
        None => "sqlite"@,
    };
    s + "-"@ + mode + "."@ + e
}

/// The path of a mode's database beside `path`: in `path`'s directory
/// (`.` when it has none), named after its stem, the mode and its
/// extension.
pub open spec fn mode_memory_path_spec(path: Seq<char>, mode: Seq<char>) -> Seq<char> {
    let dir = match parent_of(path) {
        Some(p) => p,
        None => "."@,
    };
    joined(dir, mode_file_name(file_stem_of(path), mode, extension_of(path)))
}

/// The file name of a mode's database.
pub fn memory_file_name(stem: Option<String>, mode: &str, extension: Option<String>) -> (r: String)
    ensures
        r@ == mode_file_name(
            match stem {
                Some(s) => Some(s@),
                None => None,
            },
            mode@,
            match extension {
                Some(e) => Some(e@),
                None => None,
            },
        ),
{
    let mut name = match stem {
        Some(s) => s,
        None => String::from_str("memlink"),
    };
    push_str(&mut name, "-");
    push_str(&mut name, mode);
    push_str(&mut name, ".");
    match extension {
        Some(e) => push_str(&mut name, e.as_str()),
        None => push_str(&mut name, "sqlite"),
    }
    name
}

/// The path of a mode's database beside the database at `path`, so that
/// text and structured runs never share their memories.
pub fn mode_memory_path(path: &str, mode: &str) -> (r: String)
    ensures
        r@ == mode_memory_path_spec(path@, mode@),
{
    let dir = match path_parent(path) {
        Some(p) => p,
        None => String::from_str("."),
    };
    let stem = path_file_stem(path);
    let extension = path_extension(path);
    let name = memory_file_name(stem, mode, extension);
    path_join(dir.as_str(), name.as_str())
}

} // verus!
