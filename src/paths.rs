//! File paths as text, and the parts of `std::path` that the library reads.
use vstd::prelude::*;

verus! {

/// What `Path::file_name` returns for the path `p`, as text.
pub uninterp spec fn path_file_name(p: Seq<char>) -> Option<Seq<char>>;

/// What `Path::parent` returns for the path `p`, as text.
pub uninterp spec fn path_parent(p: Seq<char>) -> Option<Seq<char>>;

/// What `Path::extension` returns for the path `p`, as text.
pub uninterp spec fn path_extension(p: Seq<char>) -> Option<Seq<char>>;

/// What `Path::join` makes of `base` and `name`, as text.
pub uninterp spec fn path_join(base: Seq<char>, name: Seq<char>) -> Seq<char>;

/// Relies on `std::path::Path::file_name`: the last component of the path,
/// `None` where there is none.
#[verifier::external_body]
fn file_name_of(p: &str) -> (r: Option<String>)
    ensures
        r is None <==> path_file_name(p@) is None,
        r matches Some(s) ==> path_file_name(p@) == Some(s@),
{
    std::path::Path::new(p).file_name().map(|n| n.to_string_lossy().into_owned())
}

/// Relies on `std::path::Path::parent`: the path without its last
/// component, `None` where the path ends in a root or is empty.
#[verifier::external_body]
fn parent_of(p: &str) -> (r: Option<String>)
    ensures
        r is None <==> path_parent(p@) is None,
        r matches Some(s) ==> path_parent(p@) == Some(s@),
{
    std::path::Path::new(p).parent().map(|q| q.to_string_lossy().into_owned())
}

/// Relies on `std::path::Path::extension`: the text after the last dot of
/// the file name, `None` where there is none.
#[verifier::external_body]
pub(crate) fn extension_of(p: &str) -> (r: Option<String>)
    ensures
        r is None <==> path_extension(p@) is None,
        r matches Some(s) ==> path_extension(p@) == Some(s@),
{
    std::path::Path::new(p).extension().map(|e| e.to_string_lossy().into_owned())
}

/// Relies on `std::path::Path::join`: `name` appended to `base` as a path.
#[verifier::external_body]
pub(crate) fn join_path(base: &str, name: &str) -> (r: String)
    ensures
        r@ == path_join(base@, name@),
{
    std::path::Path::new(base).join(name).to_string_lossy().into_owned()
}

/// Index of the last `.` of `s`, or -1.
pub open spec fn last_dot(s: Seq<char>) -> int
    decreases s.len(),
{
    if s.len() == 0 {
        -1
    } else if s.last() == '.' {
        s.len() - 1
    } else {
        last_dot(s.drop_last())
    }
}

/// `s` up to its last `.`, or all of `s` where it has none.
pub open spec fn before_last_dot(s: Seq<char>) -> Seq<char> {
    if last_dot(s) < 0 {
        s
    } else {
        s.subrange(0, last_dot(s))
    }
}

proof fn lemma_last_dot_bounds(s: Seq<char>)
    ensures
        -1 <= last_dot(s) < s.len(),
    decreases s.len(),
{
    if s.len() > 0 {
        lemma_last_dot_bounds(s.drop_last());
    }
}

/// The part of `s` before its last `.`.
pub fn stem(s: &str) -> (r: String)
    ensures
        r@ == before_last_dot(s@),
{
    let n = s.unicode_len();
    let mut k: usize = n;
    assert(s@.subrange(0, n as int) =~= s@);
    while k > 0
        invariant
            k <= n,
            n == s@.len(),
            last_dot(s@) == last_dot(s@.subrange(0, k as int)),
        decreases k,
    {
        let ghost pre = s@.subrange(0, k as int);
        assert(pre.drop_last() =~= s@.subrange(0, k - 1));
        if s.get_char(k - 1) == '.' {
            proof {
                assert(pre.last() == '.');
            }
            return String::from_str(s.substring_char(0, k - 1));
        }
        k = k - 1;
    }
    proof {
        lemma_last_dot_bounds(s@);
    }
    String::from_str(s)
}

/// Why a path does not name a file in a directory.
#[derive(Clone, Copy, Debug, PartialEq, Eq, Structural)]
pub enum FileInfoError {
    /// The path has no file name.
    NoFileName,
    /// The path has no parent directory.
    NoParent,
}

/// The file's name without its extension, and its directory.
pub fn extract_file_info(file_path: &str) -> (r: Result<(String, String), FileInfoError>)
    ensures
        path_file_name(file_path@) is None ==> r == Err::<(String, String), _>(FileInfoError::NoFileName),
        path_file_name(file_path@) is Some && path_parent(file_path@) is None ==> r == Err::<
            (String, String),
            _,
        >(FileInfoError::NoParent),
        path_file_name(file_path@) is Some && path_parent(file_path@) is Some ==> (r matches Ok(
            info,
        ) && info.0@ == before_last_dot(path_file_name(file_path@)->0) && info.1@ == path_parent(
            file_path@,
        )->0),
{
    let file_name = match file_name_of(file_path) {
        Some(name) => name,
        None => return Err(FileInfoError::NoFileName),
    };
    let name = stem(file_name.as_str());
    let parent = match parent_of(file_path) {
        Some(parent) => parent,
        None => return Err(FileInfoError::NoParent),
    };
    Ok((name, parent))
}

} // verus!
