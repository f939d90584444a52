use vstd::prelude::*;
use crate::text::{chars_of, strip_quotes, unquoted};

verus! {

// Paths are held as text and taken apart, put together and compared by
// `std::path`, as it does on the platform that the library is built for.

/// What `std::path::Path::join` gives for the path `base` and the path `rel`
/// adjoined to it.
pub uninterp spec fn joined_path(base: Seq<char>, rel: Seq<char>) -> Seq<char>;

/// What `std::path::Path::file_name` gives for `path`.
pub uninterp spec fn file_name_of(path: Seq<char>) -> Option<Seq<char>>;

/// What is left of `path` after `std::path::PathBuf::set_extension` with an
/// empty extension.
pub uninterp spec fn without_extension(path: Seq<char>) -> Seq<char>;

/// Whether `std::path::Path` holds `a` and `b` to be equal.
pub uninterp spec fn paths_equal(a: Seq<char>, b: Seq<char>) -> bool;

/// How `std::path::Path` writes `path` with `{:?}`.
pub uninterp spec fn path_debug(path: Seq<char>) -> Seq<char>;

/// Adjoins `rel` to `base` with `std::path::Path::join`. The contract only
/// names the result: it is a function of the two texts.
#[verifier::external_body]
pub(crate) fn join_path(base: &str, rel: &str) -> (res: String)
    ensures
        res@ == joined_path(base@, rel@),
{
    std::path::Path::new(base).join(rel).to_string_lossy().into_owned()
}

/// The last component of `path`, by `std::path::Path::file_name`, which gives
/// none for a path that ends in `..` or holds no name. The contract only
/// names the result.
#[verifier::external_body]
pub(crate) fn file_name(path: &str) -> (res: Option<String>)
    ensures
        match res {
            Some(name) => file_name_of(path@) == Some(name@),
            None => file_name_of(path@) is None,
        },
{
    std::path::Path::new(path).file_name().map(|name| name.to_string_lossy().into_owned())
}

/// `path` with the extension of its file name taken off, by
/// `std::path::PathBuf::set_extension` with an empty extension. The contract
/// only names the result.
#[verifier::external_body]
pub(crate) fn strip_extension(path: &str) -> (res: String)
    ensures
        res@ == without_extension(path@),
{
    let mut buf = std::path::PathBuf::from(path);
    buf.set_extension("");
    buf.to_string_lossy().into_owned()
}

/// Compares two paths as `std::path::Path` does with `==`, component by
/// component. The contract names the result and states that a path equals
/// itself, as `Eq` promises.
#[verifier::external_body]
pub(crate) fn same_path(a: &str, b: &str) -> (res: bool)
    ensures
        res == paths_equal(a@, b@),
        a@ == b@ ==> res,
{
    std::path::Path::new(a) == std::path::Path::new(b)
}

/// Writes `path` as `std::path::Path` does with `{:?}`: quoted, with
/// escapes. The contract only names the result.
#[verifier::external_body]
pub(crate) fn debug_path(path: &str) -> (res: String)
    ensures
        res@ == path_debug(path@),
{
    format!("{:?}", std::path::Path::new(path))
}

/// How a record shows a path: as `std::path::Path` writes it with `{:?}`,
/// the double quotes taken out.
pub open spec fn shown_path(path: Seq<char>) -> Seq<char> {
    unquoted(path_debug(path))
}

/// Writes a path as a record shows it.
pub fn show_path(path: &str) -> (res: Vec<char>)
    ensures
        res@ == shown_path(path@),
{
    strip_quotes(&chars_of(debug_path(path).as_str()))
}

/// What was found at a path when it was looked at.
#[derive(Debug, Clone, Copy, PartialEq, Eq, Structural)]
pub enum PathKind {
    /// Nothing is there.
    Missing,
    /// A regular file.
    File,
    /// A directory.
    Dir,
    /// Something else.
    Other,
}

/// One observation of the file system: what stands at `path`.
#[derive(Debug, Clone, PartialEq, Eq)]
pub struct PathFact {
    pub path: String,
    pub kind: PathKind,
}

/// Why a resolver stopped without a result.
#[derive(Debug, Clone, PartialEq, Eq)]
pub enum Halt {
    /// The path must be looked at first: no fact about it was given.
    Ask(String),
    /// The input is refused, with the reason.
    Fail(String),
}

/// A halt, as texts.
pub enum HaltView {
    Ask(Seq<char>),
    Fail(Seq<char>),
}

impl View for Halt {
    type V = HaltView;

    open spec fn view(&self) -> HaltView {
        match self {
            Halt::Ask(path) => HaltView::Ask(path@),
            Halt::Fail(reason) => HaltView::Fail(reason@),
        }
    }
}

/// What the facts say of `path`: the newest fact about that very text
/// decides.
pub open spec fn known(facts: Seq<PathFact>, path: Seq<char>) -> Option<PathKind>
    decreases facts.len(),
{
    if facts.len() == 0 {
        None
    } else if facts.last().path@ == path {
        Some(facts.last().kind)
    } else {
        known(facts.drop_last(), path)
    }
}

/// The message for a path that should be there and is not.
pub open spec fn missing_message(path: Seq<char>) -> Seq<char> {
    path_debug(path) + " could not be found"@
}

/// Why a path that must exist stops a resolver, if it does: no fact, or the
/// fact that nothing is there.
pub open spec fn needed(facts: Seq<PathFact>, path: Seq<char>) -> Option<HaltView> {
    match known(facts, path) {
        None => Some(HaltView::Ask(path)),
        Some(PathKind::Missing) => Some(HaltView::Fail(missing_message(path))),
        Some(_) => None,
    }
}

/// Looks `path` up in the facts.
pub fn lookup(facts: &Vec<PathFact>, path: &String) -> (res: Option<PathKind>)
    ensures
        res == known(facts@, path@),
{
    let mut i: usize = facts.len();
    proof {
        assert(facts@.take(i as int) =~= facts@);
    }
    while i > 0
        invariant
            i <= facts.len(),
            known(facts@, path@) == known(facts@.take(i as int), path@),
        decreases i,
    {
        proof {
            assert(facts@.take(i as int).drop_last() =~= facts@.take(i - 1));
        }
        i -= 1;
        if facts[i].path == *path {
            return Some(facts[i].kind);
        }
    }
    None
}

/// Requires that something stands at `path`.
pub fn require(facts: &Vec<PathFact>, path: &String) -> (res: Option<Halt>)
    ensures
        match res {
            Some(halt) => needed(facts@, path@) == Some(halt@),
            None => needed(facts@, path@) is None,
        },
{
    match lookup(facts, path) {
        None => Some(Halt::Ask(path.clone())),
        Some(PathKind::Missing) => {
            let mut msg = debug_path(path.as_str());
            msg.append(" could not be found");
            Some(Halt::Fail(msg))
        },
        Some(_) => None,
    }
}

} // verus!
