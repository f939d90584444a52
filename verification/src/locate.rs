use vstd::prelude::*;
use crate::paths::{join_path, joined_path};
use crate::text::{chars_of, text_is, texts};

verus! {

/// What `std::path::Path::extension` gives for `path`.
pub uninterp spec fn extension_of(path: Seq<char>) -> Option<Seq<char>>;

/// The extension of the file name of `path`, by
/// `std::path::Path::extension`, which gives none for a path without a file
/// name and for a name without a dot behind its first character. The
/// contract only names the result.
#[verifier::external_body]
pub(crate) fn extension(path: &str) -> (res: Option<String>)
    ensures
        match res {
            Some(ext) => extension_of(path@) == Some(ext@),
            None => extension_of(path@) is None,
        },
{
    std::path::Path::new(path).extension().map(|ext| ext.to_string_lossy().into_owned())
}

/// Where the manifest is looked for: an absolute argument as it is, any
/// other below the working directory, no argument in the working directory
/// itself. Without a working directory only an absolute argument will do.
pub open spec fn install_path(arg: Seq<char>, cwd: Option<Seq<char>>) -> Result<
    Seq<char>,
    Seq<char>,
> {
    if arg.len() > 0 && arg[0] == '/' {
        Ok(arg)
    } else if cwd is None {
        Err("Could not get CWD"@)
    } else if arg.len() == 0 {
        Ok(cwd->0)
    } else {
        Ok(joined_path(cwd->0, arg))
    }
}

/// A path or a message, as texts.
pub open spec fn path_view(r: Result<String, String>) -> Result<Seq<char>, Seq<char>> {
    match r {
        Ok(path) => Ok(path@),
        Err(msg) => Err(msg@),
    }
}

/// The path at which the manifest is looked for, given the argument and the
/// working directory, where there is one.
pub fn get_install_file_path(arg: &str, cwd: Option<&str>) -> (res: Result<String, String>)
    ensures
        path_view(res) == install_path(
            arg@,
            match cwd {
                Some(dir) => Some(dir@),
                None => None,
            },
        ),
{
    let a = chars_of(arg);
    if a.len() > 0 && a[0] == '/' {
        return Ok(arg.to_owned());
    }
    match cwd {
        None => Err("Could not get CWD".to_owned()),
        Some(dir) => {
            if a.len() == 0 {
                Ok(dir.to_owned())
            } else {
                Ok(join_path(dir, arg))
            }
        },
    }
}

/// Whether a path names a manifest: its extension is `charon`.
pub open spec fn is_manifest(path: Seq<char>) -> bool {
    extension_of(path) == Some("charon"@)
}

/// Tells whether a path names a manifest.
pub fn is_charon_file(path: &str) -> (res: bool)
    ensures
        res == is_manifest(path@),
{
    match extension(path) {
        Some(ext) => text_is(&chars_of(ext.as_str()), "charon"),
        None => false,
    }
}

/// Finds the manifest among the entries of a directory: the first entry
/// that names one.
pub fn find_charon_file(entries: &Vec<String>) -> (res: Option<usize>)
    ensures
        match res {
            Some(i) => i < entries@.len() && is_manifest(entries@[i as int]@) && forall|j: int|
                0 <= j < i ==> !is_manifest(#[trigger] texts(entries@)[j]),
            None => forall|j: int|
                0 <= j < entries@.len() ==> !is_manifest(#[trigger] texts(entries@)[j]),
        },
{
    let mut i: usize = 0;
    while i < entries.len()
        invariant
            i <= entries.len(),
            forall|j: int| 0 <= j < i ==> !is_manifest(#[trigger] texts(entries@)[j]),
        decreases entries.len() - i,
    {
        if is_charon_file(entries[i].as_str()) {
            return Some(i);
        }
        proof {
            assert(texts(entries@)[i as int] == entries@[i as int]@);
        }
        i += 1;
    }
    None
}

} // verus!
