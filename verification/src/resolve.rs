use vstd::prelude::*;
use crate::action::{DirSpec, InstallDir};
use crate::paths::{
    join_path, joined_path, known, lookup, needed, require, show_path,
    shown_path, Halt, HaltView, PathFact, PathKind,
};
use crate::text::{
    append_str, chars_of, find_first, find_last, first_place, last_place, slice, string_of,
    strip_dollars, text_is, without_dollars,
};

verus! {

/// The installation locations, as far as they could be resolved.
#[derive(Debug, Clone, PartialEq, Eq)]
pub struct Locations {
    pub alias: Option<String>,
    pub bin: Option<String>,
    pub config: Option<String>,
    pub data: Option<String>,
    pub lib: Option<String>,
    pub local_config: Option<String>,
    pub local_data: Option<String>,
    pub home: Option<String>,
}

/// The locations that a shortcut can stand for.
#[derive(Debug, Clone, Copy, PartialEq, Eq, Structural)]
pub enum Shortcut {
    Alias,
    Bin,
    Config,
    Data,
    Lib,
    LocalConfig,
    LocalData,
    Home,
}

/// The text of a string that may be wanting.
pub open spec fn opt_text(o: Option<String>) -> Option<Seq<char>> {
    match o {
        Some(s) => Some(s@),
        None => None,
    }
}

/// The location that a shortcut's name stands for. Names are reserved words,
/// in upper case.
pub open spec fn shortcut_named(name: Seq<char>) -> Option<Shortcut> {
    if name == "A"@ || name == "ALIAS"@ {
        Some(Shortcut::Alias)
    } else if name == "B"@ || name == "BIN"@ {
        Some(Shortcut::Bin)
    } else if name == "C"@ || name == "CONFIG"@ {
        Some(Shortcut::Config)
    } else if name == "D"@ || name == "DATA"@ {
        Some(Shortcut::Data)
    } else if name == "LB"@ || name == "LIB"@ {
        Some(Shortcut::Lib)
    } else if name == "LC"@ || name == "LCONFIG"@ || name == "LOCALCONFIG"@ {
        Some(Shortcut::LocalConfig)
    } else if name == "LD"@ || name == "LDATA"@ || name == "LOCALDATA"@ {
        Some(Shortcut::LocalData)
    } else if name == "HOME"@ || name == "~"@ {
        Some(Shortcut::Home)
    } else {
        None
    }
}

/// The path of a location, where it could be resolved.
pub open spec fn location_of(which: Shortcut, locations: Locations) -> Option<Seq<char>> {
    match which {
        Shortcut::Alias => opt_text(locations.alias),
        Shortcut::Bin => opt_text(locations.bin),
        Shortcut::Config => opt_text(locations.config),
        Shortcut::Data => opt_text(locations.data),
        Shortcut::Lib => opt_text(locations.lib),
        Shortcut::LocalConfig => opt_text(locations.local_config),
        Shortcut::LocalData => opt_text(locations.local_data),
        Shortcut::Home => opt_text(locations.home),
    }
}

/// The directory that a shortcut resolves to: the location that its name
/// stands for, dollar signs at its start set aside.
pub open spec fn shortcut_base(shortcut: Seq<char>, locations: Locations) -> Option<Seq<char>> {
    match shortcut_named(without_dollars(shortcut)) {
        Some(which) => location_of(which, locations),
        None => None,
    }
}

/// A target split at its last slash: the directory part and the name part.
pub open spec fn split_target(target: Seq<char>) -> (Seq<char>, Seq<char>) {
    match last_place(target, '/') {
        Some(i) => (target.subrange(0, i), target.subrange(i + 1, target.len() as int)),
        None => (Seq::<char>::empty(), target),
    }
}

/// A destination split at its first slash: the leading part and the rest.
pub open spec fn split_dest(dest: Seq<char>) -> (Seq<char>, Seq<char>) {
    match first_place(dest, '/') {
        Some(i) => (dest.subrange(0, i), dest.subrange(i + 1, dest.len() as int)),
        None => (dest, Seq::<char>::empty()),
    }
}

/// Why resolving a target stops, if it does, given the source directory
/// `dir` and the source `file` in it: the directory must exist, and so must
/// the file where its name is given and holds no `*`.
pub open spec fn target_stop(
    name: Seq<char>,
    dir: Seq<char>,
    file: Seq<char>,
    facts: Seq<PathFact>,
) -> Option<HaltView> {
    if needed(facts, dir) is Some {
        needed(facts, dir)
    } else if name.len() > 0 && !name.contains('*') {
        needed(facts, file)
    } else {
        None
    }
}

/// What a target resolves to, given the manifest's directory and the facts:
/// the directory part adjoined to the manifest's directory, and the name or
/// pattern. The directory must exist; a name without `*` must exist in it
/// too.
pub open spec fn target_of(target: Seq<char>, manifest_dir: Seq<char>, facts: Seq<PathFact>)
    -> Result<(Seq<char>, Seq<char>), HaltView> {
    let (root, name) = split_target(target);
    let dir = joined_path(manifest_dir, root);
    let file = joined_path(dir, name);
    match target_stop(name, dir, file, facts) {
        Some(halt) => Err(halt),
        None => Ok((dir, name)),
    }
}

/// What a destination resolves to: a shortcut's location with the rest
/// adjoined, or else the whole token as a path that must exist.
pub open spec fn dest_of(dest: Seq<char>, locations: Locations, facts: Seq<PathFact>) -> Result<
    Seq<char>,
    HaltView,
> {
    let (top, rest) = split_dest(dest);
    match shortcut_base(top, locations) {
        Some(base) => Ok(
            if rest.len() > 0 {
                joined_path(base, rest)
            } else {
                base
            },
        ),
        None => match known(facts, dest) {
            None => Err(HaltView::Ask(dest)),
            Some(PathKind::Missing) => Err(HaltView::Fail("Could not parse destination"@)),
            Some(_) => Ok(dest),
        },
    }
}

/// What is said of a directory that is to be created, by what stands there.
pub open spec fn dir_note(kind: PathKind) -> Seq<char> {
    match kind {
        PathKind::Dir => "Did not create: Directory exists."@,
        PathKind::File => "Did not create: File exists with that name."@,
        _ => "Created directory!"@,
    }
}

/// The record line of a directory: the path, then the note as a comment.
pub open spec fn dir_line(dir: Seq<char>, note: Seq<char>) -> Seq<char> {
    shown_path(dir) + "\n\t# "@ + note + "\n"@
}

/// The directory action for the unit `util_name` under `root`.
pub open spec fn util_dir_of(root: Seq<char>, util_name: Seq<char>, facts: Seq<PathFact>)
    -> Result<DirSpec, HaltView> {
    let dir = joined_path(root, util_name);
    match known(facts, dir) {
        None => Err(HaltView::Ask(dir)),
        Some(kind) => Ok(DirSpec { dir: dir, msg: dir_line(dir, dir_note(kind)) }),
    }
}

/// The result of resolving a target, as texts.
pub open spec fn pair_view(r: Result<(String, String), Halt>) -> Result<
    (Seq<char>, Seq<char>),
    HaltView,
> {
    match r {
        Ok(pair) => Ok((pair.0@, pair.1@)),
        Err(halt) => Err(halt@),
    }
}

/// The result of resolving a destination, as texts.
pub open spec fn text_view(r: Result<String, Halt>) -> Result<Seq<char>, HaltView> {
    match r {
        Ok(text) => Ok(text@),
        Err(halt) => Err(halt@),
    }
}

/// The result of making a directory action, as texts.
pub open spec fn dir_view(r: Result<InstallDir, Halt>) -> Result<DirSpec, HaltView> {
    match r {
        Ok(dir) => Ok(dir@),
        Err(halt) => Err(halt@),
    }
}

/// Tells which location a shortcut's name stands for.
pub fn shortcut_kind(name: &Vec<char>) -> (res: Option<Shortcut>)
    ensures
        res == shortcut_named(name@),
{
    if text_is(name, "A") || text_is(name, "ALIAS") {
        Some(Shortcut::Alias)
    } else if text_is(name, "B") || text_is(name, "BIN") {
        Some(Shortcut::Bin)
    } else if text_is(name, "C") || text_is(name, "CONFIG") {
        Some(Shortcut::Config)
    } else if text_is(name, "D") || text_is(name, "DATA") {
        Some(Shortcut::Data)
    } else if text_is(name, "LB") || text_is(name, "LIB") {
        Some(Shortcut::Lib)
    } else if text_is(name, "LC") || text_is(name, "LCONFIG") || text_is(name, "LOCALCONFIG") {
        Some(Shortcut::LocalConfig)
    } else if text_is(name, "LD") || text_is(name, "LDATA") || text_is(name, "LOCALDATA") {
        Some(Shortcut::LocalData)
    } else if text_is(name, "HOME") || text_is(name, "~") {
        Some(Shortcut::Home)
    } else {
        None
    }
}

fn copy_of(o: &Option<String>) -> (res: Option<String>)
    ensures
        res == *o,
{
    match o {
        Some(s) => Some(s.clone()),
        None => None,
    }
}

/// Resolves a shortcut to its location. Gives nothing for a name that is no
/// shortcut, and for a location that could not be resolved.
pub fn expand_mythos_shortcut(shortcut: &str, locations: &Locations) -> (res: Option<String>)
    ensures
        opt_text(res) == shortcut_base(shortcut@, *locations),
{
    let name = strip_dollars(&chars_of(shortcut));
    match shortcut_kind(&name) {
        Some(Shortcut::Alias) => copy_of(&locations.alias),
        Some(Shortcut::Bin) => copy_of(&locations.bin),
        Some(Shortcut::Config) => copy_of(&locations.config),
        Some(Shortcut::Data) => copy_of(&locations.data),
        Some(Shortcut::Lib) => copy_of(&locations.lib),
        Some(Shortcut::LocalConfig) => copy_of(&locations.local_config),
        Some(Shortcut::LocalData) => copy_of(&locations.local_data),
        Some(Shortcut::Home) => copy_of(&locations.home),
        None => None,
    }
}

/// Splits a target at its last slash into the directory part and the name
/// part. Without a slash all of it is the name.
pub fn cut_target(target: &str) -> (res: (String, String))
    ensures
        (res.0@, res.1@) == split_target(target@),
{
    let t = chars_of(target);
    match find_last(&t, '/') {
        Some(i) => {
            let after: usize = i + 1;
            (string_of(&slice(&t, 0, i)), string_of(&slice(&t, after, t.len())))
        },
        None => (String::new(), target.to_owned()),
    }
}

/// Splits a destination at its first slash into the leading part and the
/// rest. Without a slash all of it is the leading part.
pub fn cut_dest(dest: &str) -> (res: (String, String))
    ensures
        (res.0@, res.1@) == split_dest(dest@),
{
    let d = chars_of(dest);
    match find_first(&d, '/') {
        Some(i) => {
            let after: usize = i + 1;
            (string_of(&slice(&d, 0, i)), string_of(&slice(&d, after, d.len())))
        },
        None => (dest.to_owned(), String::new()),
    }
}

/// Tells why resolving a target stops, if it does, given the source
/// directory `dir` and the source `file` in it.
pub fn check_target(name: &str, dir: &String, file: &String, facts: &Vec<PathFact>) -> (res:
    Option<Halt>)
    ensures
        match res {
            Some(halt) => target_stop(name@, dir@, file@, facts@) == Some(halt@),
            None => target_stop(name@, dir@, file@, facts@) is None,
        },
{
    if let Some(halt) = require(facts, dir) {
        return Some(halt);
    }
    let n = chars_of(name);
    if n.len() > 0 && find_first(&n, '*').is_none() {
        return require(facts, file);
    }
    None
}

/// Resolves a target against the manifest's directory. Stops with
/// `Halt::Ask` at the first path that must exist and of which no fact is
/// given, and with `Halt::Fail` at the first that is missing.
pub fn parse_target(target: &str, charon_path: &str, facts: &Vec<PathFact>) -> (res: Result<
    (String, String),
    Halt,
>)
    ensures
        pair_view(res) == target_of(target@, charon_path@, facts@),
{
    let (root, name) = cut_target(target);
    let dir = join_path(charon_path, root.as_str());
    let file = join_path(dir.as_str(), name.as_str());
    if let Some(halt) = check_target(name.as_str(), &dir, &file, facts) {
        return Err(halt);
    }
    Ok((dir, name))
}

/// Resolves a destination: a shortcut first, a path that exists second.
pub fn parse_dest(dest: &str, locations: &Locations, facts: &Vec<PathFact>) -> (res: Result<
    String,
    Halt,
>)
    ensures
        text_view(res) == dest_of(dest@, *locations, facts@),
{
    let (top, rest) = cut_dest(dest);
    match expand_mythos_shortcut(top.as_str(), locations) {
        Some(base) => {
            if rest.as_str().unicode_len() > 0 {
                Ok(join_path(base.as_str(), rest.as_str()))
            } else {
                Ok(base)
            }
        },
        None => {
            let whole = dest.to_owned();
            match lookup(facts, &whole) {
                None => Err(Halt::Ask(whole)),
                Some(PathKind::Missing) => Err(
                    Halt::Fail("Could not parse destination".to_owned()),
                ),
                Some(_) => Ok(whole),
            }
        },
    }
}

/// Writes the record line of a directory.
pub fn write_dir_line(dir: &str, note: &str) -> (res: String)
    ensures
        res@ == dir_line(dir@, note@),
{
    let mut line = show_path(dir);
    append_str(&mut line, "\n\t# ");
    append_str(&mut line, note);
    append_str(&mut line, "\n");
    string_of(&line)
}

/// The note for a directory that is to be created, by what stands there.
pub fn note_for(kind: PathKind) -> (res: &'static str)
    ensures
        res@ == dir_note(kind),
{
    match kind {
        PathKind::Dir => "Did not create: Directory exists.",
        PathKind::File => "Did not create: File exists with that name.",
        _ => "Created directory!",
    }
}

/// Makes the action that ensures the unit's directory under `root`. It
/// creates nothing: it records what stands there now.
pub fn create_util_dir(root: &str, util_name: &str, facts: &Vec<PathFact>) -> (res: Result<
    InstallDir,
    Halt,
>)
    ensures
        dir_view(res) == util_dir_of(root@, util_name@, facts@),
{
    let dir = join_path(root, util_name);
    match lookup(facts, &dir) {
        None => Err(Halt::Ask(dir)),
        Some(kind) => {
            let msg = write_dir_line(dir.as_str(), note_for(kind));
            Ok(InstallDir::new(dir, msg))
        },
    }
}

} // verus!
