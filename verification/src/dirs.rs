use vstd::prelude::*;
use crate::paths::{join_path, joined_path, known, lookup, Halt, HaltView, PathFact, PathKind};
use crate::resolve::opt_text;
use crate::text::{chars_of, string_of, strip_dollars, text_is, without_dollars};

verus! {

/// What `str::replace` gives for `s` with every match of `from` replaced by
/// `to`.
pub uninterp spec fn replaced(s: Seq<char>, from: Seq<char>, to: Seq<char>) -> Seq<char>;

/// What `str::to_lowercase` gives for `s`.
pub uninterp spec fn lowercased(s: Seq<char>) -> Seq<char>;

/// What `str::to_uppercase` gives for `s`.
pub uninterp spec fn uppercased(s: Seq<char>) -> Seq<char>;

/// Replaces every match of `from` in `s` by `to`, with `str::replace`. The
/// contract only names the result.
#[verifier::external_body]
pub(crate) fn replace_all(s: &str, from: &str, to: &str) -> (res: String)
    ensures
        res@ == replaced(s@, from@, to@),
{
    s.replace(from, to)
}

/// The lower case of `s`, by `str::to_lowercase`. The contract only names
/// the result.
#[verifier::external_body]
pub(crate) fn lowercase(s: &str) -> (res: String)
    ensures
        res@ == lowercased(s@),
{
    s.to_lowercase()
}

/// The upper case of `s`, by `str::to_uppercase`. The contract only names
/// the result.
#[verifier::external_body]
pub(crate) fn uppercase(s: &str) -> (res: String)
    ensures
        res@ == uppercased(s@),
{
    s.to_uppercase()
}

/// The installation locations.
#[derive(PartialEq, Eq, Clone, Copy, Debug, Structural)]
pub enum MythosDir {
    Config,
    Data,
    Bin,
    Lib,
    Alias,
    LocalData,
    LocalConfig,
    Log,
}

/// What the environment says of the locations: the value of each location's
/// variable, where it is set, and the home directory, where it is known.
#[derive(Debug, Clone, PartialEq, Eq)]
pub struct DirEnv {
    pub config: Option<String>,
    pub data: Option<String>,
    pub bin: Option<String>,
    pub lib: Option<String>,
    pub alias: Option<String>,
    pub local_data: Option<String>,
    pub local_config: Option<String>,
    pub log: Option<String>,
    pub home: Option<String>,
}

/// The environment variable that overrides a location.
pub open spec fn env_var_of(dir_name: MythosDir) -> Seq<char> {
    match dir_name {
        MythosDir::Config => "MYTHOS_CONFIG_DIR"@,
        MythosDir::Data => "MYTHOS_DATA_DIR"@,
        MythosDir::Bin => "MYTHOS_BIN_DIR"@,
        MythosDir::Lib => "MYTHOS_LIB_DIR"@,
        MythosDir::LocalConfig => "MYTHOS_LOCAL_CONFIG_DIR"@,
        MythosDir::LocalData => "MYTHOS_LOCAL_DATA_DIR"@,
        MythosDir::Alias => "MYTHOS_ALIAS_DIR"@,
        MythosDir::Log => "MYTHOS_LOG_DIR"@,
    }
}

/// The path of a location where the environment says nothing.
pub open spec fn default_dir(dir_name: MythosDir) -> Seq<char> {
    match dir_name {
        MythosDir::Config => "/etc/mythos"@,
        MythosDir::Data => "/usr/share/mythos"@,
        MythosDir::Bin => "/bin"@,
        MythosDir::Lib => "/usr/lib/mythos"@,
        MythosDir::LocalConfig => "~/.config/mythos"@,
        MythosDir::LocalData => "~/.local/share/mythos"@,
        MythosDir::Alias => "/etc/profile.d"@,
        MythosDir::Log => "~/.local/share/mythos/logs"@,
    }
}

/// What the environment says of a location.
pub open spec fn env_value(dir_name: MythosDir, env: DirEnv) -> Option<Seq<char>> {
    match dir_name {
        MythosDir::Config => opt_text(env.config),
        MythosDir::Data => opt_text(env.data),
        MythosDir::Bin => opt_text(env.bin),
        MythosDir::Lib => opt_text(env.lib),
        MythosDir::LocalConfig => opt_text(env.local_config),
        MythosDir::LocalData => opt_text(env.local_data),
        MythosDir::Alias => opt_text(env.alias),
        MythosDir::Log => opt_text(env.log),
    }
}

/// The path of a location: the environment's value or else the default,
/// with `~` and `$HOME` replaced by the home directory, or by `/` where
/// that is not known.
pub open spec fn base_dir(dir_name: MythosDir, env: DirEnv) -> Seq<char> {
    let raw = match env_value(dir_name, env) {
        Some(value) => value,
        None => default_dir(dir_name),
    };
    let home = match opt_text(env.home) {
        Some(home) => home,
        None => "/"@,
    };
    replaced(replaced(raw, "~"@, home), "$HOME"@, home)
}

/// Whether a unit has no directory of its own under a location: the unit
/// `core`, given in lower case, and the empty unit stand for the location
/// itself, and the binary location has no directories below it.
pub open spec fn is_location_itself(dir_name: MythosDir, util_name: Seq<char>, lowered: Seq<char>)
    -> bool {
    lowered == "core"@ || util_name.len() == 0 || dir_name == MythosDir::Bin
}

/// The path of a unit under a location, the unit's case set aside.
pub open spec fn expanded(dir_name: MythosDir, util_name: Seq<char>, env: DirEnv) -> Seq<char> {
    let base = base_dir(dir_name, env);
    if is_location_itself(dir_name, util_name, lowercased(util_name)) {
        base
    } else {
        joined_path(base, util_name)
    }
}

/// The path of a unit under a location, if it exists, or else the location
/// itself, if that exists.
pub open spec fn path_of(
    dir_name: MythosDir,
    util_name: Seq<char>,
    env: DirEnv,
    facts: Seq<PathFact>,
) -> Result<Option<Seq<char>>, HaltView> {
    let first = expanded(dir_name, util_name, env);
    let second = expanded(dir_name, Seq::<char>::empty(), env);
    match known(facts, first) {
        None => Err(HaltView::Ask(first)),
        Some(PathKind::Missing) => match known(facts, second) {
            None => Err(HaltView::Ask(second)),
            Some(PathKind::Missing) => Ok(None),
            Some(_) => Ok(Some(second)),
        },
        Some(_) => Ok(Some(first)),
    }
}

/// Where the home directory is to be had from.
#[derive(Debug, Clone, PartialEq, Eq)]
pub enum HomeSource {
    /// From the password database, for this user.
    Passwd(String),
    /// It is this path.
    Given(String),
    /// Nowhere.
    Unknown,
}

/// Where the home directory is to be had from: for a user behind `sudo`
/// from the password database, else from the environment's own value.
pub fn home_source(sudo_user: Option<String>, home: Option<String>) -> (res: HomeSource)
    ensures
        res == (match sudo_user {
            Some(user) => HomeSource::Passwd(user),
            None => match home {
                Some(path) => HomeSource::Given(path),
                None => HomeSource::Unknown,
            },
        }),
{
    match sudo_user {
        Some(user) => HomeSource::Passwd(user),
        None => match home {
            Some(path) => HomeSource::Given(path),
            None => HomeSource::Unknown,
        },
    }
}

/// What a shortcut's name can stand for.
pub enum Place {
    Dir(MythosDir),
    Home,
}

/// What a shortcut's name, in upper case, stands for.
pub open spec fn place_named(name: Seq<char>) -> Option<Place> {
    if name == "A"@ || name == "ALIAS"@ {
        Some(Place::Dir(MythosDir::Alias))
    } else if name == "B"@ || name == "BIN"@ {
        Some(Place::Dir(MythosDir::Bin))
    } else if name == "C"@ || name == "CONFIG"@ {
        Some(Place::Dir(MythosDir::Config))
    } else if name == "D"@ || name == "DATA"@ {
        Some(Place::Dir(MythosDir::Data))
    } else if name == "LB"@ || name == "LIB"@ {
        Some(Place::Dir(MythosDir::Lib))
    } else if name == "LC"@ || name == "LCONFIG"@ || name == "LOCALCONFIG"@ {
        Some(Place::Dir(MythosDir::LocalConfig))
    } else if name == "LD"@ || name == "LDATA"@ || name == "LOCALDATA"@ {
        Some(Place::Dir(MythosDir::LocalData))
    } else if name == "LO"@ || name == "LOG"@ {
        Some(Place::Dir(MythosDir::Log))
    } else if name == "HOME"@ || name == "~"@ {
        Some(Place::Home)
    } else {
        None
    }
}

/// The path that a shortcut stands for, for a unit: dollar signs at its
/// start and its case set aside.
pub open spec fn shortcut_path(shortcut: Seq<char>, util_name: Seq<char>, env: DirEnv) -> Option<
    Seq<char>,
> {
    match place_named(uppercased(without_dollars(shortcut))) {
        Some(Place::Dir(dir_name)) => Some(expanded(dir_name, util_name, env)),
        Some(Place::Home) => opt_text(env.home),
        None => None,
    }
}

/// The result of a search, as texts.
pub open spec fn found_view(r: Result<Option<String>, Halt>) -> Result<
    Option<Seq<char>>,
    HaltView,
> {
    match r {
        Ok(found) => Ok(opt_text(found)),
        Err(halt) => Err(halt@),
    }
}

/// The environment variable that overrides a location.
pub fn env_var_name(dir_name: MythosDir) -> (res: &'static str)
    ensures
        res@ == env_var_of(dir_name),
{
    match dir_name {
        MythosDir::Config => "MYTHOS_CONFIG_DIR",
        MythosDir::Data => "MYTHOS_DATA_DIR",
        MythosDir::Bin => "MYTHOS_BIN_DIR",
        MythosDir::Lib => "MYTHOS_LIB_DIR",
        MythosDir::LocalConfig => "MYTHOS_LOCAL_CONFIG_DIR",
        MythosDir::LocalData => "MYTHOS_LOCAL_DATA_DIR",
        MythosDir::Alias => "MYTHOS_ALIAS_DIR",
        MythosDir::Log => "MYTHOS_LOG_DIR",
    }
}

/// The path of a location where the environment says nothing.
pub fn get_default_dir(dir_name: MythosDir) -> (res: String)
    ensures
        res@ == default_dir(dir_name),
{
    let path = match dir_name {
        MythosDir::Config => "/etc/mythos",
        MythosDir::Data => "/usr/share/mythos",
        MythosDir::Bin => "/bin",
        MythosDir::Lib => "/usr/lib/mythos",
        MythosDir::LocalConfig => "~/.config/mythos",
        MythosDir::LocalData => "~/.local/share/mythos",
        MythosDir::Alias => "/etc/profile.d",
        MythosDir::Log => "~/.local/share/mythos/logs",
    };
    path.to_owned()
}

fn env_entry(dir_name: MythosDir, env: &DirEnv) -> (res: &Option<String>)
    ensures
        opt_text(*res) == env_value(dir_name, *env),
{
    match dir_name {
        MythosDir::Config => &env.config,
        MythosDir::Data => &env.data,
        MythosDir::Bin => &env.bin,
        MythosDir::Lib => &env.lib,
        MythosDir::LocalConfig => &env.local_config,
        MythosDir::LocalData => &env.local_data,
        MythosDir::Alias => &env.alias,
        MythosDir::Log => &env.log,
    }
}

/// Tells whether a unit has no directory of its own under a location,
/// given the unit's name and the same in lower case.
pub fn names_location(dir_name: MythosDir, util_name: &str, lowered: &str) -> (res: bool)
    ensures
        res == is_location_itself(dir_name, util_name@, lowered@),
{
    text_is(&chars_of(lowered), "core") || chars_of(util_name).len() == 0 || matches!(
        dir_name,
        MythosDir::Bin
    )
}

/// The path of a unit under a location, whether or not it exists.
pub fn expand_path(dir_name: MythosDir, util_name: &str, env: &DirEnv) -> (res: String)
    ensures
        res@ == expanded(dir_name, util_name@, *env),
{
    let raw = match env_entry(dir_name, env) {
        Some(value) => value.clone(),
        None => get_default_dir(dir_name),
    };
    let home = match &env.home {
        Some(home) => home.clone(),
        None => "/".to_owned(),
    };
    let tilde = replace_all(raw.as_str(), "~", home.as_str());
    let base = replace_all(tilde.as_str(), "$HOME", home.as_str());
    let lowered = lowercase(util_name);
    if names_location(dir_name, util_name, lowered.as_str()) {
        return base;
    }
    join_path(base.as_str(), util_name)
}

/// The path of a unit under a location, if it exists, or else the location
/// itself, if that exists. What exists is taken from `facts`; where a fact
/// is wanting the result is `Halt::Ask` with the path to look at.
pub fn get_path(dir_name: MythosDir, util_name: &str, env: &DirEnv, facts: &Vec<PathFact>) -> (res:
    Result<Option<String>, Halt>)
    ensures
        found_view(res) == path_of(dir_name, util_name@, *env, facts@),
{
    let first = expand_path(dir_name, util_name, env);
    match lookup(facts, &first) {
        None => { return Err(Halt::Ask(first)); },
        Some(PathKind::Missing) => {},
        Some(_) => { return Ok(Some(first)); },
    }
    let second = expand_path(dir_name, "", env);
    proof {
        reveal_strlit("");
        assert(""@ =~= Seq::<char>::empty());
    }
    match lookup(facts, &second) {
        None => Err(Halt::Ask(second)),
        Some(PathKind::Missing) => Ok(None),
        Some(_) => Ok(Some(second)),
    }
}

/// Tells what a shortcut's name, in upper case, stands for.
pub fn place_of(name: &Vec<char>) -> (res: Option<Place>)
    ensures
        res == place_named(name@),
{
    if text_is(name, "A") || text_is(name, "ALIAS") {
        Some(Place::Dir(MythosDir::Alias))
    } else if text_is(name, "B") || text_is(name, "BIN") {
        Some(Place::Dir(MythosDir::Bin))
    } else if text_is(name, "C") || text_is(name, "CONFIG") {
        Some(Place::Dir(MythosDir::Config))
    } else if text_is(name, "D") || text_is(name, "DATA") {
        Some(Place::Dir(MythosDir::Data))
    } else if text_is(name, "LB") || text_is(name, "LIB") {
        Some(Place::Dir(MythosDir::Lib))
    } else if text_is(name, "LC") || text_is(name, "LCONFIG") || text_is(name, "LOCALCONFIG") {
        Some(Place::Dir(MythosDir::LocalConfig))
    } else if text_is(name, "LD") || text_is(name, "LDATA") || text_is(name, "LOCALDATA") {
        Some(Place::Dir(MythosDir::LocalData))
    } else if text_is(name, "LO") || text_is(name, "LOG") {
        Some(Place::Dir(MythosDir::Log))
    } else if text_is(name, "HOME") || text_is(name, "~") {
        Some(Place::Home)
    } else {
        None
    }
}

/// Expands a shortcut into the path that it stands for, for a unit. Gives
/// nothing for a name that is no shortcut, and for the home directory where
/// it is not known.
pub fn expand_mythos_shortcut(shortcut: &str, util_name: &str, env: &DirEnv) -> (res: Option<String>)
    ensures
        opt_text(res) == shortcut_path(shortcut@, util_name@, *env),
{
    let bare = string_of(&strip_dollars(&chars_of(shortcut)));
    let name = chars_of(uppercase(bare.as_str()).as_str());
    match place_of(&name) {
        Some(Place::Dir(dir_name)) => Some(expand_path(dir_name, util_name, env)),
        Some(Place::Home) => match &env.home {
            Some(home) => Some(home.clone()),
            None => None,
        },
        None => None,
    }
}

} // verus!
