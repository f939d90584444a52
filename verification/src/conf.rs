use vstd::prelude::*;
use crate::dirs::{expand_path, expanded, found_view, DirEnv, MythosDir};
use crate::paths::{join_path, joined_path, known, lookup, Halt, HaltView, PathFact, PathKind};
use crate::resolve::opt_text;
use crate::text::{chars_of, join, joined, signed_decimal, signed_decimal_chars, string_of, text_is, texts};

verus! {

/// What `std::path::Path::with_extension` gives for `path` and `ext`.
pub uninterp spec fn with_extension_of(path: Seq<char>, ext: Seq<char>) -> Seq<char>;

/// Whether a text can be an extension: it holds no path separator.
pub open spec fn is_extension(ext: Seq<char>) -> bool {
    forall|i: int| 0 <= i < ext.len() ==> #[trigger] ext[i] != '/' && ext[i] != '\\'
}

/// `path` with the extension of its file name set to `ext`, by
/// `std::path::Path::with_extension`, which panics on an extension that
/// holds a path separator: such an extension is left out. The contract only
/// names the result.
#[verifier::external_body]
pub(crate) fn with_extension(path: &str, ext: &str) -> (res: String)
    requires
        is_extension(ext@),
    ensures
        res@ == with_extension_of(path@, ext@),
{
    std::path::Path::new(path).with_extension(ext).to_string_lossy().into_owned()
}

/// The configuration file at `path` with the extension `ext`, if it exists,
/// or else `otherwise`.
pub open spec fn with_ext_or(
    path: Seq<char>,
    ext: Seq<char>,
    facts: Seq<PathFact>,
    otherwise: Result<Option<Seq<char>>, HaltView>,
) -> Result<Option<Seq<char>>, HaltView> {
    let candidate = with_extension_of(path, ext);
    match known(facts, candidate) {
        None => Err(HaltView::Ask(candidate)),
        Some(PathKind::Missing) => otherwise,
        Some(_) => Ok(Some(candidate)),
    }
}

/// The configuration file that `path` stands for. A path that exists stands
/// for itself, but a directory, where none is wanted, for the file `config`
/// in it, if that exists. A path that does not exist stands for the first
/// that exists of the same path with the extensions `conf`, `ini` and
/// `toml`.
pub open spec fn validated(path: Seq<char>, allow_dir: bool, facts: Seq<PathFact>) -> Result<
    Option<Seq<char>>,
    HaltView,
> {
    match known(facts, path) {
        None => Err(HaltView::Ask(path)),
        Some(PathKind::Missing) => with_ext_or(
            path,
            "conf"@,
            facts,
            with_ext_or(path, "ini"@, facts, with_ext_or(path, "toml"@, facts, Ok(None))),
        ),
        Some(kind) => if !allow_dir && kind == PathKind::Dir {
            let inner = joined_path(path, "config"@);
            match known(facts, inner) {
                None => Err(HaltView::Ask(inner)),
                Some(PathKind::Missing) => Ok(None),
                Some(_) => Ok(Some(inner)),
            }
        } else {
            Ok(Some(path))
        },
    }
}

/// The configuration file of `path`: the one under the user's own
/// configuration location, or else the one under the system's.
pub open spec fn config_file(path: Seq<char>, allow_dir: bool, env: DirEnv, facts: Seq<PathFact>)
    -> Result<Option<Seq<char>>, HaltView> {
    match validated(expanded(MythosDir::LocalConfig, path, env), allow_dir, facts) {
        Ok(None) => validated(expanded(MythosDir::Config, path, env), allow_dir, facts),
        found => found,
    }
}

/// Finds the configuration file that `path` stands for; the extension may
/// be left out. What exists is taken from `facts`; where a fact is wanting
/// the result is `Halt::Ask` with the path to look at.
pub fn clean_and_validate(path: String, allow_dir: bool, facts: &Vec<PathFact>) -> (res: Result<
    Option<String>,
    Halt,
>)
    ensures
        found_view(res) == validated(path@, allow_dir, facts@),
{
    match lookup(facts, &path) {
        None => Err(Halt::Ask(path)),
        Some(PathKind::Missing) => {
            proof {
                reveal_strlit("conf");
                reveal_strlit("ini");
                reveal_strlit("toml");
            }
            let conf = with_extension(path.as_str(), "conf");
            match lookup(facts, &conf) {
                None => { return Err(Halt::Ask(conf)); },
                Some(PathKind::Missing) => {},
                Some(_) => { return Ok(Some(conf)); },
            }
            let ini = with_extension(path.as_str(), "ini");
            match lookup(facts, &ini) {
                None => { return Err(Halt::Ask(ini)); },
                Some(PathKind::Missing) => {},
                Some(_) => { return Ok(Some(ini)); },
            }
            let toml = with_extension(path.as_str(), "toml");
            match lookup(facts, &toml) {
                None => Err(Halt::Ask(toml)),
                Some(PathKind::Missing) => Ok(None),
                Some(_) => Ok(Some(toml)),
            }
        },
        Some(kind) => {
            if !allow_dir && matches!(kind, PathKind::Dir) {
                let inner = join_path(path.as_str(), "config");
                match lookup(facts, &inner) {
                    None => Err(Halt::Ask(inner)),
                    Some(PathKind::Missing) => Ok(None),
                    Some(_) => Ok(Some(inner)),
                }
            } else {
                Ok(Some(path))
            }
        },
    }
}

/// Finds the configuration file of `path` under the user's own
/// configuration location, or else under the system's.
pub fn try_get_file(path: &str, allow_dir: bool, env: &DirEnv, facts: &Vec<PathFact>) -> (res:
    Result<Option<String>, Halt>)
    ensures
        found_view(res) == config_file(path@, allow_dir, *env, facts@),
{
    let local = expand_path(MythosDir::LocalConfig, path, env);
    match clean_and_validate(local, allow_dir, facts) {
        Ok(None) => {},
        found => { return found; },
    }
    let system = expand_path(MythosDir::Config, path, env);
    clean_and_validate(system, allow_dir, facts)
}

/// One value of a configuration table, as far as this library reads it.
#[derive(Debug, PartialEq, Eq)]
pub enum ConfigValue {
    String(String),
    Integer(i64),
    /// A number with a fraction, as it is written.
    Float(String),
    Boolean(bool),
    /// A date and time, as it is written.
    Datetime(String),
    /// An array: its items, each as it is written.
    Array(Vec<String>),
    /// A table: its keys, each glued by a colon to its value as it is
    /// written, and the table itself as the level below.
    Table(Vec<String>, MythosConfig),
}

/// A value, as texts.
pub enum ValueSpec {
    String(Seq<char>),
    Integer(i64),
    Float(Seq<char>),
    Boolean(bool),
    Datetime(Seq<char>),
    Array(Seq<Seq<char>>),
    Table(Seq<Seq<char>>, MythosConfig),
}

impl View for ConfigValue {
    type V = ValueSpec;

    open spec fn view(&self) -> ValueSpec {
        match self {
            ConfigValue::String(text) => ValueSpec::String(text@),
            ConfigValue::Integer(n) => ValueSpec::Integer(*n),
            ConfigValue::Float(text) => ValueSpec::Float(text@),
            ConfigValue::Boolean(b) => ValueSpec::Boolean(*b),
            ConfigValue::Datetime(text) => ValueSpec::Datetime(text@),
            ConfigValue::Array(items) => ValueSpec::Array(texts(items@)),
            ConfigValue::Table(pairs, level) => ValueSpec::Table(texts(pairs@), *level),
        }
    }
}

/// One entry of a configuration table.
#[derive(Debug, PartialEq, Eq)]
pub struct ConfigEntry {
    pub key: String,
    pub value: ConfigValue,
}

/// One level of a configuration: the entries of a table. Where a key
/// stands twice the later entry counts.
#[derive(Debug, PartialEq, Eq)]
pub struct MythosConfig {
    entries: Vec<ConfigEntry>,
}

impl View for MythosConfig {
    type V = Seq<ConfigEntry>;

    closed spec fn view(&self) -> Seq<ConfigEntry> {
        self.entries@
    }
}

/// The value that a table holds under `key`.
pub open spec fn value_at(entries: Seq<ConfigEntry>, key: Seq<char>) -> Option<ValueSpec>
    decreases entries.len(),
{
    if entries.len() == 0 {
        None
    } else if entries.last().key@ == key {
        Some(entries.last().value@)
    } else {
        value_at(entries.drop_last(), key)
    }
}

/// The keys of a table, in the order of its entries.
pub open spec fn keys_of(entries: Seq<ConfigEntry>) -> Seq<Seq<char>> {
    entries.map_values(|e: ConfigEntry| e.key@)
}

/// A value as text: a string as it is, a number in decimal, a truth value
/// as `true` or `false`, an array as its items with blanks between them, a
/// table as its keys with their values, blanks between them. No value is
/// the empty text.
pub open spec fn forced_text(value: Option<ValueSpec>) -> Seq<char> {
    match value {
        Some(ValueSpec::String(text)) => text,
        Some(ValueSpec::Float(text)) => text,
        Some(ValueSpec::Integer(n)) => signed_decimal(n as int),
        Some(ValueSpec::Boolean(b)) => if b {
            "true"@
        } else {
            "false"@
        },
        Some(ValueSpec::Datetime(text)) => text,
        Some(ValueSpec::Array(items)) => joined(items, " "@),
        Some(ValueSpec::Table(pairs, _)) => joined(pairs, " "@),
        None => Seq::<char>::empty(),
    }
}

/// The level below `key`, where the value under it is a table.
pub open spec fn level_at(entries: Seq<ConfigEntry>, key: Seq<char>) -> Option<MythosConfig> {
    match value_at(entries, key) {
        Some(ValueSpec::Table(_, level)) => Some(level),
        _ => None,
    }
}

/// The value at the end of a path of keys, as text: every key but the last
/// leads one level down, the last names the value. The empty text where the
/// path is empty or leads nowhere.
pub open spec fn text_by_path(level: MythosConfig, keys: Seq<Seq<char>>) -> Seq<char>
    decreases keys.len(),
{
    if keys.len() == 0 {
        Seq::<char>::empty()
    } else if keys.len() == 1 {
        forced_text(value_at(level@, keys[0]))
    } else {
        match level_at(level@, keys[0]) {
            Some(below) => text_by_path(below, keys.drop_first()),
            None => Seq::<char>::empty(),
        }
    }
}

impl MythosConfig {
    /// The table with these entries.
    pub fn new(entries: Vec<ConfigEntry>) -> (res: MythosConfig)
        ensures
            res@ == entries@,
    {
        MythosConfig { entries }
    }

    /// The value under `key`, if there is one.
    pub fn get(&self, key: &str) -> (res: Option<&ConfigValue>)
        ensures
            match res {
                Some(value) => value_at(self@, key@) == Some(value@),
                None => value_at(self@, key@) is None,
            },
    {
        let mut i: usize = self.entries.len();
        proof {
            assert(self.entries@.take(i as int) =~= self.entries@);
        }
        while i > 0
            invariant
                i <= self.entries.len(),
                value_at(self.entries@, key@) == value_at(self.entries@.take(i as int), key@),
            decreases i,
        {
            proof {
                assert(self.entries@.take(i as int).drop_last() =~= self.entries@.take(i - 1));
            }
            i -= 1;
            if text_is(&chars_of(self.entries[i].key.as_str()), key) {
                return Some(&self.entries[i].value);
            }
        }
        None
    }

    /// The keys, in the order of the entries.
    pub fn list_keys(&self) -> (res: Vec<String>)
        ensures
            texts(res@) == keys_of(self@),
    {
        let mut keys: Vec<String> = Vec::new();
        let mut i: usize = 0;
        while i < self.entries.len()
            invariant
                i <= self.entries.len(),
                texts(keys@) == keys_of(self.entries@.take(i as int)),
            decreases self.entries.len() - i,
        {
            let key = self.entries[i].key.clone();
            let ghost before = texts(keys@);
            keys.push(key);
            i += 1;
            proof {
                assert(texts(keys@) =~= before.push(key@));
                assert(texts(keys@) =~= keys_of(self.entries@.take(i as int)));
            }
        }
        proof {
            assert(self.entries@.take(self.entries@.len() as int) =~= self.entries@);
        }
        keys
    }

    /// The level below `key`, where the value under it is a table.
    pub fn get_subsection(&self, key: &str) -> (res: Option<&MythosConfig>)
        ensures
            match res {
                Some(below) => level_at(self@, key@) == Some(*below),
                None => level_at(self@, key@) is None,
            },
    {
        match self.get(key) {
            Some(ConfigValue::Table(_, below)) => Some(below),
            _ => None,
        }
    }

    /// The string under `key`, or else the default.
    pub fn get_string(&self, key: &str, default_val: &str) -> (res: String)
        ensures
            res@ == (match value_at(self@, key@) {
                Some(ValueSpec::String(text)) => text,
                _ => default_val@,
            }),
    {
        match self.get(key) {
            Some(ConfigValue::String(val)) => val.clone(),
            _ => default_val.to_owned(),
        }
    }

    /// The string under `key`, if one is there.
    pub fn try_get_string(&self, key: &str) -> (res: Option<String>)
        ensures
            opt_text(res) == (match value_at(self@, key@) {
                Some(ValueSpec::String(text)) => Some(text),
                _ => None,
            }),
    {
        match self.get(key) {
            Some(ConfigValue::String(val)) => Some(val.clone()),
            _ => None,
        }
    }

    /// The value under `key` as text, whatever it is; the empty text where
    /// there is none.
    pub fn force_get_string(&self, key: &str) -> (res: Option<String>)
        ensures
            opt_text(res) == Some(forced_text(value_at(self@, key@))),
    {
        match self.get(key) {
            Some(ConfigValue::String(val)) => Some(val.clone()),
            Some(ConfigValue::Float(val)) => Some(val.clone()),
            Some(ConfigValue::Integer(val)) => Some(string_of(&signed_decimal_chars(*val))),
            Some(ConfigValue::Boolean(val)) => Some(
                if *val {
                    "true".to_owned()
                } else {
                    "false".to_owned()
                },
            ),
            Some(ConfigValue::Datetime(val)) => Some(val.clone()),
            Some(ConfigValue::Array(val)) => Some(string_of(&join(val, " "))),
            Some(ConfigValue::Table(val, _)) => Some(string_of(&join(val, " "))),
            None => Some(String::new()),
        }
    }

    /// The integer under `key`, or else the default.
    pub fn get_integer(&self, key: &str, default_val: i64) -> (res: i64)
        ensures
            res == (match value_at(self@, key@) {
                Some(ValueSpec::Integer(n)) => n,
                _ => default_val,
            }),
    {
        match self.get(key) {
            Some(ConfigValue::Integer(val)) => *val,
            _ => default_val,
        }
    }

    /// The integer under `key`, if one is there.
    pub fn try_get_integer(&self, key: &str) -> (res: Option<i64>)
        ensures
            res == (match value_at(self@, key@) {
                Some(ValueSpec::Integer(n)) => Some(n),
                _ => None,
            }),
    {
        match self.get(key) {
            Some(ConfigValue::Integer(val)) => Some(*val),
            _ => None,
        }
    }

    /// The truth value under `key`, or else the default.
    pub fn get_boolean(&self, key: &str, default_val: bool) -> (res: bool)
        ensures
            res == (match value_at(self@, key@) {
                Some(ValueSpec::Boolean(b)) => b,
                _ => default_val,
            }),
    {
        match self.get(key) {
            Some(ConfigValue::Boolean(val)) => *val,
            _ => default_val,
        }
    }

    /// The truth value under `key`, if one is there.
    pub fn try_get_boolean(&self, key: &str) -> (res: Option<bool>)
        ensures
            res == (match value_at(self@, key@) {
                Some(ValueSpec::Boolean(b)) => Some(b),
                _ => None,
            }),
    {
        match self.get(key) {
            Some(ConfigValue::Boolean(val)) => Some(*val),
            _ => None,
        }
    }

    /// The date and time under `key`, as written, or else the default.
    pub fn get_datetime(&self, key: &str, default_val: &str) -> (res: String)
        ensures
            res@ == (match value_at(self@, key@) {
                Some(ValueSpec::Datetime(text)) => text,
                _ => default_val@,
            }),
    {
        match self.get(key) {
            Some(ConfigValue::Datetime(val)) => val.clone(),
            _ => default_val.to_owned(),
        }
    }

    /// The date and time under `key`, as written, if one is there.
    pub fn try_get_datetime(&self, key: &str) -> (res: Option<String>)
        ensures
            opt_text(res) == (match value_at(self@, key@) {
                Some(ValueSpec::Datetime(text)) => Some(text),
                _ => None,
            }),
    {
        match self.get(key) {
            Some(ConfigValue::Datetime(val)) => Some(val.clone()),
            _ => None,
        }
    }
}

/// Reads the value at the end of a path of keys, as text.
pub fn get_value(conf: &MythosConfig, keys: &Vec<String>) -> (res: String)
    ensures
        res@ == text_by_path(*conf, texts(keys@)),
{
    if keys.len() == 0 {
        return String::new();
    }
    let mut level: &MythosConfig = conf;
    let mut i: usize = 0;
    let ghost path = texts(keys@);
    proof {
        assert(path.skip(0) =~= path);
    }
    while i + 1 < keys.len()
        invariant
            i < keys.len(),
            path == texts(keys@),
            text_by_path(*conf, path) == text_by_path(*level, path.skip(i as int)),
        decreases keys.len() - i,
    {
        proof {
            assert(path.skip(i as int).drop_first() =~= path.skip(i + 1));
            assert(path.skip(i as int)[0] == keys@[i as int]@);
        }
        level = match level.get_subsection(keys[i].as_str()) {
            Some(below) => below,
            None => { return String::new(); },
        };
        i += 1;
    }
    proof {
        assert(path.skip(i as int)[0] == keys@[i as int]@);
    }
    match level.force_get_string(keys[i].as_str()) {
        Some(text) => text,
        None => String::new(),
    }
}

} // verus!
