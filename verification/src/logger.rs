use vstd::prelude::*;
use crate::dirs::{lowercase, lowercased};
use crate::text::{append_str, chars_of, string_of};

verus! {

/// How grave a log entry is.
#[derive(Debug, Clone, Copy, PartialEq, Eq, Structural)]
pub enum LogLevel {
    Info,
    Warn,
    Error,
    Fatal,
}

/// The word that an entry of a level carries.
pub open spec fn level_word(level: LogLevel) -> Seq<char> {
    match level {
        LogLevel::Info => "Info"@,
        LogLevel::Warn => "Warn"@,
        LogLevel::Error => "Error"@,
        LogLevel::Fatal => "Fatal"@,
    }
}

/// A log entry: the time, the level, the message, and a line break.
pub open spec fn entry_text(timestamp: Seq<char>, level: LogLevel, msg: Seq<char>) -> Seq<char> {
    timestamp + " "@ + level_word(level) + ": "@ + msg + "\n"@
}

/// The local time as `chrono::Local::now` gives it, written out. Nothing is
/// claimed of the text: it depends on the clock and on the time zone.
#[verifier::external_body]
pub(crate) fn now_text() -> (res: String)
{
    chrono::Local::now().to_string()
}

/// Writes a log entry for a given time.
pub fn format_entry(timestamp: &str, level: LogLevel, msg: &str) -> (res: String)
    ensures
        res@ == entry_text(timestamp@, level, msg@),
{
    let mut entry = chars_of(timestamp);
    append_str(&mut entry, " ");
    let word = match level {
        LogLevel::Info => "Info",
        LogLevel::Warn => "Warn",
        LogLevel::Error => "Error",
        LogLevel::Fatal => "Fatal",
    };
    append_str(&mut entry, word);
    append_str(&mut entry, ": ");
    append_str(&mut entry, msg);
    append_str(&mut entry, "\n");
    string_of(&entry)
}

/// The identity under which entries are logged.
#[derive(Debug, Clone, PartialEq, Eq)]
pub struct Logger {
    id: String,
}

impl View for Logger {
    type V = Seq<char>;

    closed spec fn view(&self) -> Seq<char> {
        self.id@
    }
}

impl Logger {
    /// The logger for an identity.
    pub fn new(id: &str) -> (res: Logger)
        ensures
            res@ == id@,
    {
        Logger { id: id.to_owned() }
    }

    /// The identity.
    pub fn get_id(&self) -> (res: String)
        ensures
            res@ == self@,
    {
        self.id.clone()
    }

    /// The name of the directory that holds this identity's log: the
    /// identity in lower case.
    pub fn dir_name(&self) -> (res: String)
        ensures
            res@ == lowercased(self@),
    {
        lowercase(self.id.as_str())
    }

    /// The entry for a message of a level, stamped with the time of the
    /// call.
    pub fn write(&self, msg: &str, level: LogLevel) -> (res: String)
        ensures
            exists|timestamp: Seq<char>| res@ == entry_text(timestamp, level, msg@),
    {
        let now = now_text();
        format_entry(now.as_str(), level, msg)
    }
}

/// The logger for an identity.
pub fn set_id(id: &str) -> (res: Logger)
    ensures
        res@ == id@,
{
    Logger::new(id)
}

/// The name of the log file: builds for debugging have a file of their own.
pub fn log_file_name(debug: bool) -> (res: &'static str)
    ensures
        res@ == (if debug {
            "debug.log"@
        } else {
            "log"@
        }),
{
    if debug {
        "debug.log"
    } else {
        "log"
    }
}

/// The entry for a message at level `Info`, stamped with the time of the
/// call.
pub fn info(msg: &str) -> (res: String)
    ensures
        exists|timestamp: Seq<char>| res@ == entry_text(timestamp, LogLevel::Info, msg@),
{
    let now = now_text();
    format_entry(now.as_str(), LogLevel::Info, msg)
}

/// The entry for a message at level `Warn`, stamped with the time of the
/// call.
pub fn warn(msg: &str) -> (res: String)
    ensures
        exists|timestamp: Seq<char>| res@ == entry_text(timestamp, LogLevel::Warn, msg@),
{
    let now = now_text();
    format_entry(now.as_str(), LogLevel::Warn, msg)
}

/// The entry for a message at level `Error`, stamped with the time of the
/// call.
pub fn error(msg: &str) -> (res: String)
    ensures
        exists|timestamp: Seq<char>| res@ == entry_text(timestamp, LogLevel::Error, msg@),
{
    let now = now_text();
    format_entry(now.as_str(), LogLevel::Error, msg)
}

/// The entry for a message at level `Fatal`, stamped with the time of the
/// call.
pub fn fatal(msg: &str) -> (res: String)
    ensures
        exists|timestamp: Seq<char>| res@ == entry_text(timestamp, LogLevel::Fatal, msg@),
{
    let now = now_text();
    format_entry(now.as_str(), LogLevel::Fatal, msg)
}

} // verus!
