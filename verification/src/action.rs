use vstd::prelude::*;
use crate::opts::Opts;

verus! {

/// A file mapping: the files under `target_dir` whose name matches
/// `target_name` go to `dest_dir`, under the policy `opts`.
#[derive(Debug, Clone, PartialEq, Eq)]
pub struct InstallFile {
    target_dir: String,
    target_name: String,
    dest_dir: String,
    opts: Opts,
}

/// A directory that must exist after the run, with the line that compiling
/// the manifest foresaw for it.
#[derive(Debug, Clone, PartialEq, Eq)]
pub struct InstallDir {
    dir: String,
    msg: String,
}

/// One action of a manifest.
#[derive(Debug, Clone, PartialEq, Eq)]
pub enum InstallAction {
    File(InstallFile),
    Dir(InstallDir),
}

/// A file mapping, as texts.
pub struct FileSpec {
    pub target_dir: Seq<char>,
    pub target_name: Seq<char>,
    pub dest_dir: Seq<char>,
    pub opts: Opts,
}

/// A directory action, as texts.
pub struct DirSpec {
    pub dir: Seq<char>,
    pub msg: Seq<char>,
}

/// An action, as texts.
pub enum ActionSpec {
    File(FileSpec),
    Dir(DirSpec),
}

impl View for InstallFile {
    type V = FileSpec;

    closed spec fn view(&self) -> FileSpec {
        FileSpec {
            target_dir: self.target_dir@,
            target_name: self.target_name@,
            dest_dir: self.dest_dir@,
            opts: self.opts,
        }
    }
}

impl View for InstallDir {
    type V = DirSpec;

    closed spec fn view(&self) -> DirSpec {
        DirSpec { dir: self.dir@, msg: self.msg@ }
    }
}

impl View for InstallAction {
    type V = ActionSpec;

    open spec fn view(&self) -> ActionSpec {
        match self {
            InstallAction::File(file) => ActionSpec::File(file@),
            InstallAction::Dir(dir) => ActionSpec::Dir(dir@),
        }
    }
}

/// The views of a list of actions, in order.
pub open spec fn action_views(actions: Seq<InstallAction>) -> Seq<ActionSpec> {
    actions.map_values(|a: InstallAction| a@)
}

impl InstallFile {
    /// The mapping of the sources named `target_name` under `target_dir`
    /// to `dest_dir`.
    pub fn new(target_dir: String, target_name: &str, dest_dir: String, opts: Opts) -> (res:
        InstallFile)
        ensures
            res@ == (FileSpec {
                target_dir: target_dir@,
                target_name: target_name@,
                dest_dir: dest_dir@,
                opts: opts,
            }),
    {
        InstallFile { target_dir, target_name: target_name.to_owned(), dest_dir, opts }
    }

    /// The policy.
    pub fn get_opts(&self) -> (res: Opts)
        ensures
            res == self@.opts,
    {
        self.opts
    }

    /// The destination directory.
    pub fn get_dest(&self) -> (res: String)
        ensures
            res@ == self@.dest_dir,
    {
        self.dest_dir.clone()
    }

    pub(crate) fn target_dir(&self) -> (res: &String)
        ensures
            res@ == self@.target_dir,
    {
        &self.target_dir
    }

    pub(crate) fn target_name(&self) -> (res: &String)
        ensures
            res@ == self@.target_name,
    {
        &self.target_name
    }

    pub(crate) fn dest_dir(&self) -> (res: &String)
        ensures
            res@ == self@.dest_dir,
    {
        &self.dest_dir
    }

    /// The directory that holds the sources.
    pub fn get_target_dir(&self) -> (res: String)
        ensures
            res@ == self@.target_dir,
    {
        self.target_dir.clone()
    }

    /// The name or pattern that the sources match.
    pub fn get_target_name(&self) -> (res: String)
        ensures
            res@ == self@.target_name,
    {
        self.target_name.clone()
    }
}

impl InstallDir {
    /// The action for the directory `dir`, with the line foreseen for it.
    pub fn new(dir: String, msg: String) -> (res: InstallDir)
        ensures
            res@ == (DirSpec { dir: dir@, msg: msg@ }),
    {
        InstallDir { dir, msg }
    }

    pub(crate) fn dir(&self) -> (res: &String)
        ensures
            res@ == self@.dir,
    {
        &self.dir
    }

    /// The directory to create.
    pub fn get_dir(&self) -> (res: String)
        ensures
            res@ == self@.dir,
    {
        self.dir.clone()
    }

    /// The line that compiling the manifest foresaw for this directory.
    pub fn get_msg(&self) -> (res: String)
        ensures
            res@ == self@.msg,
    {
        self.msg.clone()
    }
}

} // verus!
