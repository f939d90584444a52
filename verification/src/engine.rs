use vstd::prelude::*;
use crate::action::{ActionSpec, FileSpec, InstallAction, InstallDir, InstallFile};
use crate::opts::Opts;
use crate::paths::{
    debug_path, file_name, file_name_of, join_path, joined_path, path_debug, paths_equal,
    same_path, show_path, shown_path, strip_extension, without_extension, PathKind,
};
use crate::resolve::{dir_line, opt_text, write_dir_line};
use crate::text::{append_chars, append_str, chars_of, octal, octal_chars, string_of, texts};

verus! {

/// Whether `glob::glob` accepts `pattern`.
pub uninterp spec fn glob_accepts(pattern: Seq<char>) -> bool;

/// Asks `glob::glob` whether it accepts `pattern`. The call parses the
/// pattern and each of its components, and that alone decides the answer;
/// it also looks at the directory that the pattern starts from, but expands
/// nothing. The contract names the answer.
#[verifier::external_body]
pub(crate) fn pattern_accepted(pattern: &str) -> (res: bool)
    ensures
        res == glob_accepts(pattern@),
{
    glob::glob(pattern).is_ok()
}

/// What was seen of one source while its action ran.
#[derive(Debug, Clone, PartialEq, Eq)]
pub struct CopyReport {
    /// The source file.
    pub target: String,
    /// Whether something stood at its destination before the copy.
    pub dest_exists: bool,
    /// Why the copy failed, where one was made and failed.
    pub copy_error: Option<String>,
}

/// A report, as texts.
pub struct ReportSpec {
    pub target: Seq<char>,
    pub dest_exists: bool,
    pub copy_error: Option<Seq<char>>,
}

impl View for CopyReport {
    type V = ReportSpec;

    open spec fn view(&self) -> ReportSpec {
        ReportSpec {
            target: self.target@,
            dest_exists: self.dest_exists,
            copy_error: opt_text(self.copy_error),
        }
    }
}

/// The reports, as texts.
pub open spec fn report_views(reports: Seq<CopyReport>) -> Seq<ReportSpec> {
    reports.map_values(|r: CopyReport| r@)
}

/// What was seen while one action ran. A directory action reads `kind` and
/// `create_error`, a file action reads `copies`.
#[derive(Debug, Clone, PartialEq, Eq)]
pub struct Observation {
    /// What stood at the directory before the action.
    pub kind: PathKind,
    /// Why the directory could not be created, where that was tried and
    /// failed.
    pub create_error: Option<String>,
    /// One report for each source, in the order in which they were taken.
    pub copies: Vec<CopyReport>,
}

/// Whether the first character of `name` is `c`.
pub open spec fn starts_with(name: Seq<char>, c: char) -> bool {
    name.len() > 0 && name[0] == c
}

/// Whether the policy takes a file of this name: a name that starts with
/// `_` or `.` is taken only where the policy says so.
pub open spec fn name_admitted(opts: Opts, name: Seq<char>) -> bool {
    (opts.copy_underscore_files || !starts_with(name, '_')) && (opts.copy_dot_files
        || !starts_with(name, '.'))
}

/// Whether a matched path is a source under the policy: it has a file name,
/// and the policy takes that name.
pub open spec fn wanted(opts: Opts, path: Seq<char>) -> bool {
    match file_name_of(path) {
        None => false,
        Some(name) => name_admitted(opts, name),
    }
}

/// The members of `paths` that are sources under the policy, in order.
pub open spec fn wanted_only(opts: Opts, paths: Seq<Seq<char>>) -> Seq<Seq<char>>
    decreases paths.len(),
{
    if paths.len() == 0 {
        Seq::<Seq<char>>::empty()
    } else if wanted(opts, paths.last()) {
        wanted_only(opts, paths.drop_last()).push(paths.last())
    } else {
        wanted_only(opts, paths.drop_last())
    }
}

/// Where a source goes: its file name, without the extension where the
/// policy strips it, under the destination directory.
pub open spec fn dest_for(file: FileSpec, target: Seq<char>) -> Option<Seq<char>> {
    let shown = if file.opts.strip_ext {
        without_extension(target)
    } else {
        target
    };
    match file_name_of(shown) {
        Some(name) => Some(joined_path(file.dest_dir, name)),
        None => None,
    }
}

/// Whether a copy is made: never in a dry run, and over an existing
/// destination only where the policy allows it.
pub open spec fn copy_ordered(opts: Opts, dry_run: bool, dest_exists: bool) -> bool {
    !dry_run && (!dest_exists || opts.overwrite)
}

/// Whether a directory is created: never in a dry run, and only where
/// neither a directory nor a file stands.
pub open spec fn creation_ordered(dry_run: bool, kind: PathKind) -> bool {
    !dry_run && kind != PathKind::Dir && kind != PathKind::File
}

/// What the record says of one source, after its destination.
pub open spec fn copy_note(opts: Opts, dry_run: bool, report: ReportSpec) -> Seq<char> {
    if report.dest_exists && !opts.overwrite {
        "Did not copy: File exists && !overwrite\n"@
    } else if !dry_run && report.copy_error is Some {
        "Did not copy. Error: "@ + report.copy_error->0 + "\n"@
    } else {
        "Copied! "@ + (if report.dest_exists {
            "File was overwritten."@
        } else {
            Seq::<char>::empty()
        }) + "\t"@ + octal(opts.perms as nat) + "\n"@
    }
}

/// The record entry of one source: its destination, then the note as a
/// comment. A source without a file name has no entry.
pub open spec fn copy_entry(file: FileSpec, dry_run: bool, report: ReportSpec) -> Seq<char> {
    match dest_for(file, report.target) {
        None => Seq::<char>::empty(),
        Some(dest) => shown_path(dest) + "\n\t# "@ + copy_note(file.opts, dry_run, report),
    }
}

/// The entries of all sources, in order.
pub open spec fn copy_log(file: FileSpec, dry_run: bool, reports: Seq<ReportSpec>) -> Seq<char>
    decreases reports.len(),
{
    if reports.len() == 0 {
        Seq::<char>::empty()
    } else {
        copy_log(file, dry_run, reports.drop_last()) + copy_entry(file, dry_run, reports.last())
    }
}

/// The destinations of the sources that have one, in order.
pub open spec fn dests_of(file: FileSpec, reports: Seq<ReportSpec>) -> Seq<Seq<char>>
    decreases reports.len(),
{
    if reports.len() == 0 {
        Seq::<Seq<char>>::empty()
    } else {
        match dest_for(file, reports.last().target) {
            Some(dest) => dests_of(file, reports.drop_last()).push(dest),
            None => dests_of(file, reports.drop_last()),
        }
    }
}

/// The members of `old` that are not the path `dest`, in order.
pub open spec fn unclaimed(old: Seq<Seq<char>>, dest: Seq<char>) -> Seq<Seq<char>>
    decreases old.len(),
{
    if old.len() == 0 {
        Seq::<Seq<char>>::empty()
    } else if paths_equal(old.last(), dest) {
        unclaimed(old.drop_last(), dest)
    } else {
        unclaimed(old.drop_last(), dest).push(old.last())
    }
}

/// What is left of `old` after each of `dests` was claimed in turn.
pub open spec fn unclaimed_all(old: Seq<Seq<char>>, dests: Seq<Seq<char>>) -> Seq<Seq<char>>
    decreases dests.len(),
{
    if dests.len() == 0 {
        old
    } else {
        unclaimed(unclaimed_all(old, dests.drop_last()), dests.last())
    }
}

/// What running a directory action gives: its record line, or the message
/// of a creation that failed.
pub open spec fn dir_result(
    dir: Seq<char>,
    dry_run: bool,
    kind: PathKind,
    create_error: Option<Seq<char>>,
) -> Result<Seq<char>, Seq<char>> {
    match kind {
        PathKind::Dir => Ok(dir_line(dir, "Did not create: Directory exists."@)),
        PathKind::File => Ok(dir_line(dir, "Did not create: File exists with that name."@)),
        _ => if dry_run {
            Ok(dir_line(dir, Seq::<char>::empty()))
        } else if create_error is Some {
            Err(
                "CHARON (Error): Could not create dir "@ + path_debug(dir) + ". Error: "@
                    + create_error->0,
            )
        } else {
            Ok(dir_line(dir, "Created directory!"@))
        },
    }
}

/// The result of an action, as texts.
pub open spec fn log_view(r: Result<String, String>) -> Result<Seq<char>, Seq<char>> {
    match r {
        Ok(text) => Ok(text@),
        Err(text) => Err(text@),
    }
}

/// Tells whether the policy takes a file of this name.
pub fn admits(opts: Opts, name: &str) -> (res: bool)
    ensures
        res == name_admitted(opts, name@),
{
    let n = chars_of(name);
    let underscore = n.len() > 0 && n[0] == '_';
    let dot = n.len() > 0 && n[0] == '.';
    (opts.copy_underscore_files || !underscore) && (opts.copy_dot_files || !dot)
}

/// Writes what the record says of one source, after its destination.
pub fn write_note(opts: Opts, dry_run: bool, report: &CopyReport) -> (res: Vec<char>)
    ensures
        res@ == copy_note(opts, dry_run, report@),
{
    if report.dest_exists && !opts.overwrite {
        return chars_of("Did not copy: File exists && !overwrite\n");
    }
    if !dry_run {
        if let Some(error) = &report.copy_error {
            let mut note = chars_of("Did not copy. Error: ");
            append_str(&mut note, error.as_str());
            append_str(&mut note, "\n");
            return note;
        }
    }
    let mut note = chars_of("Copied! ");
    if report.dest_exists {
        append_str(&mut note, "File was overwritten.");
    }
    append_str(&mut note, "\t");
    append_chars(&mut note, &octal_chars(opts.perms));
    append_str(&mut note, "\n");
    proof {
        assert(note@ =~= copy_note(opts, dry_run, report@));
    }
    note
}

/// Takes the path `dest` out of the orphan candidates: it is installed
/// again, so it is no orphan.
pub fn claim(old_files: &mut Vec<String>, dest: &str)
    ensures
        texts(final(old_files)@) == unclaimed(texts(old(old_files)@), dest@),
{
    let mut kept: Vec<String> = Vec::new();
    let mut i: usize = 0;
    let ghost all = texts(old_files@);
    proof {
        assert(all.take(0) =~= Seq::<Seq<char>>::empty());
        assert(texts(kept@) =~= Seq::<Seq<char>>::empty());
    }
    while i < old_files.len()
        invariant
            i <= old_files.len(),
            all == texts(old_files@),
            texts(kept@) == unclaimed(all.take(i as int), dest@),
        decreases old_files.len() - i,
    {
        proof {
            assert(all.take(i + 1).drop_last() =~= all.take(i as int));
            assert(all.take(i + 1).last() == old_files@[i as int]@);
        }
        if !same_path(old_files[i].as_str(), dest) {
            let ghost before = texts(kept@);
            let entry = old_files[i].clone();
            kept.push(entry);
            proof {
                assert(texts(kept@) =~= before.push(entry@));
            }
        }
        i += 1;
    }
    proof {
        assert(all.take(old_files@.len() as int) =~= all);
    }
    *old_files = kept;
}

impl InstallFile {
    /// The pattern to expand for the sources of this action: the target
    /// name adjoined to the target directory. None where `glob` refuses it.
    pub fn glob_pattern(&self) -> (res: Option<String>)
        ensures
            opt_text(res) == (if glob_accepts(
                joined_path(self@.target_dir, self@.target_name),
            ) {
                Some(joined_path(self@.target_dir, self@.target_name))
            } else {
                None
            }),
    {
        let pattern = join_path(self.target_dir().as_str(), self.target_name().as_str());
        if pattern_accepted(pattern.as_str()) {
            Some(pattern)
        } else {
            None
        }
    }

    /// The sources of this action among the paths that the pattern matched:
    /// those with a file name that the policy takes, in the order given.
    pub fn get_targets(&self, matches: &Vec<String>) -> (res: Vec<String>)
        ensures
            texts(res@) == wanted_only(self@.opts, texts(matches@)),
    {
        let mut out: Vec<String> = Vec::new();
        let mut i: usize = 0;
        let ghost all = texts(matches@);
        proof {
            assert(all.take(0) =~= Seq::<Seq<char>>::empty());
            assert(texts(out@) =~= Seq::<Seq<char>>::empty());
        }
        while i < matches.len()
            invariant
                i <= matches.len(),
                all == texts(matches@),
                texts(out@) == wanted_only(self@.opts, all.take(i as int)),
            decreases matches.len() - i,
        {
            proof {
                assert(all.take(i + 1).drop_last() =~= all.take(i as int));
                assert(all.take(i + 1).last() == matches@[i as int]@);
            }
            let keep = match file_name(matches[i].as_str()) {
                None => false,
                Some(name) => admits(self.get_opts(), name.as_str()),
            };
            if keep {
                let ghost before = texts(out@);
                let entry = matches[i].clone();
                out.push(entry);
                proof {
                    assert(texts(out@) =~= before.push(entry@));
                }
            }
            i += 1;
        }
        proof {
            assert(all.take(matches@.len() as int) =~= all);
        }
        out
    }

    /// Where the source `target` goes. None for a path without a file name.
    pub fn dest_path(&self, target: &str) -> (res: Option<String>)
        ensures
            opt_text(res) == dest_for(self@, target@),
    {
        let name = if self.get_opts().strip_ext {
            let shown = strip_extension(target);
            file_name(shown.as_str())
        } else {
            file_name(target)
        };
        match name {
            Some(name) => Some(join_path(self.dest_dir().as_str(), name.as_str())),
            None => None,
        }
    }

    /// Whether the source is to be copied, given whether something stands at
    /// its destination.
    pub fn should_copy(&self, dry_run: bool, dest_exists: bool) -> (res: bool)
        ensures
            res == copy_ordered(self@.opts, dry_run, dest_exists),
    {
        !dry_run && (!dest_exists || self.get_opts().overwrite)
    }

    /// Writes the record entry of one source into `log`.
    fn write_entry(&self, dry_run: bool, report: &CopyReport, dest: &str, log: &mut Vec<char>)
        requires
            dest_for(self@, report@.target) == Some(dest@),
        ensures
            final(log)@ == old(log)@ + copy_entry(self@, dry_run, report@),
    {
        let ghost before = log@;
        let mut entry = show_path(dest);
        append_str(&mut entry, "\n\t# ");
        append_chars(&mut entry, &write_note(self.get_opts(), dry_run, report));
        append_chars(log, &entry);
        proof {
            assert(log@ =~= before + copy_entry(self@, dry_run, report@));
        }
    }

    /// Accounts for one run of this action over its sources, from what was
    /// seen of each: claims every destination from the orphan candidates and
    /// gives the record text, one entry for each source in order. It always
    /// succeeds; no report gives an empty text.
    pub fn execute(&self, dry_run: bool, old_files: &mut Vec<String>, reports: &Vec<CopyReport>)
        -> (res: Result<String, String>)
        ensures
            log_view(res) == Ok::<Seq<char>, Seq<char>>(
                copy_log(self@, dry_run, report_views(reports@)),
            ),
            texts(final(old_files)@) == unclaimed_all(
                texts(old(old_files)@),
                dests_of(self@, report_views(reports@)),
            ),
    {
        let mut log: Vec<char> = Vec::new();
        let mut i: usize = 0;
        let ghost all = report_views(reports@);
        proof {
            assert(all.take(0) =~= Seq::<ReportSpec>::empty());
        }
        while i < reports.len()
            invariant
                i <= reports.len(),
                all == report_views(reports@),
                log@ == copy_log(self@, dry_run, all.take(i as int)),
                texts(old_files@) == unclaimed_all(
                    texts(old(old_files)@),
                    dests_of(self@, all.take(i as int)),
                ),
            decreases reports.len() - i,
        {
            proof {
                assert(all.take(i + 1).drop_last() =~= all.take(i as int));
                assert(all.take(i + 1).last() == reports@[i as int]@);
            }
            let report = &reports[i];
            match self.dest_path(report.target.as_str()) {
                Some(dest) => {
                    proof {
                        let before = dests_of(self@, all.take(i as int));
                        assert(before.push(dest@).drop_last() =~= before);
                    }
                    claim(old_files, dest.as_str());
                    self.write_entry(dry_run, report, dest.as_str(), &mut log);
                },
                None => {
                    proof {
                        assert(log@ =~= log@ + Seq::<char>::empty());
                    }
                },
            }
            i += 1;
        }
        proof {
            assert(all.take(reports@.len() as int) =~= all);
        }
        Ok(string_of(&log))
    }
}

impl InstallDir {
    /// Whether the directory is to be created, given what stands there.
    pub fn should_create(&self, dry_run: bool, kind: PathKind) -> (res: bool)
        ensures
            res == creation_ordered(dry_run, kind),
    {
        !dry_run && !matches!(kind, PathKind::Dir) && !matches!(kind, PathKind::File)
    }

    /// Accounts for one run of this action, from what stood at the
    /// directory and how its creation went: claims the directory from the
    /// orphan candidates, whatever the outcome, and gives the record line, or
    /// the message of a creation that failed.
    pub fn execute(
        &self,
        dry_run: bool,
        old_files: &mut Vec<String>,
        kind: PathKind,
        create_error: &Option<String>,
    ) -> (res: Result<String, String>)
        ensures
            log_view(res) == dir_result(self@.dir, dry_run, kind, opt_text(*create_error)),
            texts(final(old_files)@) == unclaimed(texts(old(old_files)@), self@.dir),
    {
        claim(old_files, self.dir().as_str());
        match kind {
            PathKind::Dir => Ok(
                write_dir_line(self.dir().as_str(), "Did not create: Directory exists."),
            ),
            PathKind::File => Ok(
                write_dir_line(self.dir().as_str(), "Did not create: File exists with that name."),
            ),
            _ => {
                if dry_run {
                    let line = write_dir_line(self.dir().as_str(), "");
                    proof {
                        assert(""@ =~= Seq::<char>::empty()) by {
                            reveal_strlit("");
                        }
                    }
                    Ok(line)
                } else {
                    match create_error {
                        Some(error) => {
                            let mut msg = chars_of("CHARON (Error): Could not create dir ");
                            append_str(&mut msg, debug_path(self.dir().as_str()).as_str());
                            append_str(&mut msg, ". Error: ");
                            append_str(&mut msg, error.as_str());
                            Err(string_of(&msg))
                        },
                        None => Ok(write_dir_line(self.dir().as_str(), "Created directory!")),
                    }
                }
            },
        }
    }
}

/// The destinations that running an action claims.
pub open spec fn claims_of(action: ActionSpec, reports: Seq<ReportSpec>) -> Seq<Seq<char>> {
    match action {
        ActionSpec::File(file) => dests_of(file, reports),
        ActionSpec::Dir(dir) => seq![dir.dir],
    }
}

/// What running an action gives, from what was seen.
pub open spec fn action_result(
    action: ActionSpec,
    dry_run: bool,
    kind: PathKind,
    create_error: Option<Seq<char>>,
    reports: Seq<ReportSpec>,
) -> Result<Seq<char>, Seq<char>> {
    match action {
        ActionSpec::File(file) => Ok(copy_log(file, dry_run, reports)),
        ActionSpec::Dir(dir) => dir_result(dir.dir, dry_run, kind, create_error),
    }
}

impl InstallAction {
    /// Accounts for one run of this action, from what was seen while it
    /// ran: a file action through its copy reports, a directory action
    /// through what stood there and how its creation went.
    pub fn execute(&self, dry_run: bool, old_files: &mut Vec<String>, seen: &Observation) -> (res:
        Result<String, String>)
        ensures
            log_view(res) == action_result(
                self@,
                dry_run,
                seen.kind,
                opt_text(seen.create_error),
                report_views(seen.copies@),
            ),
            texts(final(old_files)@) == unclaimed_all(
                texts(old(old_files)@),
                claims_of(self@, report_views(seen.copies@)),
            ),
    {
        match self {
            InstallAction::File(file) => file.execute(dry_run, old_files, &seen.copies),
            InstallAction::Dir(dir) => {
                proof {
                    let only = seq![dir@.dir];
                    assert(only.drop_last() =~= Seq::<Seq<char>>::empty());
                    assert(only.last() == dir@.dir);
                    assert(unclaimed_all(texts(old_files@), only.drop_last()) == texts(
                        old_files@,
                    ));
                    assert(unclaimed_all(texts(old_files@), only) == unclaimed(
                        texts(old_files@),
                        dir@.dir,
                    ));
                }
                dir.execute(dry_run, old_files, seen.kind, &seen.create_error)
            },
        }
    }
}

/// What running the action at place `i` gives, from what was seen of it.
pub open spec fn result_at(
    actions: Seq<InstallAction>,
    dry_run: bool,
    seen: Seq<Observation>,
    i: int,
) -> Result<Seq<char>, Seq<char>> {
    action_result(
        actions[i]@,
        dry_run,
        seen[i].kind,
        opt_text(seen[i].create_error),
        report_views(seen[i].copies@),
    )
}

/// The destinations that the first `n` actions claim, in the order of the
/// actions.
pub open spec fn claims_upto(actions: Seq<InstallAction>, seen: Seq<Observation>, n: int) -> Seq<
    Seq<char>,
>
    decreases n,
{
    if n <= 0 {
        Seq::<Seq<char>>::empty()
    } else {
        claims_upto(actions, seen, n - 1) + claims_of(
            actions[n - 1]@,
            report_views(seen[n - 1].copies@),
        )
    }
}

/// Claiming one list of destinations and then another is claiming the two
/// in a row.
pub proof fn claims_add_up(old: Seq<Seq<char>>, a: Seq<Seq<char>>, b: Seq<Seq<char>>)
    ensures
        unclaimed_all(old, a + b) == unclaimed_all(unclaimed_all(old, a), b),
    decreases b.len(),
{
    if b.len() == 0 {
        assert(a + b =~= a);
    } else {
        claims_add_up(old, a, b.drop_last());
        assert((a + b).drop_last() =~= a + b.drop_last());
        assert((a + b).last() == b.last());
    }
}

/// Accounts for a run: each action in manifest order, with what was seen
/// while it ran. Gives the result of each action, in order, and leaves in
/// `old_files` the orphans: the candidates that no action claimed. An
/// action without an observation, and all behind it, did not run.
pub fn execute_actions(
    actions: &Vec<InstallAction>,
    dry_run: bool,
    old_files: &mut Vec<String>,
    seen: &Vec<Observation>,
) -> (res: Vec<Result<String, String>>)
    ensures
        res@.len() == (if actions@.len() <= seen@.len() {
            actions@.len()
        } else {
            seen@.len()
        }),
        forall|i: int|
            0 <= i < res@.len() ==> log_view(#[trigger] res@[i]) == result_at(
                actions@,
                dry_run,
                seen@,
                i,
            ),
        texts(final(old_files)@) == unclaimed_all(
            texts(old(old_files)@),
            claims_upto(actions@, seen@, res@.len() as int),
        ),
{
    let mut results: Vec<Result<String, String>> = Vec::new();
    let mut i: usize = 0;
    while i < actions.len() && i < seen.len()
        invariant
            i <= actions.len(),
            i <= seen.len(),
            results@.len() == i,
            forall|k: int|
                0 <= k < i ==> log_view(#[trigger] results@[k]) == result_at(
                    actions@,
                    dry_run,
                    seen@,
                    k,
                ),
            texts(old_files@) == unclaimed_all(
                texts(old(old_files)@),
                claims_upto(actions@, seen@, i as int),
            ),
        decreases actions.len() - i,
    {
        proof {
            claims_add_up(
                texts(old(old_files)@),
                claims_upto(actions@, seen@, i as int),
                claims_of(actions@[i as int]@, report_views(seen@[i as int].copies@)),
            );
        }
        let result = actions[i].execute(dry_run, old_files, &seen[i]);
        results.push(result);
        i += 1;
    }
    results
}

} // verus!
