use vstd::prelude::*;
use crate::action::{action_views, ActionSpec, FileSpec, InstallAction, InstallFile};
use crate::opts::{default_opts, opts_result, parse_opts};
use crate::paths::{Halt, HaltView, PathFact};
use crate::resolve::{
    create_util_dir, dest_of, expand_mythos_shortcut, parse_dest, parse_target, shortcut_base,
    target_of, util_dir_of, Locations,
};
use crate::text::{
    append_chars, append_str, chars_of, decimal, decimal_chars, lines, lines_of, string_of,
    tokens, tokens_of, views,
};

verus! {

/// The message of a manifest line that does not compile: the line's number,
/// counted from one, then the cause.
pub open spec fn fatal_message(line_no: nat, cause: Seq<char>) -> Seq<char> {
    "CHARON (Fatal Error on line "@ + decimal(line_no) + "): "@ + cause
}

/// A line's halt as the manifest reports it: a refusal names the line.
pub open spec fn located(halt: HaltView, line_no: nat) -> HaltView {
    match halt {
        HaltView::Ask(path) => HaltView::Ask(path),
        HaltView::Fail(cause) => HaltView::Fail(fatal_message(line_no, cause)),
    }
}

/// The directory actions of a location directive: one for each shortcut, in
/// order; the first shortcut that does not resolve stops it.
pub open spec fn dirs_of(
    names: Seq<Seq<char>>,
    util_name: Seq<char>,
    locations: Locations,
    facts: Seq<PathFact>,
) -> Result<Seq<ActionSpec>, HaltView>
    decreases names.len(),
{
    if names.len() == 0 {
        Ok(Seq::<ActionSpec>::empty())
    } else {
        match dirs_of(names.drop_last(), util_name, locations, facts) {
            Err(halt) => Err(halt),
            Ok(before) => match shortcut_base(names.last(), locations) {
                None => Err(HaltView::Fail("Could not read dir to create"@)),
                Some(base) => match util_dir_of(base, util_name, facts) {
                    Err(halt) => Err(halt),
                    Ok(dir) => Ok(before.push(ActionSpec::Dir(dir))),
                },
            },
        }
    }
}

/// The file action of a mapping line: the target, then the destination, then
/// the options are resolved, and the first that fails stops it.
pub open spec fn file_of(
    tokens: Seq<Seq<char>>,
    manifest_dir: Seq<char>,
    locations: Locations,
    facts: Seq<PathFact>,
) -> Result<ActionSpec, HaltView> {
    match target_of(tokens[0], manifest_dir, facts) {
        Err(halt) => Err(halt),
        Ok(target) => if tokens.len() < 2 {
            Err(HaltView::Fail("Expected a path to destination directory."@))
        } else {
            match dest_of(tokens[1], locations, facts) {
                Err(halt) => Err(halt),
                Ok(dest) => match (if tokens.len() < 3 {
                    Ok(default_opts())
                } else {
                    opts_result(tokens[2])
                }) {
                    Err(msg) => Err(HaltView::Fail(msg)),
                    Ok(opts) => Ok(
                        ActionSpec::File(
                            FileSpec {
                                target_dir: target.0,
                                target_name: target.1,
                                dest_dir: dest,
                                opts: opts,
                            },
                        ),
                    ),
                },
            }
        },
    }
}

/// The actions of one manifest line. A line without tokens or whose first
/// token starts with `#` gives none; one whose first token starts with `@`
/// is a location directive; any other is a file mapping.
pub open spec fn line_of(
    line: Seq<char>,
    manifest_dir: Seq<char>,
    util_name: Seq<char>,
    locations: Locations,
    facts: Seq<PathFact>,
) -> Result<Seq<ActionSpec>, HaltView> {
    let tokens = tokens_of(line);
    if tokens.len() == 0 {
        Ok(Seq::<ActionSpec>::empty())
    } else if tokens[0].len() > 0 && tokens[0][0] == '@' {
        dirs_of(tokens.skip(1), util_name, locations, facts)
    } else if tokens[0].len() > 0 && tokens[0][0] == '#' {
        Ok(Seq::<ActionSpec>::empty())
    } else {
        match file_of(tokens, manifest_dir, locations, facts) {
            Err(halt) => Err(halt),
            Ok(action) => Ok(seq![action]),
        }
    }
}

/// The actions of a manifest: those of its lines, in the order of the lines.
/// The first line that halts stops the whole.
pub open spec fn compile(
    lines: Seq<Seq<char>>,
    manifest_dir: Seq<char>,
    util_name: Seq<char>,
    locations: Locations,
    facts: Seq<PathFact>,
) -> Result<Seq<ActionSpec>, HaltView>
    decreases lines.len(),
{
    if lines.len() == 0 {
        Ok(Seq::<ActionSpec>::empty())
    } else {
        match compile(lines.drop_last(), manifest_dir, util_name, locations, facts) {
            Err(halt) => Err(halt),
            Ok(before) => match line_of(lines.last(), manifest_dir, util_name, locations, facts) {
                Err(halt) => Err(located(halt, lines.len())),
                Ok(more) => Ok(before + more),
            },
        }
    }
}

/// The result of compiling, as texts.
pub open spec fn actions_view(r: Result<Vec<InstallAction>, Halt>) -> Result<
    Seq<ActionSpec>,
    HaltView,
> {
    match r {
        Ok(actions) => Ok(action_views(actions@)),
        Err(halt) => Err(halt@),
    }
}

/// Appends the directory actions of a location directive to `actions`.
fn compile_dirs(
    tokens: &Vec<Vec<char>>,
    util_name: &str,
    locations: &Locations,
    facts: &Vec<PathFact>,
    actions: &mut Vec<InstallAction>,
) -> (res: Option<Halt>)
    requires
        tokens@.len() >= 1,
    ensures
        match dirs_of(views(tokens@).skip(1), util_name@, *locations, facts@) {
            Ok(more) => res is None && action_views(final(actions)@) == action_views(
                old(actions)@,
            ) + more,
            Err(halt) => res is Some && res->0@ == halt,
        },
{
    let ghost names = views(tokens@).skip(1);
    let mut i: usize = 1;
    proof {
        assert(names.take(0) =~= Seq::<Seq<char>>::empty());
        assert(action_views(actions@) =~= action_views(old(actions)@) + Seq::<
            ActionSpec,
        >::empty());
    }
    while i < tokens.len()
        invariant
            1 <= i <= tokens.len(),
            names == views(tokens@).skip(1),
            dirs_of(names.take(i - 1), util_name@, *locations, facts@) is Ok,
            action_views(actions@) == action_views(old(actions)@) + dirs_of(
                names.take(i - 1),
                util_name@,
                *locations,
                facts@,
            )->Ok_0,
        decreases tokens.len() - i,
    {
        proof {
            assert(names.take(i as int).drop_last() =~= names.take(i - 1));
            assert(names.take(i as int).last() == tokens@[i as int]@);
        }
        let ghost before = action_views(actions@);
        let name = string_of(&tokens[i]);
        let base = match expand_mythos_shortcut(name.as_str(), locations) {
            Some(base) => base,
            None => {
                proof {
                    assert(names.take(tokens@.len() - 1) =~= names);
                    stays_halted(names, i as int, util_name@, *locations, facts@);
                }
                return Some(Halt::Fail("Could not read dir to create".to_owned()));
            },
        };
        match create_util_dir(base.as_str(), util_name, facts) {
            Ok(dir) => {
                actions.push(InstallAction::Dir(dir));
                proof {
                    assert(action_views(actions@) =~= before.push(ActionSpec::Dir(dir@)));
                }
            },
            Err(halt) => {
                proof {
                    stays_halted(names, i as int, util_name@, *locations, facts@);
                }
                return Some(halt);
            },
        }
        i += 1;
    }
    proof {
        assert(names.take(tokens@.len() - 1) =~= names);
    }
    None
}

/// A directive that halts at a shortcut halts in the same way with more
/// shortcuts behind it.
proof fn stays_halted(
    names: Seq<Seq<char>>,
    n: int,
    util_name: Seq<char>,
    locations: Locations,
    facts: Seq<PathFact>,
)
    requires
        0 <= n <= names.len(),
        dirs_of(names.take(n), util_name, locations, facts) is Err,
    ensures
        dirs_of(names, util_name, locations, facts) == dirs_of(
            names.take(n),
            util_name,
            locations,
            facts,
        ),
    decreases names.len() - n,
{
    if n < names.len() {
        assert(names.take(n + 1).drop_last() =~= names.take(n));
        stays_halted(names, n + 1, util_name, locations, facts);
    } else {
        assert(names.take(n) =~= names);
    }
}

/// Appends the file action of a mapping line to `actions`.
fn compile_file(
    tokens: &Vec<Vec<char>>,
    path: &str,
    locations: &Locations,
    facts: &Vec<PathFact>,
    actions: &mut Vec<InstallAction>,
) -> (res: Option<Halt>)
    requires
        tokens@.len() >= 1,
    ensures
        match file_of(views(tokens@), path@, *locations, facts@) {
            Ok(action) => res is None && action_views(final(actions)@) == action_views(
                old(actions)@,
            ).push(action),
            Err(halt) => res is Some && res->0@ == halt,
        },
{
    let target = string_of(&tokens[0]);
    let (target_dir, target_name) = match parse_target(target.as_str(), path, facts) {
        Ok(found) => found,
        Err(halt) => { return Some(halt); },
    };
    if tokens.len() < 2 {
        return Some(Halt::Fail("Expected a path to destination directory.".to_owned()));
    }
    let dest = string_of(&tokens[1]);
    let dest_dir = match parse_dest(dest.as_str(), locations, facts) {
        Ok(found) => found,
        Err(halt) => { return Some(halt); },
    };
    let parsed = if tokens.len() < 3 {
        parse_opts(None)
    } else {
        let token = string_of(&tokens[2]);
        parse_opts(Some(token.as_str()))
    };
    let opts = match parsed {
        Ok(opts) => opts,
        Err(msg) => { return Some(Halt::Fail(msg)); },
    };
    let ghost before = action_views(actions@);
    let file = InstallFile::new(target_dir, target_name.as_str(), dest_dir, opts);
    actions.push(InstallAction::File(file));
    proof {
        assert(action_views(actions@) =~= before.push(ActionSpec::File(file@)));
    }
    None
}

/// Appends the actions of one manifest line to `actions`.
fn compile_line(
    line: &Vec<char>,
    path: &str,
    util_name: &str,
    locations: &Locations,
    facts: &Vec<PathFact>,
    actions: &mut Vec<InstallAction>,
) -> (res: Option<Halt>)
    ensures
        match line_of(line@, path@, util_name@, *locations, facts@) {
            Ok(more) => res is None && action_views(final(actions)@) == action_views(
                old(actions)@,
            ) + more,
            Err(halt) => res is Some && res->0@ == halt,
        },
{
    let toks = tokens(line);
    let ghost before = action_views(actions@);
    if toks.len() == 0 {
        proof {
            assert(before =~= before + Seq::<ActionSpec>::empty());
        }
        return None;
    }
    proof {
        assert(views(toks@)[0] == toks@[0]@);
    }
    let first = toks[0][0];
    if first == '@' {
        compile_dirs(&toks, util_name, locations, facts, actions)
    } else if first == '#' {
        proof {
            assert(before =~= before + Seq::<ActionSpec>::empty());
        }
        None
    } else {
        let res = compile_file(&toks, path, locations, facts, actions);
        proof {
            let spec = file_of(views(toks@), path@, *locations, facts@);
            if spec is Ok {
                assert(before.push(spec->Ok_0) =~= before + seq![spec->Ok_0]);
            }
        }
        res
    }
}

/// Writes the message of a manifest line that does not compile.
pub fn write_fatal(line_no: usize, cause: &str) -> (res: String)
    ensures
        res@ == fatal_message(line_no as nat, cause@),
{
    let mut msg = chars_of("CHARON (Fatal Error on line ");
    append_chars(&mut msg, &decimal_chars(line_no as u64));
    append_str(&mut msg, "): ");
    append_str(&mut msg, cause);
    string_of(&msg)
}

/// Compiles a manifest into its actions, in the order of its lines. `path`
/// is the manifest's directory, `util_name` the unit that it installs.
///
/// Nothing is created and nothing on disk is read: what stands at a path is
/// taken from `facts`. Where a fact is wanting the result is `Halt::Ask` with
/// the path to look at; the caller adds the fact and compiles again. The
/// first line that is refused stops the whole with `Halt::Fail`, whose
/// message names the line.
pub fn parse_install_file(
    contents: &str,
    path: &str,
    util_name: &str,
    locations: &Locations,
    facts: &Vec<PathFact>,
) -> (res: Result<Vec<InstallAction>, Halt>)
    ensures
        actions_view(res) == compile(lines_of(contents@), path@, util_name@, *locations, facts@),
{
    let all = lines(&chars_of(contents));
    let mut actions: Vec<InstallAction> = Vec::new();
    let mut i: usize = 0;
    let ghost ls = views(all@);
    proof {
        assert(ls.take(0) =~= Seq::<Seq<char>>::empty());
        assert(action_views(actions@) =~= Seq::<ActionSpec>::empty());
    }
    while i < all.len()
        invariant
            i <= all.len(),
            ls == views(all@),
            ls == lines_of(contents@),
            compile(ls.take(i as int), path@, util_name@, *locations, facts@) == Ok::<
                Seq<ActionSpec>,
                HaltView,
            >(action_views(actions@)),
        decreases all.len() - i,
    {
        proof {
            assert(ls.take(i + 1).drop_last() =~= ls.take(i as int));
            assert(ls.take(i + 1).last() == all@[i as int]@);
        }
        match compile_line(&all[i], path, util_name, locations, facts, &mut actions) {
            None => {},
            Some(halt) => {
                proof {
                    stays_stopped(ls, i + 1, path@, util_name@, *locations, facts@);
                }
                return Err(
                    match halt {
                        Halt::Ask(wanted) => Halt::Ask(wanted),
                        Halt::Fail(cause) => Halt::Fail(write_fatal(i + 1, cause.as_str())),
                    },
                );
            },
        }
        i += 1;
    }
    proof {
        assert(ls.take(all@.len() as int) =~= ls);
    }
    Ok(actions)
}

/// A manifest that halts at a line halts in the same way with more lines
/// behind it.
proof fn stays_stopped(
    lines: Seq<Seq<char>>,
    n: int,
    manifest_dir: Seq<char>,
    util_name: Seq<char>,
    locations: Locations,
    facts: Seq<PathFact>,
)
    requires
        0 <= n <= lines.len(),
        compile(lines.take(n), manifest_dir, util_name, locations, facts) is Err,
    ensures
        compile(lines, manifest_dir, util_name, locations, facts) == compile(
            lines.take(n),
            manifest_dir,
            util_name,
            locations,
            facts,
        ),
    decreases lines.len() - n,
{
    if n < lines.len() {
        assert(lines.take(n + 1).drop_last() =~= lines.take(n));
        stays_stopped(lines, n + 1, manifest_dir, util_name, locations, facts);
    } else {
        assert(lines.take(n) =~= lines);
    }
}

} // verus!
