use vstd::prelude::*;
use crate::engine::log_view;
use crate::text::{
    append_str, chars_of, lines, lines_of, string_of, texts, tokens, tokens_of, views,
};

verus! {

/// Whether a record line is a comment: its first token starts with `#`.
pub open spec fn is_comment(tokens: Seq<Seq<char>>) -> bool {
    tokens.len() > 0 && tokens[0].len() > 0 && tokens[0][0] == '#'
}

/// The destination that a record line names: the only token of a line of
/// one, the second token of a line of two or three. A blank line, a comment
/// and a line of four or more tokens name none.
pub open spec fn stale_of(line: Seq<char>) -> Option<Seq<char>> {
    let tokens = tokens_of(line);
    if tokens.len() == 0 || is_comment(tokens) {
        None
    } else if tokens.len() == 1 {
        Some(tokens[0])
    } else if tokens.len() <= 3 {
        Some(tokens[1])
    } else {
        None
    }
}

/// The destinations that the lines of a record name, in order.
pub open spec fn stale_paths(lines: Seq<Seq<char>>) -> Seq<Seq<char>>
    decreases lines.len(),
{
    if lines.len() == 0 {
        Seq::<Seq<char>>::empty()
    } else {
        match stale_of(lines.last()) {
            Some(path) => stale_paths(lines.drop_last()).push(path),
            None => stale_paths(lines.drop_last()),
        }
    }
}

/// Whether a record line is passed over for holding too much: it is no
/// comment and has four or more tokens.
pub open spec fn is_oversized(line: Seq<char>) -> bool {
    let tokens = tokens_of(line);
    tokens.len() > 3 && !is_comment(tokens)
}

/// The token counts of the lines that are passed over for holding too much,
/// in order.
pub open spec fn oversized(lines: Seq<Seq<char>>) -> Seq<nat>
    decreases lines.len(),
{
    if lines.len() == 0 {
        Seq::<nat>::empty()
    } else if is_oversized(lines.last()) {
        oversized(lines.drop_last()).push(tokens_of(lines.last()).len())
    } else {
        oversized(lines.drop_last())
    }
}

/// Reads a record of an earlier run as the list of destinations to hold
/// stale, in the order of its lines.
pub fn parse_uninstall_file(contents: &str) -> (res: Vec<String>)
    ensures
        texts(res@) == stale_paths(lines_of(contents@)),
{
    let all = lines(&chars_of(contents));
    let mut targets: Vec<String> = Vec::new();
    let mut i: usize = 0;
    let ghost ls = views(all@);
    proof {
        assert(ls.take(0) =~= Seq::<Seq<char>>::empty());
        assert(texts(targets@) =~= Seq::<Seq<char>>::empty());
    }
    while i < all.len()
        invariant
            i <= all.len(),
            ls == views(all@),
            ls == lines_of(contents@),
            texts(targets@) == stale_paths(ls.take(i as int)),
        decreases all.len() - i,
    {
        proof {
            assert(ls.take(i + 1).drop_last() =~= ls.take(i as int));
            assert(ls.take(i + 1).last() == all@[i as int]@);
        }
        let toks = tokens(&all[i]);
        let ghost before = texts(targets@);
        if toks.len() > 0 {
            proof {
                assert(views(toks@)[0] == toks@[0]@);
            }
            if toks[0][0] != '#' {
                if toks.len() == 1 {
                    let path = string_of(&toks[0]);
                    targets.push(path);
                    proof {
                        assert(texts(targets@) =~= before.push(path@));
                    }
                } else if toks.len() <= 3 {
                    proof {
                        assert(views(toks@)[1] == toks@[1]@);
                    }
                    let path = string_of(&toks[1]);
                    targets.push(path);
                    proof {
                        assert(texts(targets@) =~= before.push(path@));
                    }
                }
            }
        }
        i += 1;
    }
    proof {
        assert(ls.take(all@.len() as int) =~= ls);
    }
    targets
}

/// The token counts of the record lines that `parse_uninstall_file` passes
/// over for holding four or more tokens, in order: one warning is due for
/// each.
pub fn oversized_lines(contents: &str) -> (res: Vec<usize>)
    ensures
        res@.map_values(|n: usize| n as nat) == oversized(lines_of(contents@)),
{
    let all = lines(&chars_of(contents));
    let mut counts: Vec<usize> = Vec::new();
    let mut i: usize = 0;
    let ghost ls = views(all@);
    proof {
        assert(ls.take(0) =~= Seq::<Seq<char>>::empty());
        assert(counts@.map_values(|n: usize| n as nat) =~= Seq::<nat>::empty());
    }
    while i < all.len()
        invariant
            i <= all.len(),
            ls == views(all@),
            ls == lines_of(contents@),
            counts@.map_values(|n: usize| n as nat) == oversized(ls.take(i as int)),
        decreases all.len() - i,
    {
        proof {
            assert(ls.take(i + 1).drop_last() =~= ls.take(i as int));
            assert(ls.take(i + 1).last() == all@[i as int]@);
        }
        let toks = tokens(&all[i]);
        let ghost before = counts@.map_values(|n: usize| n as nat);
        if toks.len() > 3 {
            proof {
                assert(views(toks@)[0] == toks@[0]@);
            }
            if toks[0][0] != '#' {
                counts.push(toks.len());
                proof {
                    assert(counts@.map_values(|n: usize| n as nat) =~= before.push(
                        toks@.len() as nat,
                    ));
                }
            }
        }
        i += 1;
    }
    proof {
        assert(ls.take(all@.len() as int) =~= ls);
    }
    counts
}

/// The orphans to delete after a run: what is left of the candidates, or
/// nothing in a dry run and where removal is switched off.
pub open spec fn doomed(dry_run: bool, remove_orphans: bool, left: Seq<String>) -> Seq<String> {
    if dry_run || !remove_orphans {
        Seq::<String>::empty()
    } else {
        left
    }
}

/// The orphans to delete after a run, given the candidates that no action
/// claimed.
pub fn orphans(dry_run: bool, remove_orphans: bool, old_files: Vec<String>) -> (res: Vec<String>)
    ensures
        res@ == doomed(dry_run, remove_orphans, old_files@),
{
    if dry_run || !remove_orphans {
        Vec::new()
    } else {
        old_files
    }
}

/// The name of a unit's record file: a dry run has a record of its own.
pub open spec fn record_name(util_name: Seq<char>, dry_run: bool) -> Seq<char> {
    if dry_run {
        util_name + ".dryrun.charon"@
    } else {
        util_name + ".charon"@
    }
}

/// The name of the record file that a run of the unit writes.
pub fn record_file_name(util_name: &str, dry_run: bool) -> (res: String)
    ensures
        res@ == record_name(util_name@, dry_run),
{
    let mut name = chars_of(util_name);
    if dry_run {
        append_str(&mut name, ".dryrun.charon");
    } else {
        append_str(&mut name, ".charon");
    }
    string_of(&name)
}

/// The name of the record file to read as the baseline: the real record
/// where it exists, else the dry-run record where that exists.
pub fn baseline_file_name(util_name: &str, real_exists: bool, dry_exists: bool) -> (res: Option<
    String,
>)
    ensures
        match res {
            Some(name) => (real_exists || dry_exists) && name@ == record_name(
                util_name@,
                !real_exists,
            ),
            None => !real_exists && !dry_exists,
        },
{
    if real_exists {
        Some(record_file_name(util_name, false))
    } else if dry_exists {
        Some(record_file_name(util_name, true))
    } else {
        None
    }
}

/// The texts of the actions that succeeded, one after the other.
pub open spec fn record_of(results: Seq<Result<String, String>>) -> Seq<char>
    decreases results.len(),
{
    if results.len() == 0 {
        Seq::<char>::empty()
    } else {
        match log_view(results.last()) {
            Ok(text) => record_of(results.drop_last()) + text,
            Err(_) => record_of(results.drop_last()),
        }
    }
}

/// The text of the record that a run writes: the texts of its actions in
/// the order in which they ran, those of failed actions left out.
pub fn record_text(results: &Vec<Result<String, String>>) -> (res: String)
    ensures
        res@ == record_of(results@),
{
    let mut out: Vec<char> = Vec::new();
    let mut i: usize = 0;
    proof {
        assert(results@.take(0) =~= Seq::<Result<String, String>>::empty());
    }
    while i < results.len()
        invariant
            i <= results.len(),
            out@ == record_of(results@.take(i as int)),
        decreases results.len() - i,
    {
        proof {
            assert(results@.take(i + 1).drop_last() =~= results@.take(i as int));
        }
        match &results[i] {
            Ok(text) => append_str(&mut out, text.as_str()),
            Err(_) => {},
        }
        i += 1;
    }
    proof {
        assert(results@.take(results@.len() as int) =~= results@);
    }
    string_of(&out)
}

} // verus!
