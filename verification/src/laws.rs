use vstd::prelude::*;
use crate::engine::{
    copy_note, copy_ordered, creation_ordered, dir_result, unclaimed, unclaimed_all, ReportSpec,
};
use crate::manifest::{compile, dirs_of};
use crate::opts::{opts_of, Opts};
use crate::paths::{known, paths_equal, HaltView, PathFact, PathKind};
use crate::record::doomed;
use crate::resolve::{dir_line, Locations};
use crate::text::{
    is_break, is_space, joined, lines_of, non_empty, non_empty_members, pieces,
    pieces_never_empty, tokens_of,
};

verus! {

proof fn member_after_push(s: Seq<Seq<char>>, x: Seq<char>, f: Seq<char>)
    ensures
        s.push(x).contains(f) <==> (s.contains(f) || f == x),
{
    if s.contains(f) {
        let i = choose|i: int| 0 <= i < s.len() && s[i] == f;
        assert(s.push(x)[i] == f);
    }
    if f == x {
        assert(s.push(x)[s.len() as int] == f);
    }
    if s.push(x).contains(f) {
        let i = choose|i: int| 0 <= i < s.push(x).len() && s.push(x)[i] == f;
        if i < s.len() {
            assert(s[i] == f);
        }
    }
}

/// Claiming a destination leaves exactly the candidates that are not that
/// path.
pub proof fn claim_leaves_the_others(old: Seq<Seq<char>>, dest: Seq<char>, f: Seq<char>)
    ensures
        unclaimed(old, dest).contains(f) <==> (old.contains(f) && !paths_equal(f, dest)),
    decreases old.len(),
{
    if old.len() > 0 {
        let rest = old.drop_last();
        claim_leaves_the_others(rest, dest, f);
        assert(old =~= rest.push(old.last()));
        member_after_push(rest, old.last(), f);
        if !paths_equal(old.last(), dest) {
            member_after_push(unclaimed(rest, dest), old.last(), f);
        }
    }
}

/// After a run the orphan candidates are exactly those of before that no
/// claimed destination equals as a path: what the run targets again stays
/// out of the deletions, and nothing else does.
pub proof fn orphans_are_the_unclaimed(old: Seq<Seq<char>>, dests: Seq<Seq<char>>, f: Seq<char>)
    ensures
        unclaimed_all(old, dests).contains(f) <==> (old.contains(f) && forall|i: int|
            0 <= i < dests.len() ==> !paths_equal(f, #[trigger] dests[i])),
    decreases dests.len(),
{
    if dests.len() > 0 {
        let rest = dests.drop_last();
        orphans_are_the_unclaimed(old, rest, f);
        claim_leaves_the_others(unclaimed_all(old, rest), dests.last(), f);
        if forall|i: int| 0 <= i < dests.len() ==> !paths_equal(f, #[trigger] dests[i]) {
            assert forall|i: int| 0 <= i < rest.len() implies !paths_equal(
                f,
                #[trigger] rest[i],
            ) by {
                assert(rest[i] == dests[i]);
            }
            assert(dests[dests.len() - 1] == dests.last());
        }
        if !paths_equal(f, dests.last()) && (forall|i: int|
            0 <= i < rest.len() ==> !paths_equal(f, #[trigger] rest[i])) {
            assert forall|i: int| 0 <= i < dests.len() implies !paths_equal(
                f,
                #[trigger] dests[i],
            ) by {
                if i < rest.len() {
                    assert(rest[i] == dests[i]);
                }
            }
        }
    }
}

/// Claiming a destination twice leaves what claiming it once leaves.
pub proof fn claim_twice_is_claim_once(old: Seq<Seq<char>>, dest: Seq<char>)
    ensures
        unclaimed(unclaimed(old, dest), dest) == unclaimed(old, dest),
    decreases old.len(),
{
    if old.len() > 0 {
        claim_twice_is_claim_once(old.drop_last(), dest);
        if !paths_equal(old.last(), dest) {
            let once = unclaimed(old.drop_last(), dest);
            assert(once.push(old.last()).drop_last() =~= once);
        }
    }
}

/// A dry run orders no copy, no creation of a directory and no deletion of
/// an orphan, whatever stands on disk.
pub proof fn dry_run_orders_nothing(
    opts: Opts,
    dest_exists: bool,
    kind: PathKind,
    remove_orphans: bool,
    left: Seq<String>,
)
    ensures
        !copy_ordered(opts, true, dest_exists),
        !creation_ordered(true, kind),
        doomed(true, remove_orphans, left).len() == 0,
{
}

/// A destination that exists is left alone where the policy forbids
/// overwriting: no copy is ordered and the record says so.
pub proof fn existing_file_is_kept(opts: Opts, dry_run: bool, report: ReportSpec)
    requires
        report.dest_exists,
        !opts.overwrite,
    ensures
        !copy_ordered(opts, dry_run, report.dest_exists),
        copy_note(opts, dry_run, report) == "Did not copy: File exists && !overwrite\n"@,
{
}

/// A destination that exists is copied over where the policy allows it and
/// the run is real; the record of a copy that went well says that the file
/// was overwritten.
pub proof fn existing_file_is_overwritten(opts: Opts, report: ReportSpec)
    requires
        report.dest_exists,
        opts.overwrite,
    ensures
        copy_ordered(opts, false, report.dest_exists),
        report.copy_error is None ==> copy_note(opts, false, report).subrange(0, 29)
            == "Copied! File was overwritten."@,
{
    reveal_strlit("Copied! File was overwritten.");
    reveal_strlit("Copied! ");
    reveal_strlit("File was overwritten.");
    if report.copy_error is None {
        assert(copy_note(opts, false, report).subrange(0, 29) =~= "Copied! File was overwritten."@);
    }
}

/// A directory that stands is never created again: a second run over the
/// same directive orders no creation, cannot fail, and records that the
/// directory exists.
pub proof fn standing_directory_is_left(
    dir: Seq<char>,
    dry_run: bool,
    create_error: Option<Seq<char>>,
)
    ensures
        !creation_ordered(dry_run, PathKind::Dir),
        dir_result(dir, dry_run, PathKind::Dir, create_error) == Ok::<Seq<char>, Seq<char>>(
            dir_line(dir, "Did not create: Directory exists."@),
        ),
{
}

/// Whether the last of the two switches `on` and `off` in `s` is `on`.
pub open spec fn switched_on(s: Seq<char>, on: char, off: char) -> bool {
    exists|i: int|
        0 <= i < s.len() && s[i] == on && forall|j: int| i < j < s.len() ==> #[trigger] s[j] != off
}

proof fn switch_step(s: Seq<char>, on: char, off: char)
    requires
        s.len() > 0,
        on != off,
    ensures
        switched_on(s, on, off) <==> (s.last() == on || (s.last() != off && switched_on(
            s.drop_last(),
            on,
            off,
        ))),
{
    let rest = s.drop_last();
    if switched_on(s, on, off) {
        let i = choose|i: int|
            0 <= i < s.len() && s[i] == on && forall|j: int|
                i < j < s.len() ==> #[trigger] s[j] != off;
        if i < s.len() - 1 {
            assert(s[s.len() - 1] != off);
            assert(rest[i] == on);
            assert forall|j: int| i < j < rest.len() implies #[trigger] rest[j] != off by {
                assert(rest[j] == s[j]);
            }
        }
    }
    if s.last() == on {
        assert(s[s.len() - 1] == on);
    }
    if s.last() != off && switched_on(rest, on, off) {
        let i = choose|i: int|
            0 <= i < rest.len() && rest[i] == on && forall|j: int|
                i < j < rest.len() ==> #[trigger] rest[j] != off;
        assert(s[i] == on);
        assert forall|j: int| i < j < s.len() implies #[trigger] s[j] != off by {
            if j < rest.len() {
                assert(rest[j] == s[j]);
            }
        }
    }
}

/// Each flag of the policy is what the last switch for it in the token
/// says: extension stripping by `e` and `E`, overwriting by `o` and `O`,
/// path creation by `p` and `P`. Files with an underscore or a dot in front
/// are taken where `_` or `.` stands anywhere in the token.
pub proof fn flags_follow_the_last_switch(s: Seq<char>)
    ensures
        opts_of(s).strip_ext == switched_on(s, 'e', 'E'),
        opts_of(s).overwrite == switched_on(s, 'o', 'O'),
        opts_of(s).create_path == switched_on(s, 'p', 'P'),
        opts_of(s).copy_underscore_files == s.contains('_'),
        opts_of(s).copy_dot_files == s.contains('.'),
    decreases s.len(),
{
    if s.len() == 0 {
    } else {
        let rest = s.drop_last();
        flags_follow_the_last_switch(rest);
        switch_step(s, 'e', 'E');
        switch_step(s, 'o', 'O');
        switch_step(s, 'p', 'P');
        assert(s =~= rest.push(s.last()));
        if rest.contains('_') {
            let i = choose|i: int| 0 <= i < rest.len() && rest[i] == '_';
            assert(s[i] == '_');
        }
        if rest.contains('.') {
            let i = choose|i: int| 0 <= i < rest.len() && rest[i] == '.';
            assert(s[i] == '.');
        }
        if s.contains('_') && s.last() != '_' {
            let i = choose|i: int| 0 <= i < s.len() && s[i] == '_';
            assert(rest[i] == '_');
        }
        if s.contains('.') && s.last() != '.' {
            let i = choose|i: int| 0 <= i < s.len() && s[i] == '.';
            assert(rest[i] == '.');
        }
        if s.last() == '_' {
            assert(s[s.len() - 1] == '_');
        }
        if s.last() == '.' {
            assert(s[s.len() - 1] == '.');
        }
    }
}

/// The compiler asks only about paths of which the facts say nothing: each
/// answer is news, so asking comes to an end.
pub proof fn compiler_asks_for_news(
    lines: Seq<Seq<char>>,
    manifest_dir: Seq<char>,
    util_name: Seq<char>,
    locations: Locations,
    facts: Seq<PathFact>,
)
    ensures
        match compile(lines, manifest_dir, util_name, locations, facts) {
            Err(HaltView::Ask(path)) => known(facts, path) is None,
            _ => true,
        },
    decreases lines.len(),
{
    if lines.len() > 0 {
        compiler_asks_for_news(lines.drop_last(), manifest_dir, util_name, locations, facts);
        let tokens = tokens_of(lines.last());
        directive_asks_for_news(tokens.skip(1), util_name, locations, facts);
    }
}

proof fn directive_asks_for_news(
    names: Seq<Seq<char>>,
    util_name: Seq<char>,
    locations: Locations,
    facts: Seq<PathFact>,
)
    ensures
        match dirs_of(names, util_name, locations, facts) {
            Err(HaltView::Ask(path)) => known(facts, path) is None,
            _ => true,
        },
    decreases names.len(),
{
    if names.len() > 0 {
        directive_asks_for_news(names.drop_last(), util_name, locations, facts);
    }
}

/// No piece of a text holds a break.
pub proof fn pieces_hold_no_break(s: Seq<char>, lines: bool)
    ensures
        forall|i: int, j: int|
            0 <= i < pieces(s, lines).len() && 0 <= j < pieces(s, lines)[i].len() ==> !is_break(
                #[trigger] pieces(s, lines)[i][j],
                lines,
            ),
    decreases s.len(),
{
    if s.len() > 0 {
        pieces_hold_no_break(s.drop_last(), lines);
        pieces_never_empty(s.drop_last(), lines);
        let before = pieces(s.drop_last(), lines);
        assert forall|i: int, j: int|
            0 <= i < pieces(s, lines).len() && 0 <= j < pieces(
                s,
                lines,
            )[i].len() implies !is_break(#[trigger] pieces(s, lines)[i][j], lines) by {
            if i < before.len() - 1 {
                assert(pieces(s, lines)[i] == before[i]);
            } else if i == before.len() - 1 {
                if !is_break(s.last(), lines) {
                    if j < before[i].len() {
                        assert(pieces(s, lines)[i][j] == before[i][j]);
                    }
                } else {
                    assert(pieces(s, lines)[i] == before[i]);
                }
            }
        }
    }
}

/// The lines of a text, with a line break between each two, are the text.
pub proof fn lines_join_to_the_text(s: Seq<char>)
    ensures
        joined(lines_of(s), seq!['\n']) == s,
    decreases s.len(),
{
    let sep = seq!['\n'];
    let e = Seq::<char>::empty();
    if s.len() == 0 {
        assert(lines_of(s) =~= seq![e]);
        assert(s =~= e);
    } else {
        let rest = s.drop_last();
        lines_join_to_the_text(rest);
        pieces_never_empty(rest, true);
        let before = pieces(rest, true);
        if s.last() == '\n' {
            let after = before.push(e);
            assert(after.drop_last() =~= before);
            assert(joined(after, sep) == joined(before, sep) + sep + e);
            assert(rest + sep + e =~= s);
        } else {
            let grown = before.last().push(s.last());
            let after = before.drop_last().push(grown);
            assert(after.drop_last() =~= before.drop_last());
            if before.len() == 1 {
                assert(joined(before, sep) == before[0]);
                assert(joined(after, sep) == grown);
                assert(grown =~= s);
            } else {
                assert(joined(before, sep) == joined(before.drop_last(), sep) + sep
                    + before.last());
                assert(joined(after, sep) == joined(before.drop_last(), sep) + sep + grown);
                assert(joined(before.drop_last(), sep) + sep + grown =~= (joined(
                    before.drop_last(),
                    sep,
                ) + sep + before.last()).push(s.last()));
                assert(rest.push(s.last()) =~= s);
            }
        }
    }
}

/// No token holds a blank, and none is empty.
pub proof fn tokens_hold_no_blank(s: Seq<char>)
    ensures
        forall|i: int|
            0 <= i < tokens_of(s).len() ==> (#[trigger] tokens_of(s)[i]).len() > 0 && forall|
                j: int,
            |
                0 <= j < tokens_of(s)[i].len() ==> !is_space(#[trigger] tokens_of(s)[i][j]),
{
    pieces_hold_no_break(s, false);
    non_empty_members(pieces(s, false));
    non_empty_are_members(pieces(s, false));
    assert forall|i: int| 0 <= i < tokens_of(s).len() implies (#[trigger] tokens_of(s)[i]).len()
        > 0 && forall|j: int|
        0 <= j < tokens_of(s)[i].len() ==> !is_space(#[trigger] tokens_of(s)[i][j]) by {
        let k = choose|k: int| 0 <= k < pieces(s, false).len() && pieces(s, false)[k] == tokens_of(
            s,
        )[i];
        assert forall|j: int| 0 <= j < tokens_of(s)[i].len() implies !is_space(
            #[trigger] tokens_of(s)[i][j],
        ) by {
            assert(!is_break(pieces(s, false)[k][j], false));
        }
    }
}

proof fn non_empty_are_members(p: Seq<Seq<char>>)
    ensures
        forall|i: int|
            0 <= i < non_empty(p).len() ==> exists|k: int|
                0 <= k < p.len() && p[k] == #[trigger] non_empty(p)[i],
    decreases p.len(),
{
    if p.len() > 0 {
        let rest = p.drop_last();
        non_empty_are_members(rest);
        assert forall|i: int| 0 <= i < non_empty(p).len() implies exists|k: int|
            0 <= k < p.len() && p[k] == #[trigger] non_empty(p)[i] by {
            if i < non_empty(rest).len() {
                assert(non_empty(p)[i] == non_empty(rest)[i]);
                let k = choose|k: int| 0 <= k < rest.len() && rest[k] == non_empty(rest)[i];
                assert(p[k] == non_empty(p)[i]);
            } else {
                assert(p[p.len() - 1] == non_empty(p)[i]);
            }
        }
    }
}

} // verus!
