use vstd::prelude::*;
use crate::action::{ActionSpec, FileSpec, InstallAction};
use crate::engine::{
    claims_of, claims_upto, copy_log, copy_note, dest_for, dests_of, dir_result,
    log_view, report_views, result_at, Observation, ReportSpec,
};
use crate::opts::{is_octal_digit, octal_spells, Opts};
use crate::paths::{shown_path, PathKind};
use crate::record::{is_comment, record_of, stale_of, stale_paths};
use crate::resolve::{dir_line, opt_text};
use crate::text::{is_break, is_space, lines_of, non_empty, octal, pieces, tokens_of};

verus! {

/// A text without a line break.
pub open spec fn one_line(s: Seq<char>) -> bool {
    forall|i: int| 0 <= i < s.len() ==> #[trigger] s[i] != '\n'
}

/// A destination that a record names as it is: it is not empty, holds no
/// blank and no line break, does not start with `#`, and is shown
/// unchanged.
pub open spec fn plain_path(path: Seq<char>) -> bool {
    &&& path.len() > 0
    &&& path[0] != '#'
    &&& forall|i: int| 0 <= i < path.len() ==> !is_space(#[trigger] path[i]) && path[i] != '\n'
    &&& shown_path(path) == path
}

/// A text that ends a line: it is empty or ends in a line break.
pub open spec fn closed(s: Seq<char>) -> bool {
    pieces(s, true).last().len() == 0
}

proof fn unbroken_tail(s: Seq<char>, u: Seq<char>, lines: bool)
    requires
        forall|i: int| 0 <= i < u.len() ==> !is_break(#[trigger] u[i], lines),
    ensures
        pieces(s, lines).len() >= 1,
        pieces(s + u, lines) == pieces(s, lines).drop_last().push(pieces(s, lines).last() + u),
    decreases u.len(),
{
    crate::text::pieces_never_empty(s, lines);
    let q = pieces(s, lines);
    if u.len() == 0 {
        assert(s + u =~= s);
        assert(q.last() + u =~= q.last());
        assert(q.drop_last().push(q.last()) =~= q);
    } else {
        let rest = u.drop_last();
        let c = u.last();
        assert forall|i: int| 0 <= i < rest.len() implies !is_break(#[trigger] rest[i], lines) by {
            assert(rest[i] == u[i]);
        }
        unbroken_tail(s, rest, lines);
        assert((s + u).drop_last() =~= s + rest);
        assert((s + u).last() == c);
        assert(!is_break(u[u.len() - 1], lines));
        let p = pieces(s + rest, lines);
        assert(p.drop_last() =~= q.drop_last());
        assert(p.last() == q.last() + rest);
        assert((q.last() + rest).push(c) =~= q.last() + u);
    }
}

proof fn stable_head(s: Seq<char>, u: Seq<char>, lines: bool)
    ensures
        pieces(s, lines).len() >= 1,
        pieces(s + u, lines).len() >= pieces(s, lines).len(),
        forall|k: int|
            0 <= k < pieces(s, lines).len() - 1 ==> #[trigger] pieces(s + u, lines)[k] == pieces(
                s,
                lines,
            )[k],
    decreases u.len(),
{
    crate::text::pieces_never_empty(s, lines);
    if u.len() == 0 {
        assert(s + u =~= s);
    } else {
        stable_head(s, u.drop_last(), lines);
        crate::text::pieces_never_empty(s + u.drop_last(), lines);
        assert((s + u).drop_last() =~= s + u.drop_last());
    }
}

proof fn first_token(p: Seq<Seq<char>>)
    requires
        p.len() >= 2,
        p[0].len() == 0,
        p[1].len() > 0,
    ensures
        non_empty(p).len() >= 1,
        non_empty(p)[0] == p[1],
    decreases p.len(),
{
    if p.len() == 2 {
        assert(p.drop_last().drop_last() =~= Seq::<Seq<char>>::empty());
        assert(non_empty(p.drop_last().drop_last()) =~= Seq::<Seq<char>>::empty());
        assert(non_empty(p.drop_last()) =~= Seq::<Seq<char>>::empty());
    } else {
        first_token(p.drop_last());
    }
}

proof fn plain_line_names_itself(dest: Seq<char>)
    requires
        dest.len() > 0,
        dest[0] != '#',
        forall|i: int| 0 <= i < dest.len() ==> !is_space(#[trigger] dest[i]),
    ensures
        stale_of(dest) == Some(dest),
{
    let e = Seq::<char>::empty();
    unbroken_tail(e, dest, false);
    assert(e + dest =~= dest);
    assert(pieces(e, false) =~= seq![e]);
    let p = pieces(dest, false);
    assert(p =~= seq![dest]);
    assert(p.last() == dest);
    assert(p.drop_last() =~= Seq::<Seq<char>>::empty());
    assert(non_empty(p.drop_last()) =~= Seq::<Seq<char>>::empty());
    assert(non_empty(p) =~= seq![dest]);
}

proof fn comment_line_names_nothing(rest: Seq<char>)
    ensures
        stale_of(seq!['\t', '#', ' '] + rest) == None::<Seq<char>>,
{
    let e = Seq::<char>::empty();
    let s0 = e;
    let s1 = seq!['\t'];
    let s2 = seq!['\t', '#'];
    let s3 = seq!['\t', '#', ' '];
    assert(pieces(s0, false) =~= seq![e]);
    assert(s1.drop_last() =~= s0);
    assert(pieces(s1, false) =~= seq![e, e]);
    assert(s2.drop_last() =~= s1);
    assert(pieces(s2, false) =~= seq![e, seq!['#']]);
    assert(s3.drop_last() =~= s2);
    assert(pieces(s3, false) =~= seq![e, seq!['#'], e]);
    stable_head(s3, rest, false);
    let p = pieces(s3 + rest, false);
    assert(p[0] == pieces(s3, false)[0]);
    assert(p[1] == pieces(s3, false)[1]);
    first_token(p);
    let tokens = tokens_of(s3 + rest);
    assert(tokens[0] == seq!['#']);
    assert(is_comment(tokens));
}

/// One entry behind a text that ends a line adds its destination, and only
/// that, to what the text names.
proof fn entry_names_its_destination(u: Seq<char>, dest: Seq<char>, rest: Seq<char>)
    requires
        closed(u),
        plain_path(dest),
        one_line(rest),
    ensures
        closed(u + dest + seq!['\n'] + (seq!['\t', '#', ' '] + rest) + seq!['\n']),
        stale_paths(
            pieces(
                u + dest + seq!['\n'] + (seq!['\t', '#', ' '] + rest) + seq!['\n'],
                true,
            ).drop_last(),
        ) == stale_paths(pieces(u, true).drop_last()).push(dest),
{
    let e = Seq::<char>::empty();
    let x = pieces(u, true).drop_last();
    let cm = seq!['\t', '#', ' '] + rest;
    unbroken_tail(u, dest, true);
    assert(pieces(u, true).last() =~= e);
    assert(e + dest =~= dest);
    let a = u + dest;
    assert(pieces(a, true) == x.push(dest));
    let b = a + seq!['\n'];
    assert(b.drop_last() =~= a);
    assert(b.last() == '\n');
    assert(pieces(b, true) == x.push(dest).push(e));
    assert forall|i: int| 0 <= i < cm.len() implies !is_break(#[trigger] cm[i], true) by {
        if i >= 3 {
            assert(cm[i] == rest[i - 3]);
        }
    }
    unbroken_tail(b, cm, true);
    let c = b + cm;
    assert(pieces(b, true).drop_last() =~= x.push(dest));
    assert(e + cm =~= cm);
    assert(pieces(c, true) == x.push(dest).push(cm));
    let v = c + seq!['\n'];
    assert(v.drop_last() =~= c);
    assert(v.last() == '\n');
    assert(pieces(v, true) == x.push(dest).push(cm).push(e));
    assert(pieces(v, true).drop_last() =~= x.push(dest).push(cm));
    plain_line_names_itself(dest);
    comment_line_names_nothing(rest);
    assert(x.push(dest).push(cm).drop_last() =~= x.push(dest));
    assert(x.push(dest).drop_last() =~= x);
    assert(stale_paths(x.push(dest)) == stale_paths(x).push(dest));
    assert(stale_paths(x.push(dest).push(cm)) == stale_paths(x.push(dest)));
}

/// What a dry run notes of a source is one line, closed by a line break.
proof fn dry_note_is_a_line(opts: Opts, report: ReportSpec)
    ensures
        copy_note(opts, true, report).len() > 0,
        copy_note(opts, true, report).last() == '\n',
        one_line(copy_note(opts, true, report).drop_last()),
{
    reveal_strlit("Did not copy: File exists && !overwrite\n");
    reveal_strlit("Copied! ");
    reveal_strlit("File was overwritten.");
    reveal_strlit("\t");
    reveal_strlit("\n");
    octal_spells(opts.perms as nat);
    let note = copy_note(opts, true, report);
    if !(report.dest_exists && !opts.overwrite) {
        let digits = octal(opts.perms as nat);
        assert forall|i: int| 0 <= i < digits.len() implies #[trigger] digits[i] != '\n' by {
            assert(is_octal_digit(digits[i]));
        }
        let shown = if report.dest_exists {
            "File was overwritten."@
        } else {
            Seq::<char>::empty()
        };
        let body = "Copied! "@ + shown + "\t"@ + digits;
        assert(note =~= body + seq!['\n']);
        assert(note.drop_last() =~= body);
    }
}

/// The record that a dry run of a file action writes names exactly the
/// destinations that the action claims, in order, where each of them is a
/// plain path.
pub proof fn dry_run_record_names_the_claims(file: FileSpec, reports: Seq<ReportSpec>)
    requires
        forall|i: int|
            0 <= i < dests_of(file, reports).len() ==> plain_path(
                #[trigger] dests_of(file, reports)[i],
            ),
    ensures
        closed(copy_log(file, true, reports)),
        stale_paths(lines_of(copy_log(file, true, reports))) == dests_of(file, reports),
    decreases reports.len(),
{
    let e = Seq::<char>::empty();
    let whole = copy_log(file, true, reports);
    if reports.len() == 0 {
        assert(pieces(e, true) =~= seq![e]);
        assert(pieces(e, true).drop_last() =~= Seq::<Seq<char>>::empty());
        assert(stale_of(e) == None::<Seq<char>>) by {
            assert(pieces(e, false) =~= seq![e]);
            assert(seq![e].drop_last() =~= Seq::<Seq<char>>::empty());
            assert(non_empty(seq![e].drop_last()) =~= Seq::<Seq<char>>::empty());
            assert(tokens_of(e) =~= Seq::<Seq<char>>::empty());
        }
        assert(stale_paths(pieces(e, true).drop_last()) =~= Seq::<Seq<char>>::empty());
        assert(stale_paths(seq![e]) =~= Seq::<Seq<char>>::empty());
    } else {
        let before = reports.drop_last();
        let last = reports.last();
        let claimed = dests_of(file, before);
        assert forall|i: int| 0 <= i < claimed.len() implies plain_path(#[trigger] claimed[i]) by {
            assert(dests_of(file, reports)[i] == claimed[i]);
        }
        dry_run_record_names_the_claims(file, before);
        let u = copy_log(file, true, before);
        closed_text_names(u);
        match dest_for(file, last.target) {
            None => {
                assert(whole =~= u);
            },
            Some(dest) => {
                assert(dests_of(file, reports)[claimed.len() as int] == dest);
                let note = copy_note(file.opts, true, last);
                dry_note_is_a_line(file.opts, last);
                let rest = note.drop_last();
                assert(note =~= rest + seq!['\n']);
                reveal_strlit("\n\t# ");
                assert("\n\t# "@ =~= seq!['\n', '\t', '#', ' ']);
                entry_names_its_destination(u, dest, rest);
                assert(whole =~= u + dest + seq!['\n'] + (seq!['\t', '#', ' '] + rest) + seq![
                    '\n',
                ]);
                closed_text_names(whole);
            },
        }
    }
}

/// The empty line at the end of a text that ends a line names nothing.
proof fn closed_text_names(u: Seq<char>)
    requires
        closed(u),
    ensures
        stale_paths(lines_of(u)) == stale_paths(pieces(u, true).drop_last()),
{
    crate::text::pieces_never_empty(u, true);
    let e = Seq::<char>::empty();
    assert(pieces(u, true).last() =~= e);
    assert(pieces(e, false) =~= seq![e]);
    assert(seq![e].drop_last() =~= Seq::<Seq<char>>::empty());
    assert(non_empty(seq![e].drop_last()) =~= Seq::<Seq<char>>::empty());
    assert(tokens_of(e) =~= Seq::<Seq<char>>::empty());
    assert(stale_of(e) == None::<Seq<char>>);
}

/// The record line that a dry run of a directory action writes names
/// exactly the directory, where that is a plain path.
pub proof fn dry_run_line_names_the_directory(
    dir: Seq<char>,
    kind: PathKind,
    create_error: Option<Seq<char>>,
)
    requires
        plain_path(dir),
    ensures
        dir_result(dir, true, kind, create_error) is Ok,
        closed(dir_result(dir, true, kind, create_error)->Ok_0),
        stale_paths(lines_of(dir_result(dir, true, kind, create_error)->Ok_0)) == seq![dir],
{
    reveal_strlit("Did not create: Directory exists.");
    reveal_strlit("Did not create: File exists with that name.");
    reveal_strlit("\n\t# ");
    reveal_strlit("\n");
    let e = Seq::<char>::empty();
    let note = match kind {
        PathKind::Dir => "Did not create: Directory exists."@,
        PathKind::File => "Did not create: File exists with that name."@,
        _ => e,
    };
    let line = dir_result(dir, true, kind, create_error)->Ok_0;
    assert(line == dir_line(dir, note));
    assert(one_line(note));
    assert("\n\t# "@ =~= seq!['\n', '\t', '#', ' ']);
    assert("\n"@ =~= seq!['\n']);
    assert(line =~= e + dir + seq!['\n'] + (seq!['\t', '#', ' '] + note) + seq!['\n']);
    assert(pieces(e, true) =~= seq![e]);
    entry_names_its_destination(e, dir, note);
    closed_text_names(line);
    assert(pieces(e, true).drop_last() =~= Seq::<Seq<char>>::empty());
    assert(stale_paths(pieces(e, true).drop_last()) =~= Seq::<Seq<char>>::empty());
    assert(stale_paths(lines_of(line)) =~= seq![dir]);
}

proof fn closed_sum(s: Seq<char>, u: Seq<char>)
    requires
        closed(s),
    ensures
        pieces(u, true).len() >= 1,
        pieces(s + u, true) == pieces(s, true).drop_last() + pieces(u, true),
    decreases u.len(),
{
    crate::text::pieces_never_empty(s, true);
    crate::text::pieces_never_empty(u, true);
    let e = Seq::<char>::empty();
    let x = pieces(s, true).drop_last();
    if u.len() == 0 {
        assert(s + u =~= s);
        assert(pieces(s, true).last() =~= e);
        assert(pieces(u, true) =~= seq![e]);
        assert(x + seq![e] =~= pieces(s, true));
    } else {
        closed_sum(s, u.drop_last());
        assert((s + u).drop_last() =~= s + u.drop_last());
        assert((s + u).last() == u.last());
        let pu = pieces(u.drop_last(), true);
        if u.last() == '\n' {
            assert((x + pu).push(e) =~= x + pu.push(e));
        } else {
            assert((x + pu).drop_last() =~= x + pu.drop_last());
            assert((x + pu).last() == pu.last());
            assert((x + pu.drop_last()).push(pu.last().push(u.last())) =~= x + pu.drop_last().push(
                pu.last().push(u.last()),
            ));
        }
    }
}

proof fn stale_paths_sum(a: Seq<Seq<char>>, b: Seq<Seq<char>>)
    ensures
        stale_paths(a + b) == stale_paths(a) + stale_paths(b),
    decreases b.len(),
{
    if b.len() == 0 {
        assert(a + b =~= a);
        assert(stale_paths(a) + stale_paths(b) =~= stale_paths(a));
    } else {
        stale_paths_sum(a, b.drop_last());
        assert((a + b).drop_last() =~= a + b.drop_last());
        assert((a + b).last() == b.last());
        assert(stale_paths(a + b) =~= stale_paths(a) + stale_paths(b));
    }
}

/// Two records, one behind the other, name what the first names and then
/// what the second names.
pub proof fn records_add_up(s: Seq<char>, u: Seq<char>)
    requires
        closed(s),
        closed(u),
    ensures
        closed(s + u),
        stale_paths(lines_of(s + u)) == stale_paths(lines_of(s)) + stale_paths(lines_of(u)),
{
    closed_sum(s, u);
    closed_text_names(s);
    stale_paths_sum(pieces(s, true).drop_last(), pieces(u, true));
}

/// The record that a dry run writes names exactly the destinations that
/// its actions claim, in the order of the actions, where each of them is a
/// plain path.
pub proof fn dry_run_names_all_claims(
    actions: Seq<InstallAction>,
    seen: Seq<Observation>,
    results: Seq<Result<String, String>>,
)
    requires
        results.len() <= actions.len(),
        results.len() <= seen.len(),
        forall|i: int|
            0 <= i < results.len() ==> log_view(#[trigger] results[i]) == result_at(
                actions,
                true,
                seen,
                i,
            ),
        forall|k: int|
            0 <= k < claims_upto(actions, seen, results.len() as int).len() ==> plain_path(
                #[trigger] claims_upto(actions, seen, results.len() as int)[k],
            ),
    ensures
        closed(record_of(results)),
        stale_paths(lines_of(record_of(results))) == claims_upto(
            actions,
            seen,
            results.len() as int,
        ),
    decreases results.len(),
{
    let e = Seq::<char>::empty();
    let n = results.len() as int;
    if n == 0 {
        assert(pieces(e, true) =~= seq![e]);
        closed_text_names(e);
        assert(pieces(e, true).drop_last() =~= Seq::<Seq<char>>::empty());
        assert(stale_paths(lines_of(e)) =~= Seq::<Seq<char>>::empty());
    } else {
        let before = results.drop_last();
        let earlier = claims_upto(actions, seen, n - 1);
        let reports = report_views(seen[n - 1].copies@);
        let claims = claims_of(actions[n - 1]@, reports);
        let all = claims_upto(actions, seen, n);
        assert(all == earlier + claims);
        assert forall|i: int| 0 <= i < before.len() implies log_view(#[trigger] before[i])
            == result_at(actions, true, seen, i) by {
            assert(before[i] == results[i]);
        }
        assert forall|k: int| 0 <= k < earlier.len() implies plain_path(#[trigger] earlier[k]) by {
            assert(all[k] == earlier[k]);
        }
        dry_run_names_all_claims(actions, seen, before);
        assert forall|k: int| 0 <= k < claims.len() implies plain_path(#[trigger] claims[k]) by {
            assert(all[earlier.len() + k] == claims[k]);
        }
        let last = result_at(actions, true, seen, n - 1);
        assert(log_view(results[n - 1]) == last);
        match actions[n - 1]@ {
            ActionSpec::File(file) => {
                dry_run_record_names_the_claims(file, reports);
            },
            ActionSpec::Dir(dir) => {
                assert(claims[0] == dir.dir);
                dry_run_line_names_the_directory(
                    dir.dir,
                    seen[n - 1].kind,
                    opt_text(seen[n - 1].create_error),
                );
            },
        }
        assert(last is Ok);
        records_add_up(record_of(before), last->Ok_0);
    }
}

} // verus!
