use vstd::prelude::*;
use crate::text::{chars_of, string_of, text_is, texts};

verus! {

/// Whether an argument stands for itself: it starts with two dashes or with
/// none.
pub open spec fn stands_alone(arg: Seq<char>) -> bool {
    (arg.len() >= 2 && arg[0] == '-' && arg[1] == '-') || !(arg.len() >= 1 && arg[0] == '-')
}

/// The arguments that one argument stands for: itself, or, for a bundle of
/// short flags, one flag for each character behind the dash.
pub open spec fn expanded_arg(arg: Seq<char>) -> Seq<Seq<char>> {
    if stands_alone(arg) {
        seq![arg]
    } else {
        Seq::new((arg.len() - 1) as nat, |i: int| seq!['-', arg[i + 1]])
    }
}

/// The arguments with every bundle of short flags taken apart, in order.
pub open spec fn cleaned(args: Seq<Seq<char>>) -> Seq<Seq<char>>
    decreases args.len(),
{
    if args.len() == 0 {
        Seq::<Seq<char>>::empty()
    } else {
        cleaned(args.drop_last()) + expanded_arg(args.last())
    }
}

/// Takes bundles of short flags apart: `-abc` becomes `-a`, `-b`, `-c`.
/// Long flags and plain arguments stay as they are.
pub fn clean_args(args: Vec<String>) -> (res: Vec<String>)
    ensures
        texts(res@) == cleaned(texts(args@)),
{
    let mut out: Vec<String> = Vec::new();
    let mut i: usize = 0;
    let ghost all = texts(args@);
    proof {
        assert(all.take(0) =~= Seq::<Seq<char>>::empty());
        assert(texts(out@) =~= Seq::<Seq<char>>::empty());
    }
    while i < args.len()
        invariant
            i <= args.len(),
            all == texts(args@),
            texts(out@) == cleaned(all.take(i as int)),
        decreases args.len() - i,
    {
        proof {
            assert(all.take(i + 1).drop_last() =~= all.take(i as int));
            assert(all.take(i + 1).last() == args@[i as int]@);
        }
        let arg = chars_of(args[i].as_str());
        let ghost before = texts(out@);
        let long = arg.len() >= 2 && arg[0] == '-' && arg[1] == '-';
        let dashed = arg.len() >= 1 && arg[0] == '-';
        if long || !dashed {
            let entry = args[i].clone();
            out.push(entry);
            proof {
                assert(texts(out@) =~= before + seq![arg@]);
            }
        } else {
            let mut j: usize = 1;
            while j < arg.len()
                invariant
                    1 <= j <= arg.len(),
                    !stands_alone(arg@),
                    texts(out@) == before + expanded_arg(arg@).take(j - 1),
                decreases arg.len() - j,
            {
                let ghost shown = texts(out@);
                let mut flag: Vec<char> = Vec::new();
                flag.push('-');
                flag.push(arg[j]);
                let entry = string_of(&flag);
                out.push(entry);
                proof {
                    assert(flag@ =~= seq!['-', arg@[j as int]]);
                    assert(texts(out@) =~= shown.push(entry@));
                    assert(texts(out@) =~= before + expanded_arg(arg@).take(j as int));
                }
                j += 1;
            }
            proof {
                assert(expanded_arg(arg@).take(arg@.len() - 1) =~= expanded_arg(arg@));
            }
        }
        i += 1;
    }
    proof {
        assert(all.take(args@.len() as int) =~= all);
    }
    out
}

/// What a reply to a yes-or-no question means: `n` and `no` refuse; `y`,
/// `yes`, an empty reply and a lone line break consent; anything else is no
/// answer.
pub open spec fn reply_meaning(input: Seq<char>) -> Option<bool> {
    if input == "n"@ || input == "no"@ {
        Some(false)
    } else if input == "y"@ || input == "yes"@ || input == "\n"@ || input == ""@ {
        Some(true)
    } else {
        None
    }
}

/// Reads a reply to a yes-or-no question.
pub fn read_reply(input: &str) -> (res: Option<bool>)
    ensures
        res == reply_meaning(input@),
{
    let reply = chars_of(input);
    if text_is(&reply, "n") || text_is(&reply, "no") {
        Some(false)
    } else if text_is(&reply, "y") || text_is(&reply, "yes") || text_is(&reply, "\n") || text_is(
        &reply,
        "",
    ) {
        Some(true)
    } else {
        None
    }
}

} // verus!
