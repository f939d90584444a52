use vstd::prelude::*;
use crate::text::{append_str, chars_of, digit_char, octal, string_of};

verus! {

/// The policy of one file mapping: what to copy, how to name it and with
/// which permission bits.
#[derive(Debug, Clone, Copy, PartialEq, Eq, Structural)]
pub struct Opts {
    pub strip_ext: bool,
    pub copy_underscore_files: bool,
    pub copy_dot_files: bool,
    pub perms: u32,
    pub overwrite: bool,
    pub create_path: bool,
}

/// The policy of a mapping that names no options.
pub open spec fn default_opts() -> Opts {
    Opts {
        strip_ext: false,
        copy_underscore_files: false,
        copy_dot_files: false,
        perms: 0,
        overwrite: false,
        create_path: false,
    }
}

/// The digits of a permission value.
pub open spec fn is_octal_digit(c: char) -> bool {
    '0' <= c <= '7'
}

/// The characters that switch a flag.
pub open spec fn is_flag(c: char) -> bool {
    c == 'e' || c == 'E' || c == 'o' || c == 'O' || c == 'p' || c == 'P' || c == '_' || c == '.'
}

/// The characters that an option token may hold.
pub open spec fn is_opt_char(c: char) -> bool {
    is_octal_digit(c) || is_flag(c)
}

/// The number that an octal digit stands for.
pub open spec fn octal_digit_value(c: char) -> nat {
    (c as nat - '0' as nat) as nat
}

/// The policy `o` after one more option character. A digit shifts the
/// permission bits by one octal place and adds itself, within 32 bits.
pub open spec fn with_opt(o: Opts, c: char) -> Opts {
    if is_octal_digit(c) {
        Opts { perms: ((o.perms as nat * 8 + octal_digit_value(c)) % 0x1_0000_0000) as u32, ..o }
    } else if c == 'e' {
        Opts { strip_ext: true, ..o }
    } else if c == 'E' {
        Opts { strip_ext: false, ..o }
    } else if c == 'o' {
        Opts { overwrite: true, ..o }
    } else if c == 'O' {
        Opts { overwrite: false, ..o }
    } else if c == 'p' {
        Opts { create_path: true, ..o }
    } else if c == 'P' {
        Opts { create_path: false, ..o }
    } else if c == '_' {
        Opts { copy_underscore_files: true, ..o }
    } else if c == '.' {
        Opts { copy_dot_files: true, ..o }
    } else {
        o
    }
}

/// The policy that the characters of `s` give, read from left to right.
pub open spec fn opts_of(s: Seq<char>) -> Opts
    decreases s.len(),
{
    if s.len() == 0 {
        default_opts()
    } else {
        with_opt(opts_of(s.drop_last()), s.last())
    }
}

/// The number that the octal digits in `s` spell, read from left to right,
/// other characters passed over.
pub open spec fn perms_value(s: Seq<char>) -> nat
    decreases s.len(),
{
    if s.len() == 0 {
        0
    } else if is_octal_digit(s.last()) {
        perms_value(s.drop_last()) * 8 + octal_digit_value(s.last())
    } else {
        perms_value(s.drop_last())
    }
}

/// `i` is the place of the first character of `s` that is no option.
pub open spec fn first_unknown_opt(s: Seq<char>, i: int) -> bool {
    &&& 0 <= i < s.len()
    &&& !is_opt_char(s[i])
    &&& forall|j: int| 0 <= j < i ==> is_opt_char(#[trigger] s[j])
}

/// The message for a character that is no option.
pub open spec fn unknown_opt_message(c: char) -> Seq<char> {
    "Unknown opt: '"@.push(c) + "'"@
}

/// What an option token gives: the policy that its characters spell, or the
/// message that names its first character that is no option.
pub open spec fn opts_result(token: Seq<char>) -> Result<Opts, Seq<char>> {
    if forall|i: int| 0 <= i < token.len() ==> is_opt_char(#[trigger] token[i]) {
        Ok(opts_of(token))
    } else {
        Err(unknown_opt_message(token[choose|i: int| first_unknown_opt(token, i)]))
    }
}

/// The result of reading an option token, its message as text.
pub open spec fn opts_view(r: Result<Opts, String>) -> Result<Opts, Seq<char>> {
    match r {
        Ok(o) => Ok(o),
        Err(msg) => Err(msg@),
    }
}

/// The policy that an option token gives. No token gives the defaults; a
/// token with a character that is no option is refused, with a message that
/// names the first such character.
pub fn parse_opts(opts: Option<&str>) -> (res: Result<Opts, String>)
    ensures
        opts is None ==> res == Ok::<Opts, String>(default_opts()),
        opts is Some ==> opts_view(res) == opts_result(opts->0@),
        opts is Some ==> match res {
            Ok(o) => {
                &&& forall|i: int| 0 <= i < opts->0@.len() ==> is_opt_char(#[trigger] opts->0@[i])
                &&& o == opts_of(opts->0@)
            },
            Err(msg) => exists|i: int|
                first_unknown_opt(opts->0@, i) && msg@ == unknown_opt_message(opts->0@[i]),
        },
{
    let mut output = Opts {
        strip_ext: false,
        copy_underscore_files: false,
        copy_dot_files: false,
        perms: 0,
        overwrite: false,
        create_path: false,
    };
    let token = match opts {
        None => { return Ok(output); },
        Some(token) => chars_of(token),
    };
    let mut i: usize = 0;
    proof {
        assert(token@.take(0) =~= Seq::<char>::empty());
    }
    while i < token.len()
        invariant
            i <= token.len(),
            opts is Some,
            token@ == opts->0@,
            forall|j: int| 0 <= j < i ==> is_opt_char(#[trigger] token@[j]),
            output == opts_of(token@.take(i as int)),
        decreases token.len() - i,
    {
        let c = token[i];
        proof {
            assert(token@.take(i + 1).drop_last() =~= token@.take(i as int));
            assert(token@.take(i + 1).last() == c);
        }
        if '0' <= c && c <= '7' {
            let d: u64 = (c as u64) - ('0' as u64);
            let shifted: u64 = (output.perms as u64) * 8 + d;
            output.perms = (shifted % 0x1_0000_0000) as u32;
        } else if c == 'e' {
            output.strip_ext = true;
        } else if c == 'E' {
            output.strip_ext = false;
        } else if c == 'o' {
            output.overwrite = true;
        } else if c == 'O' {
            output.overwrite = false;
        } else if c == 'p' {
            output.create_path = true;
        } else if c == 'P' {
            output.create_path = false;
        } else if c == '_' {
            output.copy_underscore_files = true;
        } else if c == '.' {
            output.copy_dot_files = true;
        } else {
            let mut msg: Vec<char> = Vec::new();
            append_str(&mut msg, "Unknown opt: '");
            msg.push(c);
            append_str(&mut msg, "'");
            proof {
                assert(first_unknown_opt(token@, i as int));
                assert(msg@ =~= unknown_opt_message(c));
                let k = choose|k: int| first_unknown_opt(token@, k);
                assert(k == i);
            }
            return Err(string_of(&msg));
        }
        i += 1;
    }
    proof {
        assert(token@.take(token.len() as int) =~= token@);
    }
    Ok(output)
}

/// Within 32 bits the permission bits are the number that the digits spell.
pub proof fn perms_follow_digits(s: Seq<char>)
    ensures
        opts_of(s).perms as nat == perms_value(s) % 0x1_0000_0000,
    decreases s.len(),
{
    if s.len() > 0 {
        perms_follow_digits(s.drop_last());
        let before = perms_value(s.drop_last());
        let c = s.last();
        if is_octal_digit(c) {
            let d = octal_digit_value(c);
            assert(((before % 0x1_0000_0000) * 8 + d) % 0x1_0000_0000 == (before * 8 + d)
                % 0x1_0000_0000) by (nonlinear_arith);
        }
    }
}

/// The octal writing of a number holds octal digits only and spells that
/// number.
pub proof fn octal_spells(n: nat)
    ensures
        forall|i: int| 0 <= i < octal(n).len() ==> is_octal_digit(#[trigger] octal(n)[i]),
        perms_value(octal(n)) == n,
    decreases n,
{
    if n < 8 {
        assert(octal(n) =~= seq![digit_char(n)]);
        assert(octal(n).drop_last() =~= Seq::<char>::empty());
        assert(perms_value(octal(n).drop_last()) == 0);
    } else {
        octal_spells(n / 8);
        assert(octal(n).drop_last() =~= octal(n / 8));
        assert(octal(n).last() == digit_char(n % 8));
    }
}

/// Permission bits written in octal and read back as an option token give
/// the same bits, and set no flag.
pub proof fn perms_round_trip(p: u32)
    ensures
        forall|i: int| 0 <= i < octal(p as nat).len() ==> is_opt_char(#[trigger] octal(p as nat)[i]),
        opts_of(octal(p as nat)).perms == p,
{
    octal_spells(p as nat);
    perms_follow_digits(octal(p as nat));
}

} // verus!
