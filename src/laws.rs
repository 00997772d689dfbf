//! Properties that relate the parser, the builder, dispatch and help.
use vstd::prelude::*;

use crate::commander::{
    analyse,
    declare,
    dispatch,
    find_option,
    help_of,
    lemma_find_option_push,
    option_line,
    ArgModel,
    CommanderModel,
};
use crate::error::CommandError;
use crate::prefix::{has_comma, pair_form, parse_prefix, token_matches, PrefixModel};
use crate::text::{is_long_token, is_short_token};
use crate::value::{coerce, parse_i64, ArgType, ValueModel};

verus! {

/// The long token of a prefix, if it has one.
pub open spec fn long_token(p: PrefixModel) -> Option<Seq<char>> {
    match p {
        PrefixModel::Short(_) => None,
        PrefixModel::Long(l) => Some(l),
        PrefixModel::Both(_, l) => Some(l),
    }
}

/// A declaration with exactly one comma parses as the pair of its two parts.
pub proof fn lemma_one_comma(a: Seq<char>, b: Seq<char>)
    requires
        !has_comma(a),
        !has_comma(b),
    ensures
        parse_prefix(a + seq![','] + b) == pair_form(a, b),
{
    let s = a + seq![','] + b;
    assert(s[a.len() as int] == ',');
    let c = choose|c: int| 0 <= c < s.len() && s[c] == ',';
    if c < a.len() {
        assert(a[c] == ',');
    } else if c > a.len() {
        assert(b[c - a.len() - 1] == ',');
    }
    assert(s.subrange(0, c) =~= a);
    assert(s.subrange(c + 1, s.len() as int) =~= b);
}

/// The valid declarations `-x`, `--xx`, `-x,--xx` and `--xx,-x` parse, and
/// a pair comes out as (short, long) whichever order it was written in.
pub proof fn lemma_valid_declarations_parse(short: Seq<char>, long: Seq<char>)
    requires
        is_short_token(short),
        is_long_token(long),
        !has_comma(short),
        !has_comma(long),
    ensures
        parse_prefix(short) == Some(PrefixModel::Short(short)),
        parse_prefix(long) == Some(PrefixModel::Long(long)),
        parse_prefix(short + seq![','] + long) == Some(PrefixModel::Both(short, long)),
        parse_prefix(long + seq![','] + short) == Some(PrefixModel::Both(short, long)),
{
    lemma_one_comma(short, long);
    lemma_one_comma(long, short);
}

/// An empty declaration is refused.
pub proof fn lemma_empty_declaration_refused()
    ensures
        parse_prefix(Seq::<char>::empty()) is None,
{
}

/// A declaration with three or more comma-separated parts is refused.
pub proof fn lemma_too_many_parts_refused(s: Seq<char>, i: int, j: int)
    requires
        0 <= i < j < s.len(),
        s[i] == ',',
        s[j] == ',',
    ensures
        parse_prefix(s) is None,
{
    let c = choose|c: int| 0 <= c < s.len() && s[c] == ',';
    if c == i {
        assert(s.subrange(c + 1, s.len() as int)[j - c - 1] == ',');
    } else if c < i {
        assert(s.subrange(c + 1, s.len() as int)[i - c - 1] == ',');
    } else {
        assert(s.subrange(0, c)[i] == ',');
    }
}

/// A pair of two long tokens, or of two short tokens, is refused.
pub proof fn lemma_same_kind_pair_refused(a: Seq<char>, b: Seq<char>)
    requires
        !has_comma(a),
        !has_comma(b),
        (is_long_token(a) && is_long_token(b)) || (is_short_token(a) && is_short_token(b)),
    ensures
        parse_prefix(a + seq![','] + b) is None,
{
    lemma_one_comma(a, b);
}

/// An option declared on a registry where no option yet names `flag`, with
/// a prefix that names `flag`, receives every dispatch of `flag`: the value
/// token is coerced per the type it was declared with.
pub proof fn lemma_declared_option_dispatch(
    c: CommanderModel,
    raw: Seq<char>,
    arg_type: ArgType,
    instruction: Seq<char>,
    default: Option<ValueModel>,
    args: Seq<Seq<char>>,
)
    requires
        parse_prefix(raw) is Some,
        token_matches(parse_prefix(raw)->0, args[1]),
        find_option(c.options, args[1]) is None,
        args.len() >= 3,
    ensures
        dispatch(declare(c, raw, arg_type, instruction, default), args) == coerce(arg_type, args[2]),
{
    let a = ArgModel { prefix: parse_prefix(raw)->0, arg_type, instruction, default };
    lemma_find_option_push(c.options, a, args[1]);
}

/// A boolean option declared with default `true` and dispatched under its
/// long token yields `true` for the token `true`, and `InvalidArg` for a
/// token that is neither `true` nor `false`; the default is recorded under
/// the declared text.
pub proof fn lemma_boolean_round_trip(c: CommanderModel, raw: Seq<char>, instruction: Seq<char>, args: Seq<Seq<char>>)
    requires
        parse_prefix(raw) is Some,
        long_token(parse_prefix(raw)->0) == Some(args[1]),
        find_option(c.options, args[1]) is None,
        args.len() >= 3,
    ensures
        ({
            let d = declare(c, raw, ArgType::Boole, instruction, Some(ValueModel::Boole(true)));
            &&& d.defaults[raw] == ValueModel::Boole(true)
            &&& args[2] == "true"@ ==> dispatch(d, args) == Ok::<ValueModel, CommandError>(
                ValueModel::Boole(true),
            )
            &&& args[2] != "true"@ && args[2] != "false"@ ==> dispatch(d, args) == Err::<
                ValueModel,
                CommandError,
            >(CommandError::InvalidArg)
        }),
{
    lemma_declared_option_dispatch(c, raw, ArgType::Boole, instruction, Some(ValueModel::Boole(true)), args);
}

/// An integer option yields the signed 64-bit value of its value token, and
/// `ParseError` for a token that is no such decimal.
pub proof fn lemma_integer_dispatch(
    c: CommanderModel,
    raw: Seq<char>,
    instruction: Seq<char>,
    default: Option<ValueModel>,
    args: Seq<Seq<char>>,
)
    requires
        parse_prefix(raw) is Some,
        token_matches(parse_prefix(raw)->0, args[1]),
        find_option(c.options, args[1]) is None,
        args.len() >= 3,
    ensures
        dispatch(declare(c, raw, ArgType::Int, instruction, default), args) == match parse_i64(args[2]) {
            Some(n) => Ok::<ValueModel, CommandError>(ValueModel::Int(n)),
            None => Err(CommandError::ParseError),
        },
{
    lemma_declared_option_dispatch(c, raw, ArgType::Int, instruction, default, args);
}

/// A text option accepts any value token verbatim, the empty one included.
pub proof fn lemma_text_dispatch(
    c: CommanderModel,
    raw: Seq<char>,
    instruction: Seq<char>,
    default: Option<ValueModel>,
    args: Seq<Seq<char>>,
)
    requires
        parse_prefix(raw) is Some,
        token_matches(parse_prefix(raw)->0, args[1]),
        find_option(c.options, args[1]) is None,
        args.len() >= 3,
    ensures
        dispatch(declare(c, raw, ArgType::Str, instruction, default), args) == Ok::<
            ValueModel,
            CommandError,
        >(ValueModel::Str(args[2])),
{
    lemma_declared_option_dispatch(c, raw, ArgType::Str, instruction, default, args);
}

/// When two declared options both name the flag, the one declared first
/// receives the dispatch.
pub proof fn lemma_first_declared_wins(
    c: CommanderModel,
    raw1: Seq<char>,
    type1: ArgType,
    instruction1: Seq<char>,
    default1: Option<ValueModel>,
    raw2: Seq<char>,
    type2: ArgType,
    instruction2: Seq<char>,
    default2: Option<ValueModel>,
    args: Seq<Seq<char>>,
)
    requires
        parse_prefix(raw1) is Some,
        token_matches(parse_prefix(raw1)->0, args[1]),
        find_option(c.options, args[1]) is None,
        args.len() >= 3,
    ensures
        dispatch(
            declare(declare(c, raw1, type1, instruction1, default1), raw2, type2, instruction2, default2),
            args,
        ) == coerce(type1, args[2]),
{
    let c1 = declare(c, raw1, type1, instruction1, default1);
    let a1 = ArgModel { prefix: parse_prefix(raw1)->0, arg_type: type1, instruction: instruction1, default: default1 };
    lemma_find_option_push(c.options, a1, args[1]);
    if let Some(p2) = parse_prefix(raw2) {
        let a2 = ArgModel { prefix: p2, arg_type: type2, instruction: instruction2, default: default2 };
        lemma_find_option_push(c1.options, a2, args[1]);
    }
}

/// Declaring an option appends its line to the help text, after a newline,
/// so options are listed in declaration order; a refused declaration leaves
/// the help text as it was.
pub proof fn lemma_help_lists_in_order(
    c: CommanderModel,
    raw: Seq<char>,
    arg_type: ArgType,
    instruction: Seq<char>,
    default: Option<ValueModel>,
)
    ensures
        help_of(declare(c, raw, arg_type, instruction, default)) == match parse_prefix(raw) {
            Some(p) => help_of(c) + "\n"@ + option_line(
                ArgModel { prefix: p, arg_type, instruction, default },
            ),
            None => help_of(c),
        },
{
    if let Some(p) = parse_prefix(raw) {
        let a = ArgModel { prefix: p, arg_type, instruction, default };
        let d = declare(c, raw, arg_type, instruction, default);
        assert(d.options.drop_last() =~= c.options);
        assert(help_of(d) =~= help_of(c) + "\n"@ + option_line(a));
    }
}

/// With fewer than three tokens, both dispatch and analysis fail with
/// `InvalidArg`, before help or version is considered.
pub proof fn lemma_short_input_refused(c: CommanderModel, args: Seq<Seq<char>>)
    requires
        args.len() < 3,
    ensures
        dispatch(c, args) == Err::<ValueModel, CommandError>(CommandError::InvalidArg),
        analyse(c, args) is Err && analyse(c, args)->Err_0 == CommandError::InvalidArg,
{
}

} // verus!
