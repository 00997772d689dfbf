//! The option registry: declaration through a chained builder, dispatch of
//! a raw argument list, and the help and version texts.
use vstd::prelude::*;

use crate::error::CommandError;
use crate::prefix::{parse_prefix, prefix_well_formed, token_matches, PrefixArg, PrefixModel};
use crate::text::same_text;
use crate::value::{coerce, coerce_value, ArgType, Value, ValueModel};

verus! {

/// The mathematical form of an optional value.
pub open spec fn opt_value_view(o: Option<Value>) -> Option<ValueModel> {
    match o {
        Some(v) => Some(v@),
        None => None,
    }
}

/// The mathematical form of one declared option.
pub struct ArgModel {
    pub prefix: PrefixModel,
    pub arg_type: ArgType,
    pub instruction: Seq<char>,
    pub default: Option<ValueModel>,
}

/// One declared option: its prefix, type, instruction and default.
#[derive(Debug)]
pub struct ArgInfo {
    prefix: PrefixArg,
    arg_type: ArgType,
    default: Option<Value>,
    instruction: String,
}

impl View for ArgInfo {
    type V = ArgModel;

    closed spec fn view(&self) -> ArgModel {
        ArgModel {
            prefix: self.prefix@,
            arg_type: self.arg_type,
            instruction: self.instruction@,
            default: opt_value_view(self.default),
        }
    }
}

impl ArgInfo {
    /// Bundles a parsed prefix, a type, an instruction and a default.
    pub fn new(prefix: PrefixArg, arg_type: ArgType, instruction: &str, default: Option<Value>) -> (r:
        ArgInfo)
        ensures
            r@ == (ArgModel {
                prefix: prefix@,
                arg_type,
                instruction: instruction@,
                default: opt_value_view(default),
            }),
    {
        ArgInfo { prefix, arg_type, default, instruction: instruction.to_owned() }
    }
}

/// The mathematical form of a registry.
pub struct CommanderModel {
    pub name: Seq<char>,
    pub version: Seq<char>,
    pub description: Seq<char>,
    /// The declared options, in declaration order.
    pub options: Seq<ArgModel>,
    /// Defaults, keyed by the prefix text exactly as it was declared.
    pub defaults: Map<Seq<char>, ValueModel>,
}

impl CommanderModel {
    /// Every declared option has a well-formed prefix.
    pub open spec fn well_formed(self) -> bool {
        forall|i: int| 0 <= i < self.options.len() ==> prefix_well_formed(#[trigger] self.options[i].prefix)
    }
}

/// Recorded defaults, where a later entry for a key replaces an earlier one.
pub open spec fn defaults_map(s: Seq<(Seq<char>, ValueModel)>) -> Map<Seq<char>, ValueModel>
    decreases s.len(),
{
    if s.len() == 0 {
        Map::empty()
    } else {
        defaults_map(s.drop_last()).insert(s.last().0, s.last().1)
    }
}

/// The registry after declaring an option from the raw prefix text `raw`:
/// a malformed prefix leaves it unchanged; otherwise the option is appended
/// and its default, if any, recorded under `raw`.
pub open spec fn declare(
    c: CommanderModel,
    raw: Seq<char>,
    arg_type: ArgType,
    instruction: Seq<char>,
    default: Option<ValueModel>,
) -> CommanderModel {
    match parse_prefix(raw) {
        None => c,
        Some(p) => CommanderModel {
            name: c.name,
            version: c.version,
            description: c.description,
            options: c.options.push(ArgModel { prefix: p, arg_type, instruction, default }),
            defaults: match default {
                Some(v) => c.defaults.insert(raw, v),
                None => c.defaults,
            },
        },
    }
}

/// The first option, in declaration order, that the flag token names.
pub open spec fn find_option(options: Seq<ArgModel>, flag: Seq<char>) -> Option<ArgModel>
    decreases options.len(),
{
    if options.len() == 0 {
        None
    } else if token_matches(options[0].prefix, flag) {
        Some(options[0])
    } else {
        find_option(options.drop_first(), flag)
    }
}

/// The texts of a raw argument list.
pub open spec fn arg_texts(args: Seq<String>) -> Seq<Seq<char>> {
    args.map_values(|s: String| s@)
}

/// Dispatch of a raw argument list: position 1 is the flag token and
/// position 2 the value token, coerced per the first option the flag names.
pub open spec fn dispatch(c: CommanderModel, args: Seq<Seq<char>>) -> Result<ValueModel, CommandError> {
    if args.len() < 3 {
        Err(CommandError::InvalidArg)
    } else {
        match find_option(c.options, args[1]) {
            None => Err(CommandError::UnknownOption),
            Some(a) => coerce(a.arg_type, args[2]),
        }
    }
}

/// The tokens of a prefix, short before long, with nothing between them.
pub open spec fn prefix_text(p: PrefixModel) -> Seq<char> {
    match p {
        PrefixModel::Short(s) => s,
        PrefixModel::Long(l) => l,
        PrefixModel::Both(s, l) => s + l,
    }
}

/// One help line: the prefix tokens, a tab, the instruction.
pub open spec fn option_line(a: ArgModel) -> Seq<char> {
    prefix_text(a.prefix) + "\t"@ + a.instruction
}

/// The help lines of the options in declaration order, each after a newline.
pub open spec fn option_lines(options: Seq<ArgModel>) -> Seq<char>
    decreases options.len(),
{
    if options.len() == 0 {
        Seq::empty()
    } else {
        option_lines(options.drop_last()) + "\n"@ + option_line(options.last())
    }
}

/// The help text: `Description:`, the description, then the option lines.
pub open spec fn help_of(c: CommanderModel) -> Seq<char> {
    "Description:"@ + c.description + option_lines(c.options)
}

/// The version text: `Version:` followed by the version.
pub open spec fn version_of(c: CommanderModel) -> Seq<char> {
    "Version:"@ + c.version
}

/// What an analysis of the raw arguments produced.
#[derive(Debug, PartialEq, Eq)]
pub enum Outcome {
    Help(String),
    Version(String),
    Matched(Value),
}

/// The mathematical form of an outcome.
pub enum OutcomeModel {
    Help(Seq<char>),
    Version(Seq<char>),
    Matched(ValueModel),
}

impl View for Outcome {
    type V = OutcomeModel;

    open spec fn view(&self) -> OutcomeModel {
        match self {
            Outcome::Help(s) => OutcomeModel::Help(s@),
            Outcome::Version(s) => OutcomeModel::Version(s@),
            Outcome::Matched(v) => OutcomeModel::Matched(v@),
        }
    }
}

/// Analysis of a raw argument list: at least three tokens are needed; a
/// flag of `-h`/`--help` or `-v`/`--version` asks for the help or version
/// text, any other is dispatched.
pub open spec fn analyse(c: CommanderModel, args: Seq<Seq<char>>) -> Result<OutcomeModel, CommandError> {
    if args.len() < 3 {
        Err(CommandError::InvalidArg)
    } else if args[1] == "-h"@ || args[1] == "--help"@ {
        Ok(OutcomeModel::Help(help_of(c)))
    } else if args[1] == "-v"@ || args[1] == "--version"@ {
        Ok(OutcomeModel::Version(version_of(c)))
    } else {
        match dispatch(c, args) {
            Ok(v) => Ok(OutcomeModel::Matched(v)),
            Err(e) => Err(e),
        }
    }
}

/// Declaring one more option never changes which option a flag already names;
/// otherwise the flag names the new option exactly when it matches its prefix.
pub proof fn lemma_find_option_push(options: Seq<ArgModel>, a: ArgModel, flag: Seq<char>)
    ensures
        find_option(options.push(a), flag) == match find_option(options, flag) {
            Some(x) => Some(x),
            None => if token_matches(a.prefix, flag) {
                Some(a)
            } else {
                None
            },
        },
    decreases options.len(),
{
    if options.len() == 0 {
        assert(options.push(a).drop_first() =~= options);
    } else {
        assert(options.push(a).drop_first() =~= options.drop_first().push(a));
        lemma_find_option_push(options.drop_first(), a, flag);
    }
}

proof fn lemma_find_first(options: Seq<ArgModel>, flag: Seq<char>, i: int)
    requires
        0 <= i <= options.len(),
        forall|j: int| 0 <= j < i ==> !token_matches(#[trigger] options[j].prefix, flag),
        i < options.len() ==> token_matches(options[i].prefix, flag),
    ensures
        find_option(options, flag) == if i < options.len() {
            Some(options[i])
        } else {
            None::<ArgModel>
        },
    decreases i,
{
    if i > 0 {
        let rest = options.drop_first();
        assert forall|j: int| 0 <= j < i - 1 implies !token_matches(#[trigger] rest[j].prefix, flag) by {
            assert(rest[j] == options[j + 1]);
        }
        lemma_find_first(rest, flag, i - 1);
    }
}

/// An option registry, configured by chained calls and then consulted with
/// a raw argument list.
#[derive(Debug)]
pub struct Commander {
    name: String,
    version: String,
    description: String,
    args_list: Vec<ArgInfo>,
    default_values: Vec<(String, Value)>,
}

/// The mathematical form of a recorded default.
pub open spec fn pair_view(p: (String, Value)) -> (Seq<char>, ValueModel) {
    (p.0@, p.1@)
}

/// The mathematical form of a declared option.
pub open spec fn arg_view(a: ArgInfo) -> ArgModel {
    a@
}

impl View for Commander {
    type V = CommanderModel;

    closed spec fn view(&self) -> CommanderModel {
        CommanderModel {
            name: self.name@,
            version: self.version@,
            description: self.description@,
            options: self.args_list@.map_values(|a: ArgInfo| arg_view(a)),
            defaults: defaults_map(self.default_values@.map_values(|p: (String, Value)| pair_view(p))),
        }
    }
}

impl Commander {
    /// An empty registry: empty texts, no options, no defaults.
    pub fn new() -> (r: Commander)
        ensures
            r@.name.len() == 0,
            r@.version.len() == 0,
            r@.description.len() == 0,
            r@.options.len() == 0,
            r@.defaults == Map::<Seq<char>, ValueModel>::empty(),
            r@.well_formed(),
    {
        let r = Commander {
            name: String::new(),
            version: String::new(),
            description: String::new(),
            args_list: Vec::new(),
            default_values: Vec::new(),
        };
        assert(r.default_values@.map_values(|p: (String, Value)| pair_view(p)).len() == 0);
        r
    }

    /// Sets the program name; the last call wins.
    pub fn name(self, name: &str) -> (r: Commander)
        ensures
            r@ == (CommanderModel { name: name@, ..self@ }),
    {
        let mut c = self;
        c.name = name.to_owned();
        c
    }

    /// Sets the version text; the last call wins.
    pub fn version(self, version: &str) -> (r: Commander)
        ensures
            r@ == (CommanderModel { version: version@, ..self@ }),
    {
        let mut c = self;
        c.version = version.to_owned();
        c
    }

    /// Sets the description shown by help; the last call wins.
    pub fn instruction(self, description: &str) -> (r: Commander)
        ensures
            r@ == (CommanderModel { description: description@, ..self@ }),
    {
        let mut c = self;
        c.description = description.to_owned();
        c
    }

    fn declare_option(self, prefix: &str, arg_type: ArgType, instruction: &str, default: Option<Value>) -> (r:
        Commander)
        ensures
            r@ == declare(self@, prefix@, arg_type, instruction@, opt_value_view(default)),
            self@.well_formed() ==> r@.well_formed(),
    {
        let mut c = self;
        match PrefixArg::from_str(prefix) {
            Ok(p) => {
                let ghost old_pairs = c.default_values@;
                let ghost old_args = c.args_list@;
                match &default {
                    Some(v) => {
                        c.default_values.push((prefix.to_owned(), v.clone()));
                        let ghost f = |q: (String, Value)| pair_view(q);
                        assert(c.default_values@.map_values(f).drop_last() =~= old_pairs.map_values(f));
                    },
                    None => {},
                }
                c.args_list.push(ArgInfo::new(p, arg_type, instruction, default));
                let ghost g = |a: ArgInfo| arg_view(a);
                assert(c.args_list@.map_values(g) =~= old_args.map_values(g).push(c.args_list@.last()@));
                proof {
                    crate::prefix::lemma_parsed_prefix_well_formed(prefix@);
                    assert(c@.options =~= self@.options.push(c.args_list@.last()@));
                }
                c
            },
            Err(_) => c,
        }
    }

    /// Declares a boolean option; a malformed prefix leaves the registry unchanged.
    pub fn option(self, prefix: &str, instruction: &str, default: Option<bool>) -> (r: Commander)
        ensures
            r@ == declare(
                self@,
                prefix@,
                ArgType::Boole,
                instruction@,
                match default {
                    Some(b) => Some(ValueModel::Boole(b)),
                    None => None,
                },
            ),
            self@.well_formed() ==> r@.well_formed(),
    {
        let d = match default {
            Some(b) => Some(Value::Boole(b)),
            None => None,
        };
        self.declare_option(prefix, ArgType::Boole, instruction, d)
    }

    /// Declares a text option; a malformed prefix leaves the registry unchanged.
    pub fn option_str(self, prefix: &str, instruction: &str, default: Option<&str>) -> (r: Commander)
        ensures
            r@ == declare(
                self@,
                prefix@,
                ArgType::Str,
                instruction@,
                match default {
                    Some(s) => Some(ValueModel::Str(s@)),
                    None => None,
                },
            ),
            self@.well_formed() ==> r@.well_formed(),
    {
        let d = match default {
            Some(s) => Some(Value::Str(s.to_owned())),
            None => None,
        };
        self.declare_option(prefix, ArgType::Str, instruction, d)
    }

    /// Declares an integer option; a malformed prefix leaves the registry unchanged.
    pub fn option_int(self, prefix: &str, instruction: &str, default: Option<i64>) -> (r: Commander)
        ensures
            r@ == declare(
                self@,
                prefix@,
                ArgType::Int,
                instruction@,
                match default {
                    Some(n) => Some(ValueModel::Int(n)),
                    None => None,
                },
            ),
            self@.well_formed() ==> r@.well_formed(),
    {
        let d = match default {
            Some(n) => Some(Value::Int(n)),
            None => None,
        };
        self.declare_option(prefix, ArgType::Int, instruction, d)
    }
    /// The default recorded under exactly this declared prefix text.
    pub fn default_value(&self, prefix: &str) -> (r: Option<&Value>)
        ensures
            match r {
                Some(v) => self@.defaults.contains_key(prefix@) && self@.defaults[prefix@] == v@,
                None => !self@.defaults.contains_key(prefix@),
            },
    {
        let ghost pairs = self.default_values@.map_values(|p: (String, Value)| pair_view(p));
        let ghost whole = defaults_map(pairs);
        let mut i: usize = self.default_values.len();
        assert(pairs.subrange(0, i as int) =~= pairs);
        while i > 0
            invariant
                i <= self.default_values@.len(),
                pairs == self.default_values@.map_values(|p: (String, Value)| pair_view(p)),
                whole == defaults_map(pairs),
                whole == self@.defaults,
                whole.contains_key(prefix@) == defaults_map(pairs.subrange(0, i as int)).contains_key(
                    prefix@,
                ),
                whole.contains_key(prefix@) ==> whole[prefix@] == defaults_map(
                    pairs.subrange(0, i as int),
                )[prefix@],
            decreases i,
        {
            let e = &self.default_values[i - 1];
            assert(pairs.subrange(0, i as int).drop_last() =~= pairs.subrange(0, i - 1));
            if same_text(e.0.as_str(), prefix) {
                return Some(&e.1);
            }
            i = i - 1;
        }
        assert(pairs.subrange(0, 0).len() == 0);
        None
    }

    /// Dispatches the flag token at position 1 to the first option that it
    /// names and coerces the value token at position 2 to that option's type.
    pub fn execute_command(&self, input_args: &Vec<String>) -> (r: Result<Value, CommandError>)
        ensures
            match r {
                Ok(v) => dispatch(self@, arg_texts(input_args@)) == Ok::<ValueModel, CommandError>(v@),
                Err(e) => dispatch(self@, arg_texts(input_args@)) == Err::<ValueModel, CommandError>(e),
            },
    {
        if input_args.len() < 3 {
            return Err(CommandError::InvalidArg);
        }
        let flag = input_args[1].as_str();
        let raw = input_args[2].as_str();
        assert(arg_texts(input_args@)[1] == flag@);
        assert(arg_texts(input_args@)[2] == raw@);
        let mut i: usize = 0;
        while i < self.args_list.len()
            invariant
                i <= self.args_list@.len(),
                arg_texts(input_args@).len() >= 3,
                arg_texts(input_args@)[1] == flag@,
                arg_texts(input_args@)[2] == raw@,
                forall|j: int| 0 <= j < i ==> !token_matches(#[trigger] self@.options[j].prefix, flag@),
            decreases self.args_list@.len() - i,
        {
            if self.args_list[i].prefix.matches(flag) {
                proof {
                    lemma_find_first(self@.options, flag@, i as int);
                    assert(self@.options[i as int] == self.args_list@[i as int]@);
                }
                let r = coerce_value(self.args_list[i].arg_type, raw);
                return r;
            }
            i = i + 1;
        }
        proof {
            lemma_find_first(self@.options, flag@, i as int);
        }
        Err(CommandError::UnknownOption)
    }

    /// `Version:` followed by the version text.
    pub fn version_text(&self) -> (r: String)
        ensures
            r@ == version_of(self@),
    {
        let mut s = "Version:".to_owned();
        s.append(self.version.as_str());
        s
    }

    /// `Description:` and the description, then one line per option in
    /// declaration order: its tokens, a tab, its instruction.
    pub fn help_text(&self) -> (r: String)
        ensures
            r@ == help_of(self@),
    {
        let mut s = "Description:".to_owned();
        s.append(self.description.as_str());
        let mut i: usize = 0;
        assert(self@.options.subrange(0, 0).len() == 0);
        assert(s@ =~= "Description:"@ + self@.description + option_lines(self@.options.subrange(0, 0)));
        while i < self.args_list.len()
            invariant
                i <= self.args_list@.len(),
                s@ == "Description:"@ + self@.description + option_lines(self@.options.subrange(0, i as int)),
            decreases self.args_list@.len() - i,
        {
            let a = &self.args_list[i];
            let ghost before = s@;
            s.append("\n");
            match &a.prefix {
                PrefixArg::Short(t) => s.append(t.as_str()),
                PrefixArg::Long(t) => s.append(t.as_str()),
                PrefixArg::Both(x, y) => {
                    s.append(x.as_str());
                    s.append(y.as_str());
                },
            }
            s.append("\t");
            s.append(a.instruction.as_str());
            proof {
                let o = self@.options.subrange(0, i + 1);
                assert(o.drop_last() =~= self@.options.subrange(0, i as int));
                assert(o.last() == a@);
                assert(s@ =~= "Description:"@ + self@.description + option_lines(o));
            }
            i = i + 1;
        }
        assert(self@.options.subrange(0, i as int) =~= self@.options);
        s
    }

    /// Routes a raw argument list to the help text, the version text, or a
    /// dispatched option.
    pub fn analyse_command(&self, input_args: &Vec<String>) -> (r: Result<Outcome, CommandError>)
        ensures
            match r {
                Ok(o) => analyse(self@, arg_texts(input_args@)) == Ok::<OutcomeModel, CommandError>(o@),
                Err(e) => analyse(self@, arg_texts(input_args@)) == Err::<OutcomeModel, CommandError>(e),
            },
    {
        if input_args.len() < 3 {
            return Err(CommandError::InvalidArg);
        }
        let flag = input_args[1].as_str();
        assert(arg_texts(input_args@)[1] == flag@);
        if same_text(flag, "-h") || same_text(flag, "--help") {
            Ok(Outcome::Help(self.help_text()))
        } else if same_text(flag, "-v") || same_text(flag, "--version") {
            Ok(Outcome::Version(self.version_text()))
        } else {
            match self.execute_command(input_args) {
                Ok(v) => Ok(Outcome::Matched(v)),
                Err(e) => Err(e),
            }
        }
    }
}

} // verus!
