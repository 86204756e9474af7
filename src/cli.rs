//! The command line: its options, how an argument list is read into them,
//! and the version text.
use vstd::prelude::*;
use crate::filelist::same_text;
use crate::tokenizer::model_named;

verus! {

/// The options that take a value.
#[derive(PartialEq, Eq, Structural, Clone, Copy, Debug)]
pub enum ValueOption {
    Branch,
    File,
    Model,
    Token,
    ExtendExclude,
    Exclude,
}

/// The options that are switches.
#[derive(PartialEq, Eq, Structural, Clone, Copy, Debug)]
pub enum Switch {
    Stdout,
    Clipboard,
    LineNumbers,
    Version,
    Utf8,
    NoUtf8,
}

/// One argument as read from the command line.
pub enum CliArg {
    Positional(String),
    Flag(Switch),
    Value(ValueOption, String),
}

/// Why an argument list was refused.
#[derive(PartialEq, Eq, Debug)]
pub enum CliError {
    /// An option that does not exist.
    UnknownArgument(String),
    /// A value option at the end of the list, without its value.
    MissingValue(String),
    /// A second repository argument.
    UnexpectedPositional(String),
    /// A model selector that is not one of the supported models.
    InvalidModel(String),
    /// `--utf8` and `--no-utf8` together.
    Utf8Conflict,
}

/// The options of the program.
pub struct Flags {
    pub repo: Option<String>,
    pub branch: Option<String>,
    pub output_file: Option<String>,
    pub stdout: bool,
    pub model: Option<String>,
    pub clipboard: bool,
    pub lnumbers: bool,
    pub token: Option<String>,
    pub version: bool,
    pub extend_exclude: Option<Vec<String>>,
    pub exclude: Option<Vec<String>>,
    pub utf8: bool,
    pub no_utf8: bool,
}

/// The value option that a token names, in long or short form.
pub open spec fn value_option(t: Seq<char>) -> Option<ValueOption> {
    if t == "--branch"@ || t == "-b"@ {
        Some(ValueOption::Branch)
    } else if t == "--file"@ || t == "-f"@ {
        Some(ValueOption::File)
    } else if t == "--model"@ || t == "-m"@ {
        Some(ValueOption::Model)
    } else if t == "--token"@ || t == "-t"@ {
        Some(ValueOption::Token)
    } else if t == "--extend-exclude"@ || t == "-e"@ {
        Some(ValueOption::ExtendExclude)
    } else if t == "--exclude"@ || t == "-x"@ {
        Some(ValueOption::Exclude)
    } else {
        None
    }
}

/// The switch that a token names, in long or short form.
pub open spec fn switch_named(t: Seq<char>) -> Option<Switch> {
    if t == "--stdout"@ || t == "-s"@ {
        Some(Switch::Stdout)
    } else if t == "--clipboard"@ || t == "-c"@ {
        Some(Switch::Clipboard)
    } else if t == "--lnumbers"@ || t == "-l"@ {
        Some(Switch::LineNumbers)
    } else if t == "--version"@ || t == "-V"@ {
        Some(Switch::Version)
    } else if t == "--utf8"@ || t == "-u"@ {
        Some(Switch::Utf8)
    } else if t == "--no-utf8"@ || t == "-U"@ {
        Some(Switch::NoUtf8)
    } else {
        None
    }
}

/// A token that looks like an option: a dash followed by something.
pub open spec fn looks_like_option(t: Seq<char>) -> bool {
    t.len() > 1 && t[0] == '-'
}

/// Reading the tokens from `i` on: the arguments they stand for, or the
/// error of the first token that cannot be read (an unknown option, or a
/// value option without a value).
pub open spec fn read_args(tokens: Seq<Seq<char>>, i: nat) -> Result<Seq<CliArgModel>, CliErrorModel>
    decreases tokens.len() - i,
{
    if i >= tokens.len() {
        Ok(Seq::empty())
    } else {
        let t = tokens[i as int];
        match switch_named(t) {
            Some(s) => prepend(CliArgModel::Flag(s), read_args(tokens, i + 1)),
            None => match value_option(t) {
                Some(o) => if i + 1 < tokens.len() {
                    prepend(CliArgModel::Value(o, tokens[i + 1 as int]), read_args(tokens, i + 2))
                } else {
                    Err(CliErrorModel::MissingValue(t))
                },
                None => if looks_like_option(t) {
                    Err(CliErrorModel::UnknownArgument(t))
                } else {
                    prepend(CliArgModel::Positional(t), read_args(tokens, i + 1))
                },
            },
        }
    }
}

/// An argument, over character sequences.
pub enum CliArgModel {
    Positional(Seq<char>),
    Flag(Switch),
    Value(ValueOption, Seq<char>),
}

/// A refusal, over character sequences.
pub enum CliErrorModel {
    UnknownArgument(Seq<char>),
    MissingValue(Seq<char>),
    UnexpectedPositional(Seq<char>),
    InvalidModel(Seq<char>),
    Utf8Conflict,
}

pub open spec fn prepend(a: CliArgModel, rest: Result<Seq<CliArgModel>, CliErrorModel>) -> Result<Seq<CliArgModel>, CliErrorModel> {
    match rest {
        Ok(s) => Ok(seq![a] + s),
        Err(e) => Err(e),
    }
}

impl CliArg {
    pub open spec fn model(self) -> CliArgModel {
        match self {
            CliArg::Positional(s) => CliArgModel::Positional(s@),
            CliArg::Flag(f) => CliArgModel::Flag(f),
            CliArg::Value(o, v) => CliArgModel::Value(o, v@),
        }
    }
}

impl CliError {
    pub open spec fn model(self) -> CliErrorModel {
        match self {
            CliError::UnknownArgument(s) => CliErrorModel::UnknownArgument(s@),
            CliError::MissingValue(s) => CliErrorModel::MissingValue(s@),
            CliError::UnexpectedPositional(s) => CliErrorModel::UnexpectedPositional(s@),
            CliError::InvalidModel(s) => CliErrorModel::InvalidModel(s@),
            CliError::Utf8Conflict => CliErrorModel::Utf8Conflict,
        }
    }
}

/// The models of a sequence of arguments.
pub open spec fn arg_models(args: Seq<CliArg>) -> Seq<CliArgModel> {
    args.map_values(|a: CliArg| a.model())
}

/// The characters of each token.
pub open spec fn token_views(args: Seq<&str>) -> Seq<Seq<char>> {
    args.map_values(|a: &str| a@)
}

/// The value given last to option `o`, if any.
pub open spec fn last_value(args: Seq<CliArgModel>, o: ValueOption) -> Option<Seq<char>>
    decreases args.len(),
{
    if args.len() == 0 {
        None
    } else {
        match args.last() {
            CliArgModel::Value(k, v) if k == o => Some(v),
            _ => last_value(args.drop_last(), o),
        }
    }
}

/// All values given to option `o`, in order.
pub open spec fn all_values(args: Seq<CliArgModel>, o: ValueOption) -> Seq<Seq<char>>
    decreases args.len(),
{
    if args.len() == 0 {
        Seq::empty()
    } else {
        match args.last() {
            CliArgModel::Value(k, v) if k == o => all_values(args.drop_last(), o).push(v),
            _ => all_values(args.drop_last(), o),
        }
    }
}

/// Whether switch `s` was given.
pub open spec fn has_switch(args: Seq<CliArgModel>, s: Switch) -> bool {
    exists|i: int| 0 <= i < args.len() && args[i] == CliArgModel::Flag(s)
}

/// The positional arguments, in order.
pub open spec fn positionals(args: Seq<CliArgModel>) -> Seq<Seq<char>>
    decreases args.len(),
{
    if args.len() == 0 {
        Seq::empty()
    } else {
        match args.last() {
            CliArgModel::Positional(v) => positionals(args.drop_last()).push(v),
            _ => positionals(args.drop_last()),
        }
    }
}

/// The first refusal that a sequence of well-formed arguments earns: a second
/// repository, a model that is not supported, or both UTF-8 switches.
pub open spec fn refusal(args: Seq<CliArgModel>) -> Option<CliErrorModel> {
    if positionals(args).len() > 1 {
        Some(CliErrorModel::UnexpectedPositional(positionals(args)[1]))
    } else if last_value(args, ValueOption::Model) is Some && model_named(
        last_value(args, ValueOption::Model)->0,
    ) is None {
        Some(CliErrorModel::InvalidModel(last_value(args, ValueOption::Model)->0))
    } else if has_switch(args, Switch::Utf8) && has_switch(args, Switch::NoUtf8) {
        Some(CliErrorModel::Utf8Conflict)
    } else {
        None
    }
}

/// The characters of an optional string.
pub open spec fn opt_chars(o: Option<String>) -> Option<Seq<char>> {
    match o {
        Some(s) => Some(s@),
        None => None,
    }
}

/// The characters of each string of an optional list.
pub open spec fn opt_list(o: Option<Vec<String>>) -> Option<Seq<Seq<char>>> {
    match o {
        Some(v) => Some(v@.map_values(|s: String| s@)),
        None => None,
    }
}

/// The values of a list option: none when it was not given.
pub open spec fn list_value(args: Seq<CliArgModel>, o: ValueOption) -> Option<Seq<Seq<char>>> {
    if all_values(args, o).len() == 0 {
        None
    } else {
        Some(all_values(args, o))
    }
}

/// The options that an accepted list of arguments sets.
pub open spec fn flags_match(f: Flags, args: Seq<CliArgModel>) -> bool {
    &&& opt_chars(f.repo) == (if positionals(args).len() == 0 {
        None
    } else {
        Some(positionals(args)[0])
    })
    &&& opt_chars(f.branch) == last_value(args, ValueOption::Branch)
    &&& opt_chars(f.output_file) == last_value(args, ValueOption::File)
    &&& opt_chars(f.model) == last_value(args, ValueOption::Model)
    &&& opt_chars(f.token) == last_value(args, ValueOption::Token)
    &&& opt_list(f.extend_exclude) == list_value(args, ValueOption::ExtendExclude)
    &&& opt_list(f.exclude) == list_value(args, ValueOption::Exclude)
    &&& f.stdout == has_switch(args, Switch::Stdout)
    &&& f.clipboard == has_switch(args, Switch::Clipboard)
    &&& f.lnumbers == has_switch(args, Switch::LineNumbers)
    &&& f.version == has_switch(args, Switch::Version)
    &&& f.utf8 == has_switch(args, Switch::Utf8)
    &&& f.no_utf8 == has_switch(args, Switch::NoUtf8)
}

/// Whether an argument list (program name first) is accepted.
pub open spec fn accepted(tokens: Seq<Seq<char>>) -> bool {
    read_args(tokens, 1) is Ok && refusal(read_args(tokens, 1)->Ok_0) is None
}

fn switch_of(t: &str) -> (r: Option<Switch>)
    ensures
        r == switch_named(t@),
{
    if same_text(t, "--stdout") || same_text(t, "-s") {
        Some(Switch::Stdout)
    } else if same_text(t, "--clipboard") || same_text(t, "-c") {
        Some(Switch::Clipboard)
    } else if same_text(t, "--lnumbers") || same_text(t, "-l") {
        Some(Switch::LineNumbers)
    } else if same_text(t, "--version") || same_text(t, "-V") {
        Some(Switch::Version)
    } else if same_text(t, "--utf8") || same_text(t, "-u") {
        Some(Switch::Utf8)
    } else if same_text(t, "--no-utf8") || same_text(t, "-U") {
        Some(Switch::NoUtf8)
    } else {
        None
    }
}

fn value_option_of(t: &str) -> (r: Option<ValueOption>)
    ensures
        r == value_option(t@),
{
    if same_text(t, "--branch") || same_text(t, "-b") {
        Some(ValueOption::Branch)
    } else if same_text(t, "--file") || same_text(t, "-f") {
        Some(ValueOption::File)
    } else if same_text(t, "--model") || same_text(t, "-m") {
        Some(ValueOption::Model)
    } else if same_text(t, "--token") || same_text(t, "-t") {
        Some(ValueOption::Token)
    } else if same_text(t, "--extend-exclude") || same_text(t, "-e") {
        Some(ValueOption::ExtendExclude)
    } else if same_text(t, "--exclude") || same_text(t, "-x") {
        Some(ValueOption::Exclude)
    } else {
        None
    }
}

/// Reads the tokens after the program name into arguments.
pub fn read_arguments(tokens: &[&str]) -> (r: Result<Vec<CliArg>, CliError>)
    ensures
        match r {
            Ok(args) => read_args(token_views(tokens@), 1) == Ok::<Seq<CliArgModel>, CliErrorModel>(arg_models(args@)),
            Err(e) => read_args(token_views(tokens@), 1) == Err::<Seq<CliArgModel>, CliErrorModel>(e.model()),
        },
{
    let ghost tv = token_views(tokens@);
    let mut args: Vec<CliArg> = Vec::new();
    let mut i: usize = 1;
    while i < tokens.len()
        invariant
            tv == token_views(tokens@),
            1 <= i,
            i <= tokens@.len() + 1,
            read_args(tv, 1) == prefixed_result(arg_models(args@), read_args(tv, i as nat)),
        decreases tokens@.len() + 1 - i,
    {
        let t = tokens[i];
        assert(tv[i as int] == t@);
        let ghost before = arg_models(args@);
        match switch_of(t) {
            Some(s) => {
                args.push(CliArg::Flag(s));
                proof { lemma_prefixed_step(before, CliArgModel::Flag(s), read_args(tv, (i + 1) as nat)); }
                assert(arg_models(args@) =~= before.push(CliArgModel::Flag(s)));
                i = i + 1;
            },
            None => match value_option_of(t) {
                Some(o) => {
                    if i + 1 < tokens.len() {
                        let v = tokens[i + 1];
                        assert(tv[i + 1] == v@);
                        args.push(CliArg::Value(o, String::from_str(v)));
                        proof { lemma_prefixed_step(before, CliArgModel::Value(o, v@), read_args(tv, (i + 2) as nat)); }
                        assert(arg_models(args@) =~= before.push(CliArgModel::Value(o, v@)));
                        i = i + 2;
                    } else {
                        return Err(CliError::MissingValue(String::from_str(t)));
                    }
                },
                None => {
                    if t.unicode_len() > 1 && t.get_char(0) == '-' {
                        return Err(CliError::UnknownArgument(String::from_str(t)));
                    }
                    args.push(CliArg::Positional(String::from_str(t)));
                    proof { lemma_prefixed_step(before, CliArgModel::Positional(t@), read_args(tv, (i + 1) as nat)); }
                    assert(arg_models(args@) =~= before.push(CliArgModel::Positional(t@)));
                    i = i + 1;
                },
            },
        }
    }
    assert(read_args(tv, i as nat) == Ok::<Seq<CliArgModel>, CliErrorModel>(Seq::empty()));
    assert(arg_models(args@) + Seq::<CliArgModel>::empty() =~= arg_models(args@));
    Ok(args)
}

/// `done` followed by what reading the rest gives.
spec fn prefixed_result(done: Seq<CliArgModel>, rest: Result<Seq<CliArgModel>, CliErrorModel>) -> Result<Seq<CliArgModel>, CliErrorModel> {
    match rest {
        Ok(s) => Ok(done + s),
        Err(e) => Err(e),
    }
}

proof fn lemma_prefixed_step(done: Seq<CliArgModel>, a: CliArgModel, rest: Result<Seq<CliArgModel>, CliErrorModel>)
    ensures
        prefixed_result(done, prepend(a, rest)) == prefixed_result(done.push(a), rest),
{
    match rest {
        Ok(s) => {
            assert(done + (seq![a] + s) =~= done.push(a) + s);
        },
        Err(e) => {},
    }
}

/// The options read so far from a prefix `p` of the arguments, the second
/// repository argument if there was one, and the values of the two list
/// options.
spec fn reading_matches(
    f: Flags,
    second: Option<String>,
    ext: Seq<String>,
    excl: Seq<String>,
    p: Seq<CliArgModel>,
) -> bool {
    &&& opt_chars(f.repo) == (if positionals(p).len() == 0 {
        None
    } else {
        Some(positionals(p)[0])
    })
    &&& opt_chars(second) == (if positionals(p).len() < 2 {
        None
    } else {
        Some(positionals(p)[1])
    })
    &&& opt_chars(f.branch) == last_value(p, ValueOption::Branch)
    &&& opt_chars(f.output_file) == last_value(p, ValueOption::File)
    &&& opt_chars(f.model) == last_value(p, ValueOption::Model)
    &&& opt_chars(f.token) == last_value(p, ValueOption::Token)
    &&& ext.map_values(|s: String| s@) == all_values(p, ValueOption::ExtendExclude)
    &&& excl.map_values(|s: String| s@) == all_values(p, ValueOption::Exclude)
    &&& f.stdout == has_switch(p, Switch::Stdout)
    &&& f.clipboard == has_switch(p, Switch::Clipboard)
    &&& f.lnumbers == has_switch(p, Switch::LineNumbers)
    &&& f.version == has_switch(p, Switch::Version)
    &&& f.utf8 == has_switch(p, Switch::Utf8)
    &&& f.no_utf8 == has_switch(p, Switch::NoUtf8)
}

proof fn lemma_has_switch_push(p: Seq<CliArgModel>, a: CliArgModel, s: Switch)
    ensures
        has_switch(p.push(a), s) == (has_switch(p, s) || a == CliArgModel::Flag(s)),
{
    if has_switch(p, s) {
        let i = choose|i: int| 0 <= i < p.len() && p[i] == CliArgModel::Flag(s);
        assert(p.push(a)[i] == p[i]);
    }
    if has_switch(p.push(a), s) && !(a == CliArgModel::Flag(s)) {
        let i = choose|i: int| 0 <= i < p.push(a).len() && p.push(a)[i] == CliArgModel::Flag(s);
        assert(i < p.len());
        assert(p[i] == p.push(a)[i]);
    }
    if a == CliArgModel::Flag(s) {
        assert(p.push(a)[p.len() as int] == a);
    }
}

proof fn lemma_push_view(l: Seq<String>, x: String)
    ensures
        l.push(x).map_values(|s: String| s@) == l.map_values(|s: String| s@).push(x@),
{
    assert(l.push(x).map_values(|s: String| s@) =~= l.map_values(|s: String| s@).push(x@));
}

fn is_supported_model(name: &str) -> (r: bool)
    ensures
        r == (model_named(name@) is Some),
{
    same_text(name, "gpt4o") || same_text(name, "gpt4") || same_text(name, "gpt3.5")
        || same_text(name, "gpt3") || same_text(name, "gpt2") || same_text(name, "deepseek")
}

impl Flags {
    /// Reads an argument list (program name first): switches and value
    /// options in long or short form, at most one repository argument; a
    /// value option given twice keeps its last value, a list option keeps
    /// all of them in order.
    pub fn try_parse_from(tokens: &[&str]) -> (r: Result<Flags, CliError>)
        ensures
            match read_args(token_views(tokens@), 1) {
                Err(e) => r is Err && r->Err_0.model() == e,
                Ok(args) => match refusal(args) {
                    Some(e) => r is Err && r->Err_0.model() == e,
                    None => r is Ok && flags_match(r->Ok_0, args),
                },
            },
    {
        let args = match read_arguments(tokens) {
            Ok(args) => args,
            Err(e) => {
                return Err(e);
            },
        };
        let ghost all = arg_models(args@);
        let mut f = Flags {
            repo: None,
            branch: None,
            output_file: None,
            stdout: false,
            model: None,
            clipboard: false,
            lnumbers: false,
            token: None,
            version: false,
            extend_exclude: None,
            exclude: None,
            utf8: false,
            no_utf8: false,
        };
        let mut second: Option<String> = None;
        let mut ext: Vec<String> = Vec::new();
        let mut excl: Vec<String> = Vec::new();
        proof {
            assert(all.take(0) =~= Seq::<CliArgModel>::empty());
            assert(ext@.map_values(|s: String| s@) =~= Seq::<Seq<char>>::empty());
            assert(excl@.map_values(|s: String| s@) =~= Seq::<Seq<char>>::empty());
        }
        let mut j: usize = 0;
        while j < args.len()
            invariant
                j <= args@.len(),
                all == arg_models(args@),
                f.extend_exclude is None,
                f.exclude is None,
                reading_matches(f, second, ext@, excl@, all.take(j as int)),
            decreases args@.len() - j,
        {
            let ghost p = all.take(j as int);
            let ghost a = all[j as int];
            proof {
                assert(all.take(j + 1) =~= p.push(a));
                assert(p.push(a).drop_last() =~= p);
                lemma_has_switch_push(p, a, Switch::Stdout);
                lemma_has_switch_push(p, a, Switch::Clipboard);
                lemma_has_switch_push(p, a, Switch::LineNumbers);
                lemma_has_switch_push(p, a, Switch::Version);
                lemma_has_switch_push(p, a, Switch::Utf8);
                lemma_has_switch_push(p, a, Switch::NoUtf8);
            }
            match &args[j] {
                CliArg::Positional(v) => {
                    if f.repo.is_none() {
                        f.repo = Some(v.clone());
                    } else if second.is_none() {
                        second = Some(v.clone());
                    }
                    proof {
                        assert(positionals(p.push(a)) == positionals(p).push(v@));
                    }
                },
                CliArg::Flag(sw) => match sw {
                    Switch::Stdout => f.stdout = true,
                    Switch::Clipboard => f.clipboard = true,
                    Switch::LineNumbers => f.lnumbers = true,
                    Switch::Version => f.version = true,
                    Switch::Utf8 => f.utf8 = true,
                    Switch::NoUtf8 => f.no_utf8 = true,
                },
                CliArg::Value(o, v) => match o {
                    ValueOption::Branch => f.branch = Some(v.clone()),
                    ValueOption::File => f.output_file = Some(v.clone()),
                    ValueOption::Model => f.model = Some(v.clone()),
                    ValueOption::Token => f.token = Some(v.clone()),
                    ValueOption::ExtendExclude => {
                        let item = v.clone();
                        proof {
                            lemma_push_view(ext@, item);
                        }
                        ext.push(item);
                    },
                    ValueOption::Exclude => {
                        let item = v.clone();
                        proof {
                            lemma_push_view(excl@, item);
                        }
                        excl.push(item);
                    },
                },
            }
            j = j + 1;
        }
        proof {
            assert(all.take(args@.len() as int) =~= all);
        }
        if let Some(extra) = second {
            return Err(CliError::UnexpectedPositional(extra));
        }
        if let Some(m) = &f.model {
            if !is_supported_model(m.as_str()) {
                return Err(CliError::InvalidModel(m.clone()));
            }
        }
        if f.utf8 && f.no_utf8 {
            return Err(CliError::Utf8Conflict);
        }
        if ext.len() > 0 {
            f.extend_exclude = Some(ext);
        }
        if excl.len() > 0 {
            f.exclude = Some(excl);
        }
        Ok(f)
    }

    /// Reads an argument list that is known to be accepted.
    pub fn parse_from(tokens: &[&str]) -> (r: Flags)
        requires
            accepted(token_views(tokens@)),
        ensures
            flags_match(r, read_args(token_views(tokens@), 1)->Ok_0),
    {
        let r = Flags::try_parse_from(tokens);
        r.unwrap()
    }
}

impl CliError {
    /// The message shown for the refusal.
    pub fn message(&self) -> (r: String)
        ensures
            r@ == refusal_message(self.model()),
    {
        match self {
            CliError::UnknownArgument(t) => {
                let mut m = String::from_str("error: unexpected argument '");
                m.append(t.as_str());
                m.append("' found");
                assert(m@ =~= refusal_message(self.model()));
                m
            },
            CliError::MissingValue(t) => {
                let mut m = String::from_str("error: a value is required for '");
                m.append(t.as_str());
                m.append("' but none was supplied");
                assert(m@ =~= refusal_message(self.model()));
                m
            },
            CliError::UnexpectedPositional(t) => {
                let mut m = String::from_str("error: unexpected argument '");
                m.append(t.as_str());
                m.append("' found");
                assert(m@ =~= refusal_message(self.model()));
                m
            },
            CliError::InvalidModel(v) => {
                let mut m = String::from_str("error: invalid value '");
                m.append(v.as_str());
                m.append(POSSIBLE_MODELS);
                assert(m@ =~= refusal_message(self.model()));
                m
            },
            CliError::Utf8Conflict => String::from_str(
                "error: the argument '--utf8' cannot be used with '--no-utf8'",
            ),
        }
    }
}

/// The list of model selectors, as a refusal shows it.
pub const POSSIBLE_MODELS: &'static str = "' for '--model <MODEL>'\n  [possible values: gpt4o, gpt4, gpt3.5, gpt3, gpt2, deepseek]";

/// The message of a refusal: what was wrong, quoting the offending token.
pub open spec fn refusal_message(e: CliErrorModel) -> Seq<char> {
    match e {
        CliErrorModel::UnknownArgument(t) => "error: unexpected argument '"@ + t + "' found"@,
        CliErrorModel::MissingValue(t) => "error: a value is required for '"@ + t
            + "' but none was supplied"@,
        CliErrorModel::UnexpectedPositional(t) => "error: unexpected argument '"@ + t + "' found"@,
        CliErrorModel::InvalidModel(v) => "error: invalid value '"@ + v + POSSIBLE_MODELS@,
        CliErrorModel::Utf8Conflict => "error: the argument '--utf8' cannot be used with '--no-utf8'"@,
    }
}

/// The package version shown by `--version` when no metadata is given.
pub const PACKAGE_VERSION: &'static str = "0.1.0";

/// The package authors when no metadata is given; none are recorded.
pub const PACKAGE_AUTHORS: &'static str = "";

/// The package description when no metadata is given; none is recorded.
pub const PACKAGE_DESCRIPTION: &'static str = "";

/// The version text for the given package metadata: an empty author list
/// reads "Unknown", an empty description "No description provided".
pub open spec fn about_text(version: Seq<char>, authors: Seq<char>, description: Seq<char>) -> Seq<char> {
    "bundle_repo v"@ + version + "\n\n"@ + (if description.len() == 0 {
        "No description provided"@
    } else {
        description
    }) + "\n\nReleased under the MIT license by "@ + (if authors.len() == 0 {
        "Unknown"@
    } else {
        authors
    }) + "\n"@
}

/// The version text for a package's version, authors and description.
pub fn version_text(version: &str, authors: &str, description: &str) -> (r: String)
    ensures
        r@ == about_text(version@, authors@, description@),
{
    let mut r = String::from_str("bundle_repo v");
    r.append(version);
    r.append("\n\n");
    if description.is_empty() {
        r.append("No description provided");
    } else {
        r.append(description);
    }
    r.append("\n\nReleased under the MIT license by ");
    if authors.is_empty() {
        r.append("Unknown");
    } else {
        r.append(authors);
    }
    r.append("\n");
    assert(r@ =~= about_text(version@, authors@, description@));
    r
}

/// The version text of this package with the metadata recorded here.
pub fn version_info() -> (r: String)
    ensures
        r@ == about_text(PACKAGE_VERSION@, PACKAGE_AUTHORS@, PACKAGE_DESCRIPTION@),
{
    version_text(PACKAGE_VERSION, PACKAGE_AUTHORS, PACKAGE_DESCRIPTION)
}

} // verus!
