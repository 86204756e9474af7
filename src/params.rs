//! The resolved options of a run, merged from the command line and the
//! configuration files.
use vstd::prelude::*;
use crate::cli::{opt_chars, opt_list, Flags};

verus! {

/// The options of a run.
pub struct Params {
    pub output_file: Option<String>,
    pub stdout: bool,
    pub model: Option<String>,
    pub clipboard: bool,
    pub line_numbers: bool,
    pub token: Option<String>,
    pub branch: Option<String>,
    pub extend_exclude: Option<Vec<String>>,
    pub exclude: Option<Vec<String>>,
    pub utf8: bool,
}

/// The output file used when none is configured.
pub const DEFAULT_OUTPUT_FILE: &'static str = "packed-repo.xml";

/// The model used when none is configured.
pub const DEFAULT_MODEL: &'static str = "gpt4o";

/// The defaults: the default output file and model, every switch off, and
/// no token, branch or pattern list.
pub open spec fn is_default(p: Params) -> bool {
    &&& opt_chars(p.output_file) == Some(DEFAULT_OUTPUT_FILE@)
    &&& opt_chars(p.model) == Some(DEFAULT_MODEL@)
    &&& !p.stdout && !p.clipboard && !p.line_numbers && !p.utf8
    &&& p.token is None && p.branch is None
    &&& p.extend_exclude is None && p.exclude is None
}

/// The first of two optional values that is present.
pub open spec fn first_of<T>(a: Option<T>, b: Option<T>) -> Option<T> {
    match a {
        Some(x) => Some(x),
        None => b,
    }
}

/// The extending list after merging: none as soon as either side gives a
/// replacing list; otherwise the command line's patterns followed by the
/// configuration's.
pub open spec fn merged_extend(args: Flags, config: Params) -> Option<Seq<Seq<char>>> {
    if args.exclude is Some || config.exclude is Some {
        None
    } else {
        match (opt_list(args.extend_exclude), opt_list(config.extend_exclude)) {
            (Some(a), Some(c)) => Some(a + c),
            (Some(a), None) => Some(a),
            (None, Some(c)) => Some(c),
            (None, None) => None,
        }
    }
}

impl Default for Params {
    fn default() -> (r: Params)
        ensures
            is_default(r),
    {
        Params {
            output_file: Some(String::from_str(DEFAULT_OUTPUT_FILE)),
            stdout: false,
            model: Some(String::from_str(DEFAULT_MODEL)),
            clipboard: false,
            line_numbers: false,
            token: None,
            branch: None,
            extend_exclude: None,
            exclude: None,
            utf8: false,
        }
    }
}

fn copy_strings(v: &Vec<String>) -> (r: Vec<String>)
    ensures
        r@ == v@,
{
    let mut r: Vec<String> = Vec::new();
    let mut i: usize = 0;
    while i < v.len()
        invariant
            i <= v@.len(),
            r@ == v@.take(i as int),
        decreases v@.len() - i,
    {
        r.push(v[i].clone());
        assert(r@ =~= v@.take(i + 1));
        i = i + 1;
    }
    assert(v@.take(v@.len() as int) =~= v@);
    r
}

impl Params {
    /// Merges the command line over the configuration: a value given on the
    /// command line wins, then the configuration's, then the default; a
    /// switch is on when either side turns it on (`--no-utf8` turns the
    /// configuration's UTF-8 setting off); a replacing pattern list from the
    /// command line wins over the configuration's, and any replacing list
    /// disables the extending lists, which are otherwise joined.
    pub fn from_args_and_config(args: &Flags, config: Params) -> (r: Params)
        ensures
            opt_chars(r.output_file) == Some(
                first_of(opt_chars(args.output_file), opt_chars(config.output_file)).unwrap_or(
                    DEFAULT_OUTPUT_FILE@,
                ),
            ),
            opt_chars(r.model) == Some(
                first_of(opt_chars(args.model), opt_chars(config.model)).unwrap_or(DEFAULT_MODEL@),
            ),
            r.stdout == (args.stdout || config.stdout),
            r.clipboard == (args.clipboard || config.clipboard),
            r.line_numbers == (args.lnumbers || config.line_numbers),
            r.utf8 == (args.utf8 || (config.utf8 && !args.no_utf8)),
            opt_chars(r.token) == first_of(opt_chars(args.token), opt_chars(config.token)),
            opt_chars(r.branch) == first_of(opt_chars(args.branch), opt_chars(config.branch)),
            opt_list(r.exclude) == first_of(opt_list(args.exclude), opt_list(config.exclude)),
            opt_list(r.extend_exclude) == merged_extend(*args, config),
    {
        let output_file = match &args.output_file {
            Some(f) => Some(f.clone()),
            None => match config.output_file {
                Some(f) => Some(f),
                None => Some(String::from_str(DEFAULT_OUTPUT_FILE)),
            },
        };
        let model = match &args.model {
            Some(m) => Some(m.clone()),
            None => match config.model {
                Some(m) => Some(m),
                None => Some(String::from_str(DEFAULT_MODEL)),
            },
        };
        let token = match &args.token {
            Some(t) => Some(t.clone()),
            None => config.token,
        };
        let branch = match &args.branch {
            Some(b) => Some(b.clone()),
            None => config.branch,
        };
        let replacing = args.exclude.is_some() || config.exclude.is_some();
        let extend_exclude = if replacing {
            None
        } else {
            match (&args.extend_exclude, config.extend_exclude) {
                (Some(a), Some(c)) => {
                    let mut joined = copy_strings(a);
                    let mut rest = c;
                    let ghost first = joined@;
                    let ghost second = rest@;
                    joined.append(&mut rest);
                    assert(joined@.map_values(|s: String| s@) =~= first.map_values(|s: String| s@)
                        + second.map_values(|s: String| s@));
                    Some(joined)
                },
                (Some(a), None) => Some(copy_strings(a)),
                (None, Some(c)) => Some(c),
                (None, None) => None,
            }
        };
        let exclude = match &args.exclude {
            Some(x) => Some(copy_strings(x)),
            None => config.exclude,
        };
        let r = Params {
            output_file,
            stdout: args.stdout || config.stdout,
            model,
            clipboard: args.clipboard || config.clipboard,
            line_numbers: args.lnumbers || config.line_numbers,
            token,
            branch,
            extend_exclude,
            exclude,
            utf8: args.utf8 || (config.utf8 && !args.no_utf8),
        };
        r
    }
}

} // verus!
