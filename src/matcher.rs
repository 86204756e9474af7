//! Exclusion rules: either a replacing list of literal patterns, or the
//! built-in defaults extended by user patterns. User patterns are literal
//! substrings, matched case-insensitively through the regex engine.
use vstd::prelude::*;
use crate::filelist::views;

verus! {

/// Searching `text` for `pattern`: whether it matches somewhere, or nothing
/// when the pattern does not compile.
pub uninterp spec fn regex_outcome(pattern: Seq<char>, text: Seq<char>) -> Option<bool>;

/// Relies on `regex::Regex::new` and `regex::Regex::is_match`: the pattern is
/// compiled, then searched for in the text.
#[verifier::external_body]
pub(crate) fn regex_search(pattern: &str, text: &str) -> (r: Option<bool>)
    ensures
        r == regex_outcome(pattern@, text@),
{
    match regex::Regex::new(pattern) {
        Ok(re) => Some(re.is_match(text)),
        Err(_) => None,
    }
}

/// Whether `pattern` matches somewhere in `text`; a pattern that does not
/// compile matches nothing.
pub open spec fn regex_finds(pattern: Seq<char>, text: Seq<char>) -> bool {
    regex_outcome(pattern, text) == Some(true)
}

/// Whether `pattern` compiles (tried on the empty text).
pub open spec fn compiles(pattern: Seq<char>) -> bool {
    regex_outcome(pattern, Seq::empty()) is Some
}

/// The sources of `sources` that do not compile, in order.
pub open spec fn invalid_sources(sources: Seq<Seq<char>>) -> Seq<Seq<char>>
    decreases sources.len(),
{
    if sources.len() == 0 {
        Seq::empty()
    } else if compiles(sources.last()) {
        invalid_sources(sources.drop_last())
    } else {
        invalid_sources(sources.drop_last()).push(sources.last())
    }
}

/// The characters that have a meaning in a regular expression.
pub open spec fn is_regex_meta(c: char) -> bool {
    c == '\\' || c == '.' || c == '+' || c == '*' || c == '?' || c == '(' || c == ')' || c == '|'
        || c == '[' || c == ']' || c == '{' || c == '}' || c == '^' || c == '$' || c == '#' || c
        == '&' || c == '-' || c == '~'
}

/// `s` with a backslash put before each meta character.
pub open spec fn regex_escaped(s: Seq<char>) -> Seq<char>
    decreases s.len(),
{
    if s.len() == 0 {
        Seq::empty()
    } else if is_regex_meta(s.last()) {
        regex_escaped(s.drop_last()) + seq!['\\', s.last()]
    } else {
        regex_escaped(s.drop_last()).push(s.last())
    }
}

/// Relies on `regex::escape`: a backslash before each meta character.
#[verifier::external_body]
fn escape_literal(s: &str) -> (r: String)
    ensures
        r@ == regex_escaped(s@),
{
    regex::escape(s)
}

/// The regular expression that finds `p` literally, ignoring case.
pub open spec fn literal_source(p: Seq<char>) -> Seq<char> {
    "(?i)"@ + regex_escaped(p)
}

/// The built-in exclusions: version-control metadata and editor settings,
/// `.gitignore`, `renovate.json`, requirement files, lock files, licences.
pub open spec fn default_sources() -> Seq<Seq<char>> {
    seq![
        "(?i)\\.gitignore"@,
        "(?i)renovate\\.json"@,
        "(?i)requirement.*\\.txt"@,
        "(?i)\\.lock$"@,
        "(?i)license(\\..*)?"@,
        "(?i)\\.github"@,
        "(?i)\\.git"@,
        "(?i)\\.vscode"@,
    ]
}

/// Which exclusion list is in effect.
pub enum ExcludeRules {
    /// The sole list of literal patterns; the defaults are off.
    Replace(Vec<String>),
    /// The built-in defaults, and these literal patterns besides.
    DefaultAndExtend(Vec<String>),
}

/// The literal sources of a list of user patterns.
pub open spec fn literal_sources(ps: Seq<String>) -> Seq<Seq<char>> {
    views(ps).map_values(|p: Seq<char>| literal_source(p))
}

/// The regular expressions that a rule set stands for, in order.
pub open spec fn rule_sources(rules: ExcludeRules) -> Seq<Seq<char>> {
    match rules {
        ExcludeRules::Replace(ps) => literal_sources(ps@),
        ExcludeRules::DefaultAndExtend(ps) => default_sources() + literal_sources(ps@),
    }
}

/// The regular expressions in effect for an optional extending list and an
/// optional replacing list: a replacing list, when given, is the only one.
pub open spec fn sources_for(extend: Option<Seq<String>>, exclude: Option<Seq<String>>) -> Seq<
    Seq<char>,
> {
    match exclude {
        Some(ps) => literal_sources(ps),
        None => default_sources() + match extend {
            Some(ps) => literal_sources(ps),
            None => Seq::empty(),
        },
    }
}

/// The contents of an optional list.
pub open spec fn opt_seq(o: Option<Vec<String>>) -> Option<Seq<String>> {
    match o {
        Some(v) => Some(v@),
        None => None,
    }
}

/// Whether one of `sources` finds something in `path`.
pub open spec fn excluded_by(sources: Seq<Seq<char>>, path: Seq<char>) -> bool {
    exists|i: int| 0 <= i < sources.len() && regex_finds(#[trigger] sources[i], path)
}

impl ExcludeRules {
    /// The rules for an optional extending and an optional replacing list.
    pub fn from_options(extend: Option<Vec<String>>, exclude: Option<Vec<String>>) -> (r: ExcludeRules)
        ensures
            rule_sources(r) == sources_for(opt_seq(extend), opt_seq(exclude)),
    {
        match exclude {
            Some(ps) => ExcludeRules::Replace(ps),
            None => match extend {
                Some(ps) => ExcludeRules::DefaultAndExtend(ps),
                None => {
                    let r = ExcludeRules::DefaultAndExtend(Vec::new());
                    assert(rule_sources(r) =~= default_sources());
                    r
                },
            },
        }
    }
}

/// Compiled exclusion rules: the regular expressions, one per pattern.
pub struct PatternMatcher {
    pub sources: Vec<String>,
}

fn literal_sources_of(ps: &Vec<String>) -> (r: Vec<String>)
    ensures
        views(r@) == literal_sources(ps@),
{
    let mut r: Vec<String> = Vec::new();
    let mut i: usize = 0;
    while i < ps.len()
        invariant
            i <= ps@.len(),
            r@.len() == i,
            views(r@) == literal_sources(ps@.take(i as int)),
        decreases ps@.len() - i,
    {
        let mut src = String::from_str("(?i)");
        let escaped = escape_literal(ps[i].as_str());
        src.append(escaped.as_str());
        let ghost prev = r@;
        r.push(src);
        proof {
            let next = literal_sources(ps@.take(i + 1));
            assert forall|k: int| 0 <= k <= i implies #[trigger] views(r@)[k] == next[k] by {
                assert(ps@.take(i + 1)[k] == ps@[k]);
                if k < i {
                    assert(ps@.take(i as int)[k] == ps@[k]);
                    assert(views(prev)[k] == literal_sources(ps@.take(i as int))[k]);
                    assert(r@[k] == prev[k]);
                }
            }
            assert(views(r@) =~= next);
        }
        i = i + 1;
    }
    assert(ps@.take(ps@.len() as int) =~= ps@);
    r
}

fn default_sources_vec() -> (r: Vec<String>)
    ensures
        views(r@) == default_sources(),
{
    let mut r: Vec<String> = Vec::new();
    r.push(String::from_str("(?i)\\.gitignore"));
    r.push(String::from_str("(?i)renovate\\.json"));
    r.push(String::from_str("(?i)requirement.*\\.txt"));
    r.push(String::from_str("(?i)\\.lock$"));
    r.push(String::from_str("(?i)license(\\..*)?"));
    r.push(String::from_str("(?i)\\.github"));
    r.push(String::from_str("(?i)\\.git"));
    r.push(String::from_str("(?i)\\.vscode"));
    assert(views(r@) =~= default_sources());
    r
}

impl PatternMatcher {
    /// Compiles a rule set.
    pub fn new(rules: &ExcludeRules) -> (m: PatternMatcher)
        ensures
            views(m.sources@) == rule_sources(*rules),
    {
        match rules {
            ExcludeRules::Replace(ps) => PatternMatcher { sources: literal_sources_of(ps) },
            ExcludeRules::DefaultAndExtend(ps) => {
                let mut sources = default_sources_vec();
                let mut extra = literal_sources_of(ps);
                let ghost d = sources@;
                let ghost e = extra@;
                sources.append(&mut extra);
                assert(views(sources@) =~= views(d) + views(e));
                PatternMatcher { sources }
            },
        }
    }

    /// The rules that do not compile, which match nothing; a caller may warn
    /// about them.
    pub fn invalid_patterns(&self) -> (r: Vec<String>)
        ensures
            views(r@) == invalid_sources(views(self.sources@)),
    {
        let mut bad: Vec<String> = Vec::new();
        let mut i: usize = 0;
        while i < self.sources.len()
            invariant
                i <= self.sources@.len(),
                views(bad@) == invalid_sources(views(self.sources@).take(i as int)),
            decreases self.sources@.len() - i,
        {
            let ghost prev = bad@;
            proof {
                assert(views(self.sources@).take(i + 1).drop_last() =~= views(self.sources@).take(i as int));
                assert(views(self.sources@).take(i + 1).last() == self.sources@[i as int]@);
                reveal_strlit("");
                assert(""@ =~= Seq::<char>::empty());
            }
            if regex_search(self.sources[i].as_str(), "").is_none() {
                bad.push(self.sources[i].clone());
                assert(views(bad@) =~= views(prev).push(self.sources@[i as int]@));
            }
            i = i + 1;
        }
        assert(views(self.sources@).take(self.sources@.len() as int) =~= views(self.sources@));
        bad
    }

    /// Whether one of the rules finds something in `path`.
    pub fn matches(&self, path: &str) -> (r: bool)
        ensures
            r == excluded_by(views(self.sources@), path@),
    {
        let mut i: usize = 0;
        while i < self.sources.len()
            invariant
                i <= self.sources@.len(),
                forall|j: int| 0 <= j < i ==> !regex_finds(#[trigger] self.sources@[j]@, path@),
            decreases self.sources@.len() - i,
        {
            if regex_search(self.sources[i].as_str(), path) == Some(true) {
                assert(views(self.sources@)[i as int] == self.sources@[i as int]@);
                return true;
            }
            i = i + 1;
        }
        assert forall|j: int| 0 <= j < views(self.sources@).len() implies !regex_finds(
            #[trigger] views(self.sources@)[j],
            path@,
        ) by {
            assert(views(self.sources@)[j] == self.sources@[j]@);
        }
        false
    }
}

/// The paths of `l` that no source of `sources` finds something in, in order.
pub open spec fn unexcluded(sources: Seq<Seq<char>>, l: Seq<String>) -> Seq<String>
    decreases l.len(),
{
    if l.len() == 0 {
        Seq::empty()
    } else if excluded_by(sources, l.last()@) {
        unexcluded(sources, l.drop_last())
    } else {
        unexcluded(sources, l.drop_last()).push(l.last())
    }
}

/// Keeps the candidate paths, relative to the repository root, that no rule
/// excludes, in their order.
pub fn keep_unexcluded(matcher: &PatternMatcher, candidates: Vec<String>) -> (r: Vec<String>)
    ensures
        r@ == unexcluded(views(matcher.sources@), candidates@),
{
    let mut kept: Vec<String> = Vec::new();
    let mut k: usize = 0;
    while k < candidates.len()
        invariant
            k <= candidates@.len(),
            kept@ == unexcluded(views(matcher.sources@), candidates@.take(k as int)),
        decreases candidates@.len() - k,
    {
        let path = candidates[k].clone();
        assert(candidates@.take(k + 1).drop_last() =~= candidates@.take(k as int));
        if !matcher.matches(path.as_str()) {
            kept.push(path);
        }
        k = k + 1;
    }
    assert(candidates@.take(candidates@.len() as int) =~= candidates@);
    kept
}

/// A replacing list disables the defaults and the extending list: whatever
/// extending lists are given beside it, the rules in effect are those of the
/// replacing list alone, so every path is excluded or kept alike.
pub proof fn lemma_replace_disables_extend(
    replace: Seq<String>,
    extend_a: Option<Seq<String>>,
    extend_b: Option<Seq<String>>,
    path: Seq<char>,
)
    ensures
        sources_for(extend_a, Some(replace)) == literal_sources(replace),
        excluded_by(sources_for(extend_a, Some(replace)), path) == excluded_by(
            sources_for(extend_b, Some(replace)),
            path,
        ),
{
}

} // verus!
