//! Which repository to clone: a URL as given, or a `user/repo` shorthand
//! for GitHub; and the message for a failed clone.
use vstd::prelude::*;
use crate::filelist::same_text;
use crate::matcher::{regex_finds, regex_search};

verus! {

/// Whether `s` parses as an absolute URL.
pub uninterp spec fn url_parses(s: Seq<char>) -> bool;

/// The pattern of a `user/repo` shorthand.
pub const SHORTHAND_PATTERN: &'static str = "^[\\w\\-]+/[\\w\\-]+$";

/// Relies on `url::Url::parse`: whether the input parses as a URL.
#[verifier::external_body]
pub fn is_valid_url(input: &str) -> (r: bool)
    ensures
        r == url_parses(input@),
{
    url::Url::parse(input).is_ok()
}

/// Whether `input` is a `user/repo` shorthand: two runs of word characters
/// or dashes around one slash.
pub fn is_valid_shorthand(input: &str) -> (r: bool)
    ensures
        r == regex_finds(SHORTHAND_PATTERN@, input@),
{
    regex_search(SHORTHAND_PATTERN, input) == Some(true)
}

/// The address to clone for a repository argument: a URL as it is, a
/// shorthand as a GitHub address, anything else refused.
pub open spec fn clone_address(input: Seq<char>) -> Option<Seq<char>> {
    if url_parses(input) {
        Some(input)
    } else if regex_finds(SHORTHAND_PATTERN@, input) {
        Some("https://github.com/"@ + input + ".git"@)
    } else {
        None
    }
}

/// Resolves a repository argument to the address to clone.
pub fn resolve_repo_url(input: &str) -> (r: Result<String, String>)
    ensures
        match clone_address(input@) {
            Some(a) => r is Ok && r->Ok_0@ == a,
            None => r is Err && r->Err_0@ == "Invalid repository shorthand"@,
        },
{
    let url = is_valid_url(input);
    let shorthand = !url && is_valid_shorthand(input);
    address_for(input, url, shorthand)
}

/// The address to clone once it is known whether `input` parses as a URL
/// and whether it is a shorthand.
pub fn address_for(input: &str, parses_as_url: bool, shorthand: bool) -> (r: Result<String, String>)
    ensures
        parses_as_url ==> r is Ok && r->Ok_0@ == input@,
        !parses_as_url && shorthand ==> r is Ok && r->Ok_0@ == "https://github.com/"@ + input@ + ".git"@,
        !parses_as_url && !shorthand ==> r is Err && r->Err_0@ == "Invalid repository shorthand"@,
{
    if parses_as_url {
        Ok(String::from_str(input))
    } else if shorthand {
        let mut a = String::from_str("https://github.com/");
        a.append(input);
        a.append(".git");
        Ok(a)
    } else {
        Err(String::from_str("Invalid repository shorthand"))
    }
}

/// What went wrong in a failed clone, as far as the message depends on it.
#[derive(PartialEq, Eq, Structural, Clone, Copy, Debug)]
pub enum CloneFailure {
    /// A reference (the branch) was not found.
    ReferenceNotFound,
    /// A network failure.
    Network,
    /// An HTTP failure.
    Http,
    /// Anything else.
    Other,
}

/// Whether `needle` occurs in `hay`.
pub open spec fn occurs_in(needle: Seq<char>, hay: Seq<char>) -> bool {
    exists|i: int| 0 <= i && i + needle.len() <= hay.len() && #[trigger] hay.subrange(i, i + needle.len()) == needle
}

/// Whether `needle` occurs in `hay`.
pub fn contains_text(hay: &str, needle: &str) -> (r: bool)
    ensures
        r == occurs_in(needle@, hay@),
{
    let n = hay.unicode_len();
    let m = needle.unicode_len();
    if m > n {
        return false;
    }
    if m == 0 {
        assert(hay@.subrange(0int, 0int + needle@.len()) =~= needle@);
        return true;
    }
    let mut i: usize = 0;
    while i <= n - m
        invariant
            n == hay@.len(),
            m == needle@.len(),
            0 < m <= n,
            i <= n - m + 1,
            forall|j: int| 0 <= j < i ==> #[trigger] hay@.subrange(j, j + m) != needle@,
        decreases n - m + 1 - i,
    {
        if same_text(hay.substring_char(i, i + m), needle) {
            return true;
        }
        i = i + 1;
    }
    assert forall|j: int| 0 <= j && j + needle@.len() <= hay@.len() implies #[trigger] hay@.subrange(
        j,
        j + needle@.len(),
    ) != needle@ by {}
    false
}

/// The phrase by which an HTTP failure reports missing credentials.
pub const AUTH_REPLAYS: &'static str = "too many redirects or authentication replays";

/// The message for a failed clone of `repo_input`: a missing branch, a
/// network failure, an HTTP failure that asks for credentials, or the
/// underlying description `detail`.
pub fn clone_error_message(
    failure: CloneFailure,
    detail: &str,
    branch: Option<&str>,
    repo_input: &str,
) -> (r: String)
    ensures
        failure == CloneFailure::ReferenceNotFound && branch is Some ==> r@
            == "The specified branch '"@ + branch->0@ + "' does not exist in the repository."@,
        failure == CloneFailure::Network ==> r@ == "Network error: The repository '"@ + repo_input@
            + "' might not exist or you may not have permission to access it."@,
        failure == CloneFailure::Http && occurs_in(AUTH_REPLAYS@, detail@) ==> r@
            == "The repository '"@ + repo_input@
            + "' does not exist or requires authentication.\nIf it's a private repository, please provide a valid token using the --token option."@,
        (failure == CloneFailure::Other || (failure == CloneFailure::ReferenceNotFound && branch is None)
            || (failure == CloneFailure::Http && !occurs_in(AUTH_REPLAYS@, detail@))) ==> r@
            == "Failed to clone: "@ + detail@,
{
    let mut r = String::new();
    match failure {
        CloneFailure::ReferenceNotFound if branch.is_some() => {
            r.append("The specified branch '");
            r.append(branch.unwrap());
            r.append("' does not exist in the repository.");
        },
        CloneFailure::Network => {
            r.append("Network error: The repository '");
            r.append(repo_input);
            r.append("' might not exist or you may not have permission to access it.");
        },
        CloneFailure::Http if contains_text(detail, AUTH_REPLAYS) => {
            r.append("The repository '");
            r.append(repo_input);
            r.append(
                "' does not exist or requires authentication.\nIf it's a private repository, please provide a valid token using the --token option.",
            );
        },
        _ => {
            r.append("Failed to clone: ");
            r.append(detail);
        },
    }
    r
}

} // verus!
