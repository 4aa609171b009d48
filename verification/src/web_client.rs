//! Requests to the GitHub API about a repository given by its web address.

use vstd::prelude::*;
use vstd::string::*;
use crate::storage_providers::github::{github_headers, spec_request_headers, HttpMethod, Request};
use crate::text::{pair_views, chars_range_to_string, contains_str, matches_at, occurs_at, spec_contains, to_chars};

verus! {

#[verifier::external_type_specification]
#[verifier::external_body]
pub struct ExReqwestError(reqwest::Error);

/// A GitHub repository.
#[derive(Debug, Clone, PartialEq, Eq)]
pub struct Repository {
    /// The owner of the repository
    pub owner: String,
    /// The name of the repository
    pub name: String,
}

/// The endpoints that can be requested from the GitHub API
#[derive(Debug, Clone, Copy, PartialEq, Eq, Structural)]
pub enum RequestEndpoint {
    /// The meta endpoint
    Meta,
}

/// The errors that can occur when making a request
#[derive(Debug)]
pub enum RequestError {
    /// A request error
    RequestError(reqwest::Error),
    /// An invalid repository URL have been provided
    InvalidRepositoryUrl,
}

/// Useful metadata about a repository
#[derive(Debug, Clone)]
pub struct UsefulMetadata {
    /// Whether the repository is archived
    pub archived: bool,
    /// Whether the repository is disabled
    pub disabled: bool,
    /// The repository visibility
    pub visibility: String,
}

/// `s` ends with `suffix`.
pub open spec fn ends_with(s: Seq<char>, suffix: Seq<char>) -> bool {
    suffix.len() <= s.len() && s.skip(s.len() - suffix.len()) == suffix
}

/// `s` with every trailing repetition of a non-empty `suffix` removed.
pub open spec fn trim_end_all(s: Seq<char>, suffix: Seq<char>) -> Seq<char>
    decreases s.len(),
{
    if suffix.len() > 0 && ends_with(s, suffix) {
        trim_end_all(s.take(s.len() - suffix.len()), suffix)
    } else {
        s
    }
}

/// The first occurrence of `needle` in `s` is at `i`.
pub open spec fn first_occurrence(s: Seq<char>, needle: Seq<char>, i: int) -> bool {
    &&& occurs_at(s, needle, i)
    &&& forall|j: int| 0 <= j < i ==> !occurs_at(s, needle, j)
}

/// The repository path of a GitHub address: what follows the first
/// `github.com/`, once trailing `.git` are removed.
pub open spec fn repository_path(url: Seq<char>) -> Seq<char> {
    let t = trim_end_all(url, ".git"@);
    let i = choose|i: int| first_occurrence(t, "github.com/"@, i);
    t.skip(i + "github.com/"@.len())
}

/// The only `/` of `p` is at `k`.
pub open spec fn single_slash_at(p: Seq<char>, k: int) -> bool {
    &&& 0 <= k < p.len()
    &&& p[k] == '/'
    &&& forall|j: int| 0 <= j < p.len() && j != k ==> p[j] != '/'
}

proof fn lemma_trim_step(s: Seq<char>, suffix: Seq<char>, end: int)
    requires
        suffix.len() > 0,
        suffix.len() <= end <= s.len(),
        s.subrange(end - suffix.len(), end) == suffix,
    ensures
        trim_end_all(s.take(end), suffix) == trim_end_all(s.take(end - suffix.len()), suffix),
{
    assert(s.take(end).skip(end - suffix.len()) =~= s.subrange(end - suffix.len(), end));
    assert(s.take(end).take(end - suffix.len()) =~= s.take(end - suffix.len()));
}

impl Repository {
    /// Reads a repository from its web address: on GitHub, the owner and name
    /// that follow `github.com/`, once trailing `.git` are removed. Any other
    /// address is refused, as is a GitHub path without exactly one `/`.
    pub fn try_from(value: String) -> (res: Result<Repository, RequestError>)
        requires
            spec_contains(value@, "github.com"@) ==> spec_contains(trim_end_all(value@, ".git"@), "github.com/"@),
            !spec_contains(value@, "github.com"@) ==> !spec_contains(value@, "gitlab.com"@),
        ensures
            !spec_contains(value@, "github.com"@) ==> res matches Err(RequestError::InvalidRepositoryUrl),
            spec_contains(value@, "github.com"@) ==> ({
                let p = repository_path(value@);
                &&& (exists|k: int| single_slash_at(p, k)) ==> (res matches Ok(r) && exists|k: int|
                    single_slash_at(p, k) && r.owner@ == p.take(k) && r.name@ == p.skip(k + 1))
                &&& !(exists|k: int| single_slash_at(p, k)) ==> res matches Err(RequestError::InvalidRepositoryUrl)
            }),
    {
        if !contains_str(value.as_str(), "github.com") {
            return Err(RequestError::InvalidRepositoryUrl);
        }
        proof {
            reveal_strlit(".git");
            reveal_strlit("github.com/");
        }
        let chars = to_chars(value.as_str());
        let suffix = to_chars(".git");
        let needle = to_chars("github.com/");
        let mut end: usize = chars.len();
        assert(chars@.take(end as int) =~= chars@);
        let mut trimming = true;
        while trimming
            invariant
                end <= chars@.len(),
                chars@ == value@,
                suffix@ == ".git"@,
                suffix@.len() == 4,
                trim_end_all(value@, ".git"@) == trim_end_all(chars@.take(end as int), ".git"@),
                !trimming ==> trim_end_all(chars@.take(end as int), ".git"@) == chars@.take(end as int),
            decreases end + (if trimming { 1int } else { 0int }),
        {
            if end >= 4 && matches_at(&chars, &suffix, end - 4) {
                proof {
                    lemma_trim_step(chars@, suffix@, end as int);
                }
                end = end - 4;
            } else {
                proof {
                    let t = chars@.take(end as int);
                    if end >= 4 {
                        assert(t.skip(end - 4) =~= chars@.subrange(end - 4, end as int));
                    }
                }
                trimming = false;
            }
        }
        let ghost t = chars@.take(end as int);
        let mut i: usize = 0;
        let mut found = false;
        let mut searching = end >= 11;
        while searching
            invariant
                end <= chars@.len(),
                t == chars@.take(end as int),
                needle@ == "github.com/"@,
                needle@.len() == 11,
                searching ==> i + 11 <= end,
                !found ==> forall|j: int| 0 <= j < i ==> !occurs_at(t, needle@, j),
                !found && !searching ==> i + 11 > end,
                found ==> first_occurrence(t, needle@, i as int),
                found ==> !searching,
            decreases end + 1 - i + (if searching { 1int } else { 0int }),
        {
            assert(t.subrange(i as int, i + 11) =~= chars@.subrange(i as int, i + 11));
            if matches_at(&chars, &needle, i) {
                found = true;
                searching = false;
            } else {
                i = i + 1;
                searching = i <= end - 11;
            }
        }
        if !found {
            proof {
                let w = choose|w: int| occurs_at(t, needle@, w);
                assert(occurs_at(t, needle@, w));
            }
            return Err(RequestError::InvalidRepositoryUrl);
        }
        let start = i + 11;
        let ghost p = t.skip(start as int);
        assert(p == repository_path(value@));
        let mut slashes: usize = 0;
        let mut slash: usize = start;
        let mut k: usize = start;
        while k < end
            invariant
                start <= k <= end,
                end <= chars@.len(),
                t == chars@.take(end as int),
                p == t.skip(start as int),
                slashes <= k - start,
                slashes == 0 ==> forall|j: int| start <= j < k ==> chars@[j] != '/',
                slashes >= 1 ==> start <= slash < k && chars@[slash as int] == '/' && forall|j: int|
                    start <= j < slash ==> chars@[j] != '/',
                slashes == 1 ==> forall|j: int| start <= j < k && j != slash ==> chars@[j] != '/',
                slashes >= 2 ==> exists|a: int, b: int| start <= a < b < k && chars@[a] == '/' && chars@[b] == '/',
            decreases end - k,
        {
            if chars[k] == '/' {
                if slashes == 0 {
                    slash = k;
                }
                if slashes == 1 {
                    assert(start <= slash < k && chars@[slash as int] == '/' && chars@[k as int] == '/');
                }
                slashes = slashes + 1;
            }
            k = k + 1;
        }
        if slashes == 1 {
            let owner = chars_range_to_string(&chars, start, slash);
            let name = chars_range_to_string(&chars, slash + 1, end);
            let ghost kk = slash - start;
            assert(single_slash_at(p, kk));
            assert(owner@ =~= p.take(kk));
            assert(name@ =~= p.skip(kk + 1));
            Ok(Repository { owner, name })
        } else {
            proof {
                if exists|q: int| single_slash_at(p, q) {
                    let q = choose|q: int| single_slash_at(p, q);
                    if slashes == 0 {
                        assert(chars@[start + q] == p[q]);
                    } else {
                        let (a, b) = choose|a: int, b: int| start <= a < b < end && chars@[a] == '/' && chars@[b] == '/';
                        assert(p[a - start] == '/');
                        assert(p[b - start] == '/');
                    }
                }
            }
            Err(RequestError::InvalidRepositoryUrl)
        }
    }
}

/// The headers of a request to the GitHub API.
pub fn prepare_github_request(pat: &str) -> (res: Vec<(String, String)>)
    ensures
        pair_views(res@) == spec_request_headers(pat@, false),
{
    github_headers(pat, false)
}

/// The request for an endpoint of a repository given by its web address.
pub fn make_request(endpoint: RequestEndpoint, repository_url: &str, pat: &str) -> (res: Result<Request, RequestError>)
    requires
        spec_contains(repository_url@, "github.com"@) ==> spec_contains(trim_end_all(repository_url@, ".git"@), "github.com/"@),
        !spec_contains(repository_url@, "github.com"@) ==> !spec_contains(repository_url@, "gitlab.com"@),
    ensures
        !spec_contains(repository_url@, "github.com"@) ==> res matches Err(RequestError::InvalidRepositoryUrl),
        spec_contains(repository_url@, "github.com"@) ==> ({
            let p = repository_path(repository_url@);
            &&& (exists|k: int| single_slash_at(p, k)) ==> (res matches Ok(r) && r.method == HttpMethod::Get
                && pair_views(r.headers@) == spec_request_headers(pat@, false) && exists|k: int|
                single_slash_at(p, k) && r.url@ == "https://api.github.com/repos/"@ + p.take(k) + "/"@ + p.skip(k + 1))
            &&& !(exists|k: int| single_slash_at(p, k)) ==> res matches Err(RequestError::InvalidRepositoryUrl)
        }),
{
    let repository = Repository::try_from(String::from_str(repository_url))?;
    let mut url = String::from_str("https://api.github.com/repos/");
    url.append(repository.owner.as_str());
    url.append("/");
    url.append(repository.name.as_str());
    let headers = prepare_github_request(pat);
    match endpoint {
        RequestEndpoint::Meta => Ok(Request { method: HttpMethod::Get, url, headers }),
    }
}

} // verus!
