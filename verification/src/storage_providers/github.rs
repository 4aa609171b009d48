//! The GitHub storage provider: a repository whose contents hold the backup
//! parts, reached through the GitHub REST API.

use vstd::prelude::*;
use crate::text::pair_views;
use vstd::string::*;
use crate::base64::{crypt_error_message, spec_encode, wrapped, CryptError, Encoder, Variant};
use crate::text::ascii_chars;
use crate::byte_size::{GIGABYTE, KILOBYTE, MEGABYTE};
use crate::addresses::{
    free_of, github_url, law_description_names_the_address, law_github_url_reads_back, law_parsed_parts_are_well_formed,
    parse_github_url, spec_described_address, spec_parse_github_url, well_formed_parts,
};
use crate::storage_providers::provider::{CreatableStorageProvider, ProviderError, StorageProvider};
use crate::text::{lowercase, to_lowercase};

verus! {

/// The most a repository may hold.
pub const MAX_REPOSITORY_SIZE: u64 = 1 * GIGABYTE;

/// The repository size from which a warning is given.
pub const WARNING_REPOSITORY_SIZE: u64 = 750 * MEGABYTE;

/// The endpoints of the GitHub API that the provider requests.
#[derive(Debug, Clone, Copy, PartialEq, Eq, Structural)]
pub enum RequestEndpoint {
    /// The repository's metadata
    Meta,
    /// Commit endpoint, upload data to the repository
    Commit,
    /// Download endpoint, download data from the repository
    Content,
}

/// The HTTP methods the provider uses.
#[derive(Debug, Clone, Copy, PartialEq, Eq, Structural)]
pub enum HttpMethod {
    Get,
    Put,
}

/// A request to send: its method, address and headers.
#[derive(Debug, Clone)]
pub struct Request {
    pub method: HttpMethod,
    pub url: String,
    pub headers: Vec<(String, String)>,
}

/// The metadata of a repository that the provider reads.
#[derive(Debug, Clone)]
pub struct UsefulMetadata {
    /// Whether the repository is archived
    pub archived: bool,
    /// Whether the repository is disabled
    pub disabled: bool,
    /// The repository visibility
    pub visibility: String,
    /// The repository size in kilobytes
    pub size: u64,
}

/// The data committed to the repository.
#[derive(Debug, Clone)]
pub struct CommitData {
    /// The commit message
    pub message: String,
    /// The content to commit, in base64
    pub content: String,
}

/// A warning about a repository that can still be used.
#[derive(Debug, Clone, Copy, PartialEq, Eq, Structural)]
pub enum RepositoryWarning {
    /// The repository is public
    Public,
    /// The repository holds more than 750 MB
    NearSizeLimit,
}

/// GitHub storage provider
#[derive(Debug, Clone)]
pub struct Provider {
    /// The owner of the repository
    owner: String,
    /// The repository name
    repo: String,
    /// The personal access token
    pat: String,
    /// The available space in the repository
    available_space: u64,
}

/// The secret address of a repository: the token hidden.
pub open spec fn secret_url(owner: Seq<char>, repo: Seq<char>) -> Seq<char> {
    github_url("****"@, owner, repo)
}

/// The API address of an endpoint; `path` names the file for the content
/// endpoints.
pub open spec fn spec_request_url(owner: Seq<char>, repo: Seq<char>, endpoint: RequestEndpoint, path: Seq<char>) -> Seq<char> {
    let base = "https://api.github.com/repos/"@ + owner + "/"@ + repo;
    match endpoint {
        RequestEndpoint::Meta => base,
        _ => base + "/contents/"@ + path,
    }
}

/// The headers of a request to the API, `raw` asking for a file's raw content.
pub open spec fn spec_request_headers(pat: Seq<char>, raw: bool) -> Seq<(Seq<char>, Seq<char>)> {
    seq![
        ("Accept"@, if raw { "application/vnd.github.raw+json"@ } else { "application/vnd.github+json"@ }),
        ("User-Agent"@, "Gitup daemon"@),
        ("Authorization"@, "Bearer "@ + pat),
        ("X-GitHub-Api-Version"@, "2022-11-28"@),
    ]
}

/// The size in bytes of a repository of `size` kilobytes.
pub open spec fn repository_bytes(meta: UsefulMetadata) -> int {
    meta.size * KILOBYTE
}

/// The message a refused repository is answered with, if it is refused.
pub open spec fn refusal(meta: UsefulMetadata) -> Option<Seq<char>> {
    if meta.archived {
        Some("Repository archived, cannot continue"@)
    } else if meta.disabled {
        Some("Repository disabled, cannot continue"@)
    } else if repository_bytes(meta) > GIGABYTE {
        Some("Repository size exceeds 1GB, cannot continue"@)
    } else {
        None
    }
}

/// The warnings given about a repository that is neither archived nor
/// disabled: that it is public, and that it holds more than 750 MB but no more
/// than 1 GB.
pub open spec fn spec_warnings(meta: UsefulMetadata) -> Seq<RepositoryWarning> {
    if meta.archived || meta.disabled {
        Seq::empty()
    } else {
        let public = if lowercase(meta.visibility@) == "public"@ {
            seq![RepositoryWarning::Public]
        } else {
            Seq::empty()
        };
        if WARNING_REPOSITORY_SIZE < repository_bytes(meta) <= GIGABYTE {
            public.push(RepositoryWarning::NearSizeLimit)
        } else {
            public
        }
    }
}

/// The headers of a request to the GitHub API authenticated with the token
/// `pat`, `raw` asking for a file's raw content.
pub fn github_headers(pat: &str, raw: bool) -> (res: Vec<(String, String)>)
    ensures
        pair_views(res@) == spec_request_headers(pat@, raw),
{
    let mut bearer = String::from_str("Bearer ");
    bearer.append(pat);
    let accept = if raw {
        "application/vnd.github.raw+json"
    } else {
        "application/vnd.github+json"
    };
    let mut headers: Vec<(String, String)> = Vec::new();
    headers.push((String::from_str("Accept"), String::from_str(accept)));
    headers.push((String::from_str("User-Agent"), String::from_str("Gitup daemon")));
    headers.push((String::from_str("Authorization"), bearer));
    headers.push((String::from_str("X-GitHub-Api-Version"), String::from_str("2022-11-28")));
    assert(pair_views(headers@) =~= spec_request_headers(pat@, raw));
    headers
}

impl Provider {
    /// The owner of the repository.
    pub closed spec fn owner(&self) -> Seq<char> {
        self.owner@
    }

    /// The repository name.
    pub closed spec fn repo(&self) -> Seq<char> {
        self.repo@
    }

    /// The personal access token.
    pub closed spec fn pat(&self) -> Seq<char> {
        self.pat@
    }

    /// The space left in the repository, in bytes.
    pub closed spec fn available(&self) -> u64 {
        self.available_space
    }

    /// The request for an endpoint of the repository; `path` names the file
    /// for the commit and content endpoints and is not read for the metadata.
    pub fn make_request(&self, endpoint: RequestEndpoint, path: &str) -> (res: Request)
        ensures
            res.method == (if endpoint == RequestEndpoint::Commit { HttpMethod::Put } else { HttpMethod::Get }),
            res.url@ == spec_request_url(self.owner(), self.repo(), endpoint, path@),
            pair_views(res.headers@) == spec_request_headers(self.pat(), endpoint == RequestEndpoint::Content),
    {
        let mut url = String::from_str("https://api.github.com/repos/");
        url.append(self.owner.as_str());
        url.append("/");
        url.append(self.repo.as_str());
        let method = match endpoint {
            RequestEndpoint::Meta => HttpMethod::Get,
            RequestEndpoint::Commit => {
                url.append("/contents/");
                url.append(path);
                HttpMethod::Put
            },
            RequestEndpoint::Content => {
                url.append("/contents/");
                url.append(path);
                HttpMethod::Get
            },
        };
        let headers = github_headers(self.pat.as_str(), endpoint == RequestEndpoint::Content);
        Request { method, url, headers }
    }

    /// Checks the repository's metadata, as the API gave it, and takes the
    /// repository's size from the space left. Returns the warnings to give
    /// and whether the repository can be used.
    pub fn apply_repository_metadata(&mut self, meta: &UsefulMetadata) -> (res: (Vec<RepositoryWarning>, Result<(), ProviderError>))
        requires
            !meta.archived && !meta.disabled ==> repository_bytes(*meta) <= u64::MAX,
            refusal(*meta) is None ==> repository_bytes(*meta) <= old(self).available(),
        ensures
            res.0@ == spec_warnings(*meta),
            refusal(*meta) matches Some(m) ==> (res.1 matches Err(ProviderError::PreconditionsFailed(s)) && s@ == m),
            refusal(*meta) is Some ==> final(self).available() == old(self).available(),
            refusal(*meta) is None ==> res.1 is Ok,
            refusal(*meta) is None ==> final(self).available() == old(self).available() - repository_bytes(*meta),
            final(self).owner() == old(self).owner(),
            final(self).repo() == old(self).repo(),
            final(self).pat() == old(self).pat(),
    {
        let mut warnings: Vec<RepositoryWarning> = Vec::new();
        if meta.archived {
            return (warnings, Err(ProviderError::PreconditionsFailed(String::from_str("Repository archived, cannot continue"))));
        }
        if meta.disabled {
            return (warnings, Err(ProviderError::PreconditionsFailed(String::from_str("Repository disabled, cannot continue"))));
        }
        let lowered = to_lowercase(meta.visibility.as_str());
        if lowered == String::from_str("public") {
            warnings.push(RepositoryWarning::Public);
        }
        let git_size = meta.size * KILOBYTE;
        if git_size > WARNING_REPOSITORY_SIZE && git_size <= GIGABYTE {
            warnings.push(RepositoryWarning::NearSizeLimit);
        } else if git_size > GIGABYTE {
            return (warnings, Err(ProviderError::PreconditionsFailed(String::from_str("Repository size exceeds 1GB, cannot continue"))));
        }
        self.available_space = self.available_space - git_size;
        (warnings, Ok(()))
    }

    /// The data of a commit that uploads `data`: the message `Gitup backup`
    /// and the data in standard base64. Encoding fails only where the encoded
    /// size does not fit in a machine word.
    pub fn commit_data(&self, data: &[u8]) -> (res: Result<CommitData, ProviderError>)
        ensures
            data@.len() * 4 + 2 <= usize::MAX ==> (res matches Ok(c) && c.message@ == "Gitup backup"@
                && c.content@ == ascii_chars(spec_encode(Variant::Standard, data@))),
            data@.len() * 4 + 2 > usize::MAX ==> (res matches Err(ProviderError::GenericError(m))
                && m@ == crypt_error_message(CryptError::DataTooLong(
                    if data@.len() * 4 > usize::MAX { wrapped((data@.len() * 4) as int) } else { wrapped((data@.len() * 4 + 2) as int) },
                ))),
    {
        match Encoder::new(Variant::Standard).encode(data) {
            Ok(content) => Ok(CommitData { message: String::from_str("Gitup backup"), content }),
            Err(e) => Err(ProviderError::GenericError(e.message())),
        }
    }

    /// How the provider shows itself: its name and secret address.
    pub fn to_string(&self) -> (res: String)
        ensures
            res@ == "GitHub ("@ + secret_url(self.owner(), self.repo()) + ")"@,
    {
        let mut s = String::from_str("GitHub (");
        s.append(self.to_secret_url().as_str());
        s.append(")");
        s
    }
}

impl Provider {
    /// What the provider list shows of this kind of provider: its name and
    /// address format.
    pub fn provider_info() -> (res: Vec<String>)
        ensures
            res@.len() == 2,
            res@[0]@ == "Provider: GitHub"@,
            res@[1]@ == "\t- URL: gitup://<auth-token>:github/<owner>/<repo>"@,
    {
        let instance = Provider::default();
        let mut name = String::from_str("Provider: ");
        name.append(instance.name());
        let mut url = String::from_str("\t- URL: ");
        url.append(instance.url());
        let mut lines: Vec<String> = Vec::new();
        lines.push(name);
        lines.push(url);
        proof {
            reveal_strlit("Provider: ");
            reveal_strlit("GitHub");
            reveal_strlit("Provider: GitHub");
            reveal_strlit("\t- URL: ");
            reveal_strlit("gitup://<auth-token>:github/<owner>/<repo>");
            reveal_strlit("\t- URL: gitup://<auth-token>:github/<owner>/<repo>");
        }
        assert(lines@[0]@ =~= "Provider: GitHub"@);
        assert(lines@[1]@ =~= "\t- URL: gitup://<auth-token>:github/<owner>/<repo>"@);
        lines
    }
}

impl Default for Provider {
    fn default() -> (res: Self)
        ensures
            res.owner() == Seq::<char>::empty(),
            res.repo() == Seq::<char>::empty(),
            res.pat() == Seq::<char>::empty(),
            res.available() == 0,
    {
        Provider { owner: String::new(), repo: String::new(), pat: String::new(), available_space: 0 }
    }
}

impl StorageProvider for Provider {
    fn name(&self) -> (res: &'static str)
        ensures
            res@ == "GitHub"@,
    {
        "GitHub"
    }

    fn url(&self) -> (res: &'static str)
        ensures
            res@ == "gitup://<auth-token>:github/<owner>/<repo>"@,
    {
        "gitup://<auth-token>:github/<owner>/<repo>"
    }

    fn to_secret_url(&self) -> (res: String)
        ensures
            res@ == secret_url(self.owner(), self.repo()),
    {
        let mut s = String::from_str("gitup://");
        s.append("****");
        s.append(":github/");
        s.append(self.owner.as_str());
        s.append("/");
        s.append(self.repo.as_str());
        s
    }

    fn get_available_space(&self) -> (res: u64)
        ensures
            res == self.available(),
    {
        self.available_space
    }
}

impl CreatableStorageProvider for Provider {
    fn is_provider_url(url: &str) -> (res: bool)
        ensures
            res == spec_parse_github_url(url@) is Some,
    {
        parse_github_url(url).is_some()
    }

    fn new(url: &str) -> (res: Result<Self, ProviderError>)
        ensures
            res is Ok <==> spec_parse_github_url(url@) is Some,
            res is Err ==> res == Err::<Self, ProviderError>(ProviderError::InvalidProviderUrl),
            res matches Ok(p) ==> spec_parse_github_url(url@) == Some((p.pat(), p.owner(), p.repo()))
                && p.available() == MAX_REPOSITORY_SIZE,
    {
        match parse_github_url(url) {
            Some((pat, owner, repo)) => Ok(Provider { owner, repo, pat, available_space: MAX_REPOSITORY_SIZE }),
            None => Err(ProviderError::InvalidProviderUrl),
        }
    }
}

/// Law: for a provider made from an address, its secret address reads back as
/// its owner and repository with the token hidden as `****`, and the
/// description its parts record reads back as that secret address, provided
/// owner and repository hold no `(` and the owner no line break.
pub proof fn law_provider_addresses_read_back(url: Seq<char>, p: Provider)
    requires
        spec_parse_github_url(url) == Some((p.pat(), p.owner(), p.repo())),
        free_of(p.owner(), '('),
        free_of(p.repo(), '('),
        free_of(p.owner(), '\n'),
    ensures
        spec_parse_github_url(secret_url(p.owner(), p.repo())) == Some(("****"@, p.owner(), p.repo())),
        spec_described_address("GitHub ("@ + secret_url(p.owner(), p.repo()) + ")"@) == Some(
            secret_url(p.owner(), p.repo()),
        ),
{
    reveal_strlit("****");
    reveal_strlit("gitup://");
    reveal_strlit(":github/");
    reveal_strlit("/");
    reveal_strlit("GitHub");
    reveal_strlit(" (");
    reveal_strlit("GitHub (");
    law_parsed_parts_are_well_formed(url);
    let o = p.owner();
    let r = p.repo();
    assert(well_formed_parts("****"@, o, r));
    law_github_url_reads_back("****"@, o, r);
    let a = secret_url(o, r);
    let n = o.len() as int;
    assert forall|j: int| 0 <= j < a.len() implies a[j] != '(' && a[j] != '\n' by {
        if 20 <= j < 20 + n {
            assert(a[j] == o[j - 20]);
        } else if j > 20 + n {
            assert(a[j] == r[j - 21 - n]);
        }
    }
    assert("GitHub ("@ =~= "GitHub"@ + " ("@);
    law_description_names_the_address("GitHub"@, a);
    assert("GitHub ("@ + a + ")"@ =~= "GitHub"@ + " ("@ + a + ")"@);
}

} // verus!
