use gitup::storage_providers::github::HttpMethod;
use gitup::web_client::{make_request, prepare_github_request, Repository, RequestEndpoint, RequestError};

#[test]
fn repository_from_github_addresses() {
    let r = Repository::try_from("https://github.com/ebalo55/gitup.git".to_string()).unwrap();
    assert_eq!(r, Repository { owner: "ebalo55".to_string(), name: "gitup".to_string() });
    let r = Repository::try_from("git@github.com/owner/repo.git.git".to_string()).unwrap();
    assert_eq!(r.owner, "owner");
    assert_eq!(r.name, "repo");
    let r = Repository::try_from("https://github.com/owner/".to_string()).unwrap();
    assert_eq!(r.owner, "owner");
    assert_eq!(r.name, "");
}

#[test]
fn repository_paths_without_one_slash_are_refused() {
    assert!(matches!(
        Repository::try_from("https://github.com/owner".to_string()),
        Err(RequestError::InvalidRepositoryUrl)
    ));
    assert!(matches!(
        Repository::try_from("https://github.com/a/b/c".to_string()),
        Err(RequestError::InvalidRepositoryUrl)
    ));
    assert!(matches!(
        Repository::try_from("https://example.com/a/b".to_string()),
        Err(RequestError::InvalidRepositoryUrl)
    ));
}

#[test]
fn meta_request_for_a_repository() {
    let req = make_request(RequestEndpoint::Meta, "https://github.com/o/r", "pat").unwrap();
    assert_eq!(req.method, HttpMethod::Get);
    assert_eq!(req.url, "https://api.github.com/repos/o/r");
    assert_eq!(req.headers, prepare_github_request("pat"));
    assert_eq!(req.headers[2], ("Authorization".to_string(), "Bearer pat".to_string()));
    assert!(matches!(
        make_request(RequestEndpoint::Meta, "https://example.com/o/r", "pat"),
        Err(RequestError::InvalidRepositoryUrl)
    ));
}
