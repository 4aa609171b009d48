use gitup::backup::errors::BackupError;
use gitup::backup::structures::BackupPart;
use gitup::restore::recover_and_verify::part_provider_url;
use gitup::restore::utility::find_active_provider;
use gitup::storage_providers::github::{
    HttpMethod, Provider, RepositoryWarning, RequestEndpoint, UsefulMetadata, MAX_REPOSITORY_SIZE,
};
use gitup::storage_providers::provider::{check_downloaded_size, CreatableStorageProvider, ProviderError, StorageProvider};
use gitup::storage_providers::{init_providers, provider_names};

const URL: &str = "gitup://ghp_token:github/octo/backups";

fn header<'a>(headers: &'a [(String, String)], name: &str) -> &'a str {
    headers.iter().find(|(k, _)| k == name).map(|(_, v)| v.as_str()).unwrap()
}

#[test]
fn provider_urls_are_recognized() {
    assert!(Provider::is_provider_url(URL));
    assert!(Provider::is_provider_url("gitup://a:github/b/c/d"));
    assert!(!Provider::is_provider_url("gitup://a:gitlab/b/c"));
    assert!(!Provider::is_provider_url("gitup://:github/b/c"));
    assert!(!Provider::is_provider_url("https://github.com/o/r"));
    assert!(Provider::is_provider_url("see gitup://a:github/b/c"));
    assert!(!Provider::is_provider_url("gitup://a:github/b/"));
    assert!(!Provider::is_provider_url("gitup://a:github/b"));
    assert!(!Provider::is_provider_url("gitup://a:b:github/c/d"));
}

#[test]
fn provider_is_built_from_its_url() {
    let p = Provider::new(URL).unwrap();
    assert_eq!(p.name(), "GitHub");
    assert_eq!(p.url(), "gitup://<auth-token>:github/<owner>/<repo>");
    assert_eq!(p.to_secret_url(), "gitup://****:github/octo/backups");
    assert_eq!(p.to_string(), "GitHub (gitup://****:github/octo/backups)");
    assert_eq!(p.get_available_space(), MAX_REPOSITORY_SIZE);
    assert_eq!(MAX_REPOSITORY_SIZE, 1024 * 1024 * 1024);
    let nested = Provider::new("gitup://t:github/o/r/more").unwrap();
    assert_eq!(nested.to_secret_url(), "gitup://****:github/o/r/more");
    let lines = Provider::new("x gitup://t:github/o/r\nrest").unwrap();
    assert_eq!(lines.to_secret_url(), "gitup://****:github/o/r");
    let later = Provider::new("gitup://bad gitup://t:github/o/r").unwrap();
    assert_eq!(later.to_secret_url(), "gitup://****:github/o/r");
}

#[test]
fn invalid_provider_url_is_refused() {
    assert!(matches!(Provider::new("gitup://t:gitlab/o/r"), Err(ProviderError::InvalidProviderUrl)));
}

#[test]
fn init_providers_refuses_the_first_unknown_address() {
    let urls = vec![URL.to_string(), "gitup://t:mega/x".to_string(), "nope".to_string()];
    match init_providers(&urls) {
        Err(ProviderError::UnknownProvider(u)) => assert_eq!(u, "gitup://t:mega/x"),
        other => panic!("unexpected {:?}", other),
    }
    let ok = init_providers(&vec![URL.to_string(), "gitup://b:github/x/y".to_string()]).unwrap();
    assert_eq!(ok.len(), 2);
    assert_eq!(ok[1].to_secret_url(), "gitup://****:github/x/y");
    assert_eq!(init_providers(&Vec::new()).unwrap().len(), 0);
    assert_eq!(provider_names(), vec!["GitHub".to_string()]);
}

#[test]
fn provider_error_messages() {
    assert_eq!(
        ProviderError::UnknownProvider("x".to_string()).message(),
        "The provider is invalid or not supported, provider: x"
    );
    assert_eq!(
        ProviderError::InvalidProviderUrl.message(),
        "The provider URL is invalid and cannot be parsed"
    );
    assert_eq!(ProviderError::GenericError("e".to_string()).message(), "Generic error: e");
}

#[test]
fn requests_to_the_api() {
    let p = Provider::new(URL).unwrap();
    let meta = p.make_request(RequestEndpoint::Meta, "");
    assert_eq!(meta.method, HttpMethod::Get);
    assert_eq!(meta.url, "https://api.github.com/repos/octo/backups");
    assert_eq!(header(&meta.headers, "Accept"), "application/vnd.github+json");
    assert_eq!(header(&meta.headers, "Authorization"), "Bearer ghp_token");
    assert_eq!(header(&meta.headers, "User-Agent"), "Gitup daemon");
    assert_eq!(header(&meta.headers, "X-GitHub-Api-Version"), "2022-11-28");
    let commit = p.make_request(RequestEndpoint::Commit, "abc.gitup.part1");
    assert_eq!(commit.method, HttpMethod::Put);
    assert_eq!(commit.url, "https://api.github.com/repos/octo/backups/contents/abc.gitup.part1");
    let content = p.make_request(RequestEndpoint::Content, "abc.gitup.part1");
    assert_eq!(content.method, HttpMethod::Get);
    assert_eq!(header(&content.headers, "Accept"), "application/vnd.github.raw+json");
}

#[test]
fn repository_metadata_is_checked() {
    let meta = |archived, disabled, visibility: &str, size| UsefulMetadata {
        archived,
        disabled,
        visibility: visibility.to_string(),
        size,
    };
    let mut p = Provider::new(URL).unwrap();
    let (w, r) = p.apply_repository_metadata(&meta(false, false, "Private", 1024));
    assert!(w.is_empty());
    assert!(r.is_ok());
    assert_eq!(p.get_available_space(), MAX_REPOSITORY_SIZE - 1024 * 1024);

    let mut p = Provider::new(URL).unwrap();
    let (w, r) = p.apply_repository_metadata(&meta(false, false, "PUBLIC", 800 * 1024));
    assert_eq!(w, vec![RepositoryWarning::Public, RepositoryWarning::NearSizeLimit]);
    assert!(r.is_ok());

    let mut p = Provider::new(URL).unwrap();
    let (w, r) = p.apply_repository_metadata(&meta(true, false, "public", 0));
    assert!(w.is_empty());
    match r {
        Err(ProviderError::PreconditionsFailed(m)) => assert_eq!(m, "Repository archived, cannot continue"),
        other => panic!("unexpected {:?}", other),
    }
    assert_eq!(p.get_available_space(), MAX_REPOSITORY_SIZE);

    let mut p = Provider::new(URL).unwrap();
    let (_, r) = p.apply_repository_metadata(&meta(false, true, "private", 0));
    match r {
        Err(ProviderError::PreconditionsFailed(m)) => assert_eq!(m, "Repository disabled, cannot continue"),
        other => panic!("unexpected {:?}", other),
    }

    let mut p = Provider::new(URL).unwrap();
    let (w, r) = p.apply_repository_metadata(&meta(false, false, "public", 1024 * 1024 + 1));
    assert_eq!(w, vec![RepositoryWarning::Public]);
    match r {
        Err(ProviderError::PreconditionsFailed(m)) => assert_eq!(m, "Repository size exceeds 1GB, cannot continue"),
        other => panic!("unexpected {:?}", other),
    }
    assert_eq!(p.get_available_space(), MAX_REPOSITORY_SIZE);
}

#[test]
fn commit_data_carries_base64_content() {
    let p = Provider::new(URL).unwrap();
    let c = p.commit_data(b"Hello, World!").unwrap();
    assert_eq!(c.message, "Gitup backup");
    assert_eq!(c.content, "SGVsbG8sIFdvcmxkIQ==");
}

#[test]
fn part_provider_description_gives_back_the_secret_url() {
    let p = Provider::new(URL).unwrap();
    let part = BackupPart {
        size: 1,
        path: "x".to_string(),
        signature: String::new(),
        provider: p.to_string(),
    };
    let url = part_provider_url(&part).unwrap();
    assert_eq!(url, p.to_secret_url());
    let providers = vec![p.clone(), Provider::new("gitup://b:github/x/y").unwrap()];
    let found = find_active_provider(&providers, &url).unwrap();
    assert_eq!(found.to_secret_url(), "gitup://****:github/octo/backups");
    assert!(find_active_provider(&providers, URL).is_none());
    let second = find_active_provider(&providers, "gitup://****:github/x/y").unwrap();
    assert_eq!(second.to_secret_url(), "gitup://****:github/x/y");
    assert!(find_active_provider(&providers, "gitup://****:github/x/z").is_none());
    assert!(find_active_provider(&Vec::new(), &url).is_none());

    let bad = BackupPart { provider: "no address".to_string(), ..part.clone() };
    assert!(matches!(part_provider_url(&bad), Err(BackupError::InvalidSnapshotFile)));
    let nested = BackupPart { provider: "A (b (c) d)".to_string(), ..part.clone() };
    assert_eq!(part_provider_url(&nested).unwrap(), "c) d");
    let lines = BackupPart { provider: "(x)\nName (addr)".to_string(), ..part.clone() };
    assert_eq!(part_provider_url(&lines).unwrap(), "addr");
    let empty = BackupPart { provider: "Name ()".to_string(), ..part };
    assert!(matches!(part_provider_url(&empty), Err(BackupError::InvalidSnapshotFile)));
}

#[test]
fn provider_info_lines() {
    assert_eq!(
        Provider::provider_info(),
        vec![
            "Provider: GitHub".to_string(),
            "\t- URL: gitup://<auth-token>:github/<owner>/<repo>".to_string()
        ]
    );
}

#[test]
fn downloaded_size_is_checked() {
    assert!(check_downloaded_size(b"abc", 3).is_ok());
    match check_downloaded_size(b"abc", 4) {
        Err(ProviderError::PreconditionsFailed(m)) => {
            assert_eq!(m, "The downloaded file size does not match the expected size")
        },
        other => panic!("unexpected {:?}", other),
    }
}
