//! Storage providers: where backup parts are stored, and how their addresses
//! are read.

pub mod provider;
pub mod github;

use vstd::prelude::*;
use crate::addresses::spec_parse_github_url;
use crate::storage_providers::github::{Provider, MAX_REPOSITORY_SIZE};
use crate::storage_providers::provider::{CreatableStorageProvider, ProviderError, StorageProvider};

verus! {

/// `p` is the provider that the address `url` describes, with all its space
/// still available.
pub open spec fn provider_of(p: Provider, url: Seq<char>) -> bool {
    &&& spec_parse_github_url(url) == Some((p.pat(), p.owner(), p.repo()))
    &&& p.available() == MAX_REPOSITORY_SIZE
}

/// The address at `i` is the first that no provider accepts.
pub open spec fn first_unknown(urls: Seq<String>, i: int) -> bool {
    &&& 0 <= i < urls.len()
    &&& spec_parse_github_url(urls[i]@) is None
    &&& forall|j: int| 0 <= j < i ==> spec_parse_github_url(#[trigger] urls[j]@) is Some
}

/// Initializes a storage provider for each address, in order. The first
/// address that no provider accepts is refused as an unknown provider.
pub fn init_providers(providers: &Vec<String>) -> (res: Result<Vec<Provider>, ProviderError>)
    ensures
        res is Ok <==> forall|i: int| 0 <= i < providers@.len() ==> spec_parse_github_url(#[trigger] providers@[i]@) is Some,
        res matches Ok(v) ==> v@.len() == providers@.len() && forall|i: int|
            0 <= i < providers@.len() ==> provider_of(#[trigger] v@[i], providers@[i]@),
        res matches Err(e) ==> exists|i: int| first_unknown(providers@, i) && e == ProviderError::UnknownProvider(providers@[i]),
{
    let mut provider_list: Vec<Provider> = Vec::new();
    let mut i: usize = 0;
    while i < providers.len()
        invariant
            i <= providers@.len(),
            provider_list@.len() == i,
            forall|j: int| 0 <= j < i ==> spec_parse_github_url(#[trigger] providers@[j]@) is Some,
            forall|j: int| 0 <= j < i ==> provider_of(#[trigger] provider_list@[j], providers@[j]@),
        decreases providers@.len() - i,
    {
        let url = &providers[i];
        if Provider::is_provider_url(url.as_str()) {
            match Provider::new(url.as_str()) {
                Ok(p) => provider_list.push(p),
                Err(e) => return Err(e),
            }
        } else {
            let unknown = url.clone();
            assert(first_unknown(providers@, i as int));
            return Err(ProviderError::UnknownProvider(unknown));
        }
        i = i + 1;
    }
    Ok(provider_list)
}

/// The names of the storage providers this daemon supports.
pub fn provider_names() -> (res: Vec<String>)
    ensures
        res@.len() == 1,
        res@[0]@ == "GitHub"@,
{
    let mut names: Vec<String> = Vec::new();
    let github = Provider::default();
    names.push(String::from_str(github.name()));
    names
}

} // verus!
