//! Checks made while restoring: which provider holds a part, and whether a
//! downloaded part is intact.

use vstd::prelude::*;
use vstd::string::*;
use crate::hash::{sha3, spec_sha3};
use crate::storage_providers::github::{secret_url, Provider};
use crate::storage_providers::provider::StorageProvider;

verus! {

/// The provider at `i` is the first whose secret address is `url`.
pub open spec fn first_with_secret_url(providers: Seq<Provider>, url: Seq<char>, i: int) -> bool {
    &&& 0 <= i < providers.len()
    &&& secret_url(providers[i].owner(), providers[i].repo()) == url
    &&& forall|j: int| 0 <= j < i ==> secret_url(providers[j].owner(), providers[j].repo()) != url
}

/// Finds the active provider a part's recorded address names: the first
/// provider whose secret address is that address, if any.
pub fn find_active_provider<'a>(providers: &'a Vec<Provider>, url: &str) -> (res: Option<&'a Provider>)
    ensures
        res matches Some(p) ==> exists|i: int| first_with_secret_url(providers@, url@, i) && *p == providers@[i],
        res is None ==> forall|j: int|
            0 <= j < providers@.len() ==> secret_url((#[trigger] providers@[j]).owner(), providers@[j].repo()) != url@,
{
    let wanted = String::from_str(url);
    let mut i: usize = 0;
    while i < providers.len()
        invariant
            i <= providers@.len(),
            wanted@ == url@,
            forall|j: int| 0 <= j < i ==> secret_url((#[trigger] providers@[j]).owner(), providers@[j].repo()) != url@,
        decreases providers@.len() - i,
    {
        let provider = &providers[i];
        if provider.to_secret_url() == wanted {
            assert(first_with_secret_url(providers@, url@, i as int));
            return Some(provider);
        }
        i = i + 1;
    }
    None
}

/// Checks the signature of the data: the SHA3-256 hexadecimal digest of the
/// data equals the signature.
pub fn check_signature(signature: &str, data: &[u8]) -> (res: bool)
    ensures
        res == (spec_sha3(data@) == signature@),
{
    let to_check = sha3(data);
    to_check == String::from_str(signature)
}

} // verus!
