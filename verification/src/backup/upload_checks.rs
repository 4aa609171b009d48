//! Checks made before uploading a backup.

use vstd::prelude::*;
use crate::backup::errors::BackupError;
use crate::storage_providers::github::Provider;
use crate::storage_providers::provider::StorageProvider;

verus! {

/// The space left on all the providers together.
pub open spec fn total_space(providers: Seq<Provider>) -> nat
    decreases providers.len(),
{
    if providers.len() == 0 {
        0
    } else {
        total_space(providers.drop_last()) + providers.last().available() as nat
    }
}

proof fn lemma_total_space_prefix(providers: Seq<Provider>, i: int)
    requires
        0 <= i <= providers.len(),
    ensures
        total_space(providers.take(i)) <= total_space(providers),
    decreases providers.len(),
{
    if i < providers.len() {
        assert(providers.drop_last().take(i) =~= providers.take(i));
        lemma_total_space_prefix(providers.drop_last(), i);
    } else {
        assert(providers.take(i) =~= providers);
    }
}

/// Checks that the providers together have room for `size` bytes.
pub fn check_available_size(providers: &Vec<Provider>, size: u64) -> (res: Result<(), BackupError>)
    requires
        total_space(providers@) <= u64::MAX,
    ensures
        res is Ok <==> size <= total_space(providers@),
        res is Err ==> res matches Err(BackupError::NotEnoughSpace),
{
    let mut available_size: u64 = 0;
    let mut i: usize = 0;
    while i < providers.len()
        invariant
            i <= providers@.len(),
            total_space(providers@) <= u64::MAX,
            available_size == total_space(providers@.take(i as int)),
        decreases providers@.len() - i,
    {
        proof {
            lemma_total_space_prefix(providers@, i + 1);
            assert(providers@.take(i + 1).drop_last() =~= providers@.take(i as int));
        }
        available_size = available_size + providers[i].get_available_space();
        i = i + 1;
    }
    assert(providers@.take(i as int) =~= providers@);
    if available_size < size {
        return Err(BackupError::NotEnoughSpace);
    }
    Ok(())
}

} // verus!
