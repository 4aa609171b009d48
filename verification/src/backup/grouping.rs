//! Grouping of files by the folder they live in.

use vstd::prelude::*;
use crate::backup::structures::BackupFile;
use crate::entries::{find_key, has_key, keys_distinct};

verus! {

/// The files of `files` that live in the folder `k`, in their order.
pub open spec fn files_in_folder(files: Seq<BackupFile>, k: Seq<char>) -> Seq<BackupFile> {
    files.filter(|f: BackupFile| f.folder@ == k)
}

proof fn lemma_files_in_folder_push(files: Seq<BackupFile>, f: BackupFile, k: Seq<char>)
    ensures
        files_in_folder(files.push(f), k) == (if f.folder@ == k {
            files_in_folder(files, k).push(f)
        } else {
            files_in_folder(files, k)
        }),
{
    reveal(Seq::filter);
    assert(files.push(f).drop_last() =~= files);
}

proof fn lemma_files_in_folder_empty(files: Seq<BackupFile>, k: Seq<char>)
    requires
        forall|i: int| 0 <= i < files.len() ==> files[i].folder@ != k,
    ensures
        files_in_folder(files, k).len() == 0,
    decreases files.len(),
{
    reveal(Seq::filter);
    if files.len() > 0 {
        lemma_files_in_folder_empty(files.drop_last(), k);
    }
}

/// Groups the files by folder: one entry per folder that holds some of the
/// files, listing exactly the files of that folder in their original order.
pub fn group_files_by_folder(files: Vec<BackupFile>) -> (res: Vec<(String, Vec<BackupFile>)>)
    ensures
        keys_distinct(res@),
        forall|i: int|
            0 <= i < res@.len() ==> #[trigger] res@[i].1@ == files_in_folder(files@, res@[i].0@)
                && res@[i].1@.len() > 0,
        forall|j: int| 0 <= j < files@.len() ==> has_key(res@, #[trigger] files@[j].folder@),
{
    let ghost all = files@;
    let mut pending = files;
    let mut reversed: Vec<BackupFile> = Vec::new();
    while pending.len() > 0
        invariant
            pending@.len() <= all.len(),
            pending@ == all.take(pending@.len() as int),
            reversed@.len() == all.len() - pending@.len(),
            forall|i: int| 0 <= i < reversed@.len() ==> #[trigger] reversed@[i] == all[all.len() - 1 - i],
        decreases pending@.len(),
    {
        let file = pending.pop().unwrap();
        reversed.push(file);
        assert(pending@ =~= all.take(pending@.len() as int));
    }

    let mut grouped: Vec<(String, Vec<BackupFile>)> = Vec::new();
    while reversed.len() > 0
        invariant
            reversed@.len() <= all.len(),
            forall|i: int| 0 <= i < reversed@.len() ==> #[trigger] reversed@[i] == all[all.len() - 1 - i],
            keys_distinct(grouped@),
            forall|i: int|
                0 <= i < grouped@.len() ==> #[trigger] grouped@[i].1@ == files_in_folder(
                    all.take(all.len() - reversed@.len()),
                    grouped@[i].0@,
                ) && grouped@[i].1@.len() > 0,
            forall|j: int|
                0 <= j < all.len() - reversed@.len() ==> has_key(grouped@, #[trigger] all[j].folder@),
        decreases reversed@.len(),
    {
        let ghost done = all.take(all.len() - reversed@.len());
        let file = reversed.pop().unwrap();
        let ghost f = file;
        let ghost now = all.take(all.len() - reversed@.len());
        assert(now =~= done.push(f));
        let ghost before = grouped@;
        match find_key(&grouped, &file.folder) {
            Some(j) => {
                let (key, mut group) = grouped.remove(j);
                group.push(file);
                grouped.insert(j, (key, group));
                assert forall|i: int| 0 <= i < grouped@.len() implies #[trigger] grouped@[i].1@
                    == files_in_folder(now, grouped@[i].0@) && grouped@[i].1@.len() > 0 by {
                    lemma_files_in_folder_push(done, f, grouped@[i].0@);
                    if i < j {
                        assert(grouped@[i] == before[i]);
                    } else if i > j {
                        assert(grouped@[i] == before.remove(j as int)[i - 1]);
                        assert(grouped@[i] == before[i]);
                    }
                }
                assert forall|i: int, k: int| 0 <= i < k < grouped@.len() implies grouped@[i].0@
                    != grouped@[k].0@ by {
                    if i != j && k != j {
                        if i > j {
                            assert(grouped@[i] == before.remove(j as int)[i - 1]);
                        }
                        if k > j {
                            assert(grouped@[k] == before.remove(j as int)[k - 1]);
                        }
                    } else if i == j {
                        if k > j {
                            assert(grouped@[k] == before.remove(j as int)[k - 1]);
                        }
                    } else {
                        assert(grouped@[i] == before[i]);
                    }
                }
                assert forall|x: int| 0 <= x < all.len() - reversed@.len() implies has_key(
                    grouped@,
                    #[trigger] all[x].folder@,
                ) by {
                    if x < all.len() - reversed@.len() - 1 {
                        assert(has_key(before, all[x].folder@));
                        let w = choose|w: int| 0 <= w < before.len() && before[w].0@ == all[x].folder@;
                        if w < j {
                            assert(grouped@[w] == before[w]);
                        } else if w > j {
                            assert(grouped@[w] == before.remove(j as int)[w - 1]);
                        }
                        assert(grouped@[w].0@ == all[x].folder@);
                    } else {
                        assert(all[x] == f);
                        assert(grouped@[j as int].0@ == all[x].folder@);
                    }
                }
            },
            None => {
                let key = file.folder.clone();
                let mut group: Vec<BackupFile> = Vec::new();
                group.push(file);
                grouped.push((key, group));
                assert forall|i: int| 0 <= i < grouped@.len() implies #[trigger] grouped@[i].1@
                    == files_in_folder(now, grouped@[i].0@) && grouped@[i].1@.len() > 0 by {
                    lemma_files_in_folder_push(done, f, grouped@[i].0@);
                    if i == before.len() {
                        assert forall|y: int| 0 <= y < done.len() implies done[y].folder@ != f.folder@ by {
                            assert(all[y] == done[y]);
                            assert(has_key(before, all[y].folder@));
                        }
                        lemma_files_in_folder_empty(done, f.folder@);
                        assert(grouped@[i].1@ =~= seq![f]);
                        assert(files_in_folder(done, f.folder@).push(f) =~= seq![f]);
                    } else {
                        assert(grouped@[i] == before[i]);
                    }
                }
                assert forall|x: int| 0 <= x < all.len() - reversed@.len() implies has_key(
                    grouped@,
                    #[trigger] all[x].folder@,
                ) by {
                    if x < all.len() - reversed@.len() - 1 {
                        assert(has_key(before, all[x].folder@));
                        let w = choose|w: int| 0 <= w < before.len() && before[w].0@ == all[x].folder@;
                        assert(grouped@[w] == before[w]);
                    } else {
                        assert(all[x] == f);
                        assert(grouped@[before.len() as int].0@ == all[x].folder@);
                    }
                }
            },
        }
    }
    assert(all.take(all.len() as int) =~= all);
    grouped
}

} // verus!
