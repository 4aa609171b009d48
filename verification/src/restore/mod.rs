//! Restoring a backup from its snapshot: the snapshot to read, where each
//! archived file is written back, and which duplicates are copied.

pub mod utility;
pub mod recover_and_verify;

use vstd::prelude::*;
use crate::text::pair_views;
use vstd::string::*;
use crate::backup::errors::BackupError;
use crate::backup::structures::{BackupMetadata, FileBackupMetadata, FolderBackupMetadata};
use crate::configuration::Args;
use crate::text::{replace_all, spec_replace};

verus! {

/// The snapshot a restore reads; restoring needs one.
pub fn restore_source(args: &Args) -> (res: Result<String, BackupError>)
    ensures
        args.restore_from matches Some(s) ==> res == Ok::<String, BackupError>(s),
        args.restore_from is None ==> res matches Err(BackupError::RestoreFromNotSet),
{
    match &args.restore_from {
        Some(s) => Ok(s.clone()),
        None => Err(BackupError::RestoreFromNotSet),
    }
}

/// Where an archive entry is written back: under `restore/`, with `:` removed,
/// `//` and `\` turned into `/`, `?` removed and then `///` removed, each
/// replacement made once over the whole name.
pub open spec fn spec_restore_entry_path(name: Seq<char>) -> Seq<char> {
    let a = spec_replace(name, ":"@, ""@);
    let b = spec_replace(a, "//"@, "/"@);
    let c = spec_replace(b, "\\"@, "/"@);
    let d = spec_replace(c, "?"@, ""@);
    "restore/"@ + spec_replace(d, "///"@, ""@)
}

/// Where an archive entry is written back, relative to the working folder.
pub fn restore_entry_path(name: &str) -> (res: String)
    ensures
        res@ == spec_restore_entry_path(name@),
{
    proof {
        reveal_strlit(":");
        reveal_strlit("//");
        reveal_strlit("\\");
        reveal_strlit("?");
        reveal_strlit("///");
    }
    let a = replace_all(name, ":", "");
    let b = replace_all(a.as_str(), "//", "/");
    let c = replace_all(b.as_str(), "\\", "/");
    let d = replace_all(c.as_str(), "?", "");
    let e = replace_all(d.as_str(), "///", "");
    let mut res = String::from_str("restore/");
    res.append(e.as_str());
    res
}

/// The copies made for the duplicates of a file restored at `source`: each
/// duplicate restored at its own path, unless that is `source` itself.
pub open spec fn duplicate_copies_of(source: Seq<char>, dups: Seq<String>) -> Seq<(Seq<char>, Seq<char>)>
    decreases dups.len(),
{
    if dups.len() == 0 {
        Seq::empty()
    } else {
        let target = "./restore/"@ + dups.last()@;
        let before = duplicate_copies_of(source, dups.drop_last());
        if target == source {
            before
        } else {
            before.push((source, target))
        }
    }
}

/// Where each duplicate is restored, leaving out the paths equal to `source`,
/// in the order of the duplicates.
pub open spec fn copy_targets(source: Seq<char>, dups: Seq<String>) -> Seq<Seq<char>> {
    dups.map_values(|d: String| "./restore/"@ + d@).filter(|t: Seq<char>| t != source)
}

/// Law: the copies made for a file restored at `source` are exactly one copy
/// from `source` to the restore path of each of its duplicates, in order,
/// except the duplicates restored at `source` itself; so there are as many
/// copies as such duplicates.
pub proof fn law_every_duplicate_is_copied(source: Seq<char>, dups: Seq<String>)
    ensures
        duplicate_copies_of(source, dups) == copy_targets(source, dups).map_values(
            |t: Seq<char>| (source, t),
        ),
        duplicate_copies_of(source, dups).len() == copy_targets(source, dups).len(),
        forall|i: int|
            0 <= i < dups.len() && "./restore/"@ + dups[i]@ != source ==> duplicate_copies_of(
                source,
                dups,
            ).contains((source, "./restore/"@ + (#[trigger] dups[i])@)),
    decreases dups.len(),
{
    reveal(Seq::filter);
    if dups.len() > 0 {
        let init = dups.drop_last();
        law_every_duplicate_is_copied(source, init);
        let f = |d: String| "./restore/"@ + d@;
        assert(dups.map_values(f) =~= init.map_values(f).push(f(dups.last())));
        assert(dups.map_values(f).drop_last() =~= init.map_values(f));
        let g = |t: Seq<char>| (source, t);
        let ct = copy_targets(source, dups);
        let ci = copy_targets(source, init);
        if f(dups.last()) != source {
            assert(ct =~= ci.push(f(dups.last())));
            assert(ct.map_values(g) =~= ci.map_values(g).push(g(f(dups.last()))));
        } else {
            assert(ct =~= ci);
        }
        let r = duplicate_copies_of(source, dups);
        assert forall|i: int|
            0 <= i < dups.len() && "./restore/"@ + dups[i]@ != source implies r.contains(
                (source, "./restore/"@ + (#[trigger] dups[i])@),
            ) by {
            if i < dups.len() - 1 {
                assert(dups[i] == init[i]);
                let ri = duplicate_copies_of(source, init);
                assert(ri.contains((source, "./restore/"@ + init[i]@)));
                let j = choose|j: int| 0 <= j < ri.len() && ri[j] == (source, "./restore/"@ + init[i]@);
                assert(r[j] == ri[j]);
            } else {
                assert(r[r.len() - 1] == (source, "./restore/"@ + dups[i]@));
            }
        }
    } else {
        assert(copy_targets(source, dups) =~= Seq::<Seq<char>>::empty());
    }
}

/// The copies made for the files of a folder, in order.
pub open spec fn file_copies(files: Seq<(String, FileBackupMetadata)>) -> Seq<(Seq<char>, Seq<char>)>
    decreases files.len(),
{
    if files.len() == 0 {
        Seq::empty()
    } else {
        let f = files.last().1;
        file_copies(files.drop_last()) + duplicate_copies_of("./restore/"@ + f.original_path@, f.duplicates@)
    }
}

/// The copies made for the folders of a backup, in order.
pub open spec fn tree_copies(tree: Seq<(String, FolderBackupMetadata)>) -> Seq<(Seq<char>, Seq<char>)>
    decreases tree.len(),
{
    if tree.len() == 0 {
        Seq::empty()
    } else {
        tree_copies(tree.drop_last()) + file_copies(tree.last().1.files@)
    }
}

/// The copies that restore duplicated files: for each file, in the order of
/// the snapshot, a copy from where it was restored to where each of its
/// duplicates was found, both under `./restore/`.
pub fn duplicate_copies(metadata: &BackupMetadata) -> (res: Vec<(String, String)>)
    ensures
        pair_views(res@) == tree_copies(metadata.tree@),
{
    let mut out: Vec<(String, String)> = Vec::new();
    let mut i: usize = 0;
    while i < metadata.tree.len()
        invariant
            i <= metadata.tree@.len(),
            pair_views(out@) == tree_copies(metadata.tree@.take(i as int)),
        decreases metadata.tree@.len() - i,
    {
        let files = &metadata.tree[i].1.files;
        let ghost start = pair_views(out@);
        let mut j: usize = 0;
        while j < files.len()
            invariant
                j <= files@.len(),
                pair_views(out@) == start + file_copies(files@.take(j as int)),
            decreases files@.len() - j,
        {
            let file_meta = &files[j].1;
            let ghost before = pair_views(out@);
            let mut source = String::from_str("./restore/");
            source.append(file_meta.original_path.as_str());
            let mut k: usize = 0;
            while k < file_meta.duplicates.len()
                invariant
                    k <= file_meta.duplicates@.len(),
                    source@ == "./restore/"@ + file_meta.original_path@,
                    pair_views(out@) == before + duplicate_copies_of(source@, file_meta.duplicates@.take(k as int)),
                decreases file_meta.duplicates@.len() - k,
            {
                let mut target = String::from_str("./restore/");
                target.append(file_meta.duplicates[k].as_str());
                assert(file_meta.duplicates@.take(k + 1).drop_last() =~= file_meta.duplicates@.take(k as int));
                if !(source == target) {
                    let ghost prev = out@;
                    let ghost pair = (source@, target@);
                    out.push((source.clone(), target));
                    assert(pair_views(out@) =~= pair_views(prev).push(pair));
                    assert(pair_views(out@) =~= before + duplicate_copies_of(source@, file_meta.duplicates@.take(k + 1)));
                }
                k = k + 1;
            }
            assert(file_meta.duplicates@.take(file_meta.duplicates@.len() as int) =~= file_meta.duplicates@);
            assert(files@.take(j + 1).drop_last() =~= files@.take(j as int));
            assert(pair_views(out@) =~= start + file_copies(files@.take(j + 1)));
            j = j + 1;
        }
        assert(files@.take(files@.len() as int) =~= files@);
        assert(metadata.tree@.take(i + 1).drop_last() =~= metadata.tree@.take(i as int));
        i = i + 1;
    }
    assert(metadata.tree@.take(metadata.tree@.len() as int) =~= metadata.tree@);
    out
}

} // verus!
