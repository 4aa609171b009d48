//! Archive entries: the names files are stored under and the metadata kept
//! about each archived folder.

use vstd::prelude::*;
use vstd::string::*;
use crate::backup::structures::{BackupFile, BackupMetadata, FileBackupMetadata, FolderBackupMetadata};
use crate::backup::utility::{replace_recursive, replacement_terminates, spec_replace_recursive};
use crate::entries::{entries_map, insert_entry, keys_distinct};
use crate::ids::{create_id, is_id_char};

verus! {

/// The name a file is stored under in an archive: `..`, `:` and `?` removed,
/// `//` and `/./` collapsed to `/`, and `\` turned into `/`, each until it no
/// longer occurs, in that order.
pub open spec fn spec_entry_name(path: Seq<char>) -> Seq<char> {
    let a = spec_replace_recursive(path, ".."@, ""@);
    let b = spec_replace_recursive(a, ":"@, ""@);
    let c = spec_replace_recursive(b, "//"@, "/"@);
    let d = spec_replace_recursive(c, "/./"@, "/"@);
    let e = spec_replace_recursive(d, "?"@, ""@);
    spec_replace_recursive(e, "\\"@, "/"@)
}

/// The name a file is stored under in an archive.
pub fn entry_name(path: String) -> (res: String)
    ensures
        res@ == spec_entry_name(path@),
{
    proof {
        reveal_strlit("..");
        reveal_strlit(":");
        reveal_strlit("//");
        reveal_strlit("/./");
        reveal_strlit("?");
        reveal_strlit("\\");
        reveal_strlit("/");
        reveal_strlit("");
        assert(!"/"@.contains('\\'));
        assert(!""@.contains('?'));
        assert(!""@.contains(':'));
    }
    let name = replace_recursive(path, "..", "");
    let name = replace_recursive(name, ":", "");
    let name = replace_recursive(name, "//", "/");
    let name = replace_recursive(name, "/./", "/");
    let name = replace_recursive(name, "?", "");
    replace_recursive(name, "\\", "/")
}

/// The reverse lookup after filing every file of `files`, by its content hash,
/// under `folder`.
pub open spec fn with_lookups(
    m: Map<Seq<char>, String>,
    files: Seq<(String, FileBackupMetadata)>,
    folder: String,
) -> Map<Seq<char>, String>
    decreases files.len(),
{
    if files.len() == 0 {
        m
    } else {
        with_lookups(m, files.drop_last(), folder).insert(files.last().1.hash@, folder)
    }
}

impl FolderBackupMetadata {
    /// The metadata of an archived folder with no files yet.
    pub fn new(id: String, original_path: String) -> (res: Self)
        ensures
            res.id == id,
            res.original_path == original_path,
            res.size == 0,
            res.files@.len() == 0,
    {
        FolderBackupMetadata { id, original_path, size: 0, files: Vec::new() }
    }

    /// Records a file stored in the folder's archive under a fresh identifier:
    /// its entry name, size, time, hash and duplicates. The folder's size grows
    /// by the file's size. Returns the identifier.
    pub fn add_file(&mut self, file: BackupFile) -> (file_id: String)
        requires
            keys_distinct(old(self).files@),
            old(self).size + file.size <= u64::MAX,
        ensures
            keys_distinct(final(self).files@),
            final(self).id == old(self).id,
            final(self).original_path == old(self).original_path,
            final(self).size == old(self).size + file.size,
            2 <= file_id@.len() <= 24,
            forall|i: int| 0 <= i < file_id@.len() ==> is_id_char(#[trigger] file_id@[i]),
            entries_map(final(self).files@).dom() == entries_map(old(self).files@).dom().insert(file_id@),
            ({
                let m = entries_map(final(self).files@)[file_id@];
                &&& m.id == file_id
                &&& m.original_path@ == spec_entry_name(file.path@)
                &&& m.size == file.size
                &&& m.last_updated == file.last_updated
                &&& m.hash == file.hash
                &&& m.duplicates == file.duplicates
            }),
            forall|k: Seq<char>|
                k != file_id@ && #[trigger] entries_map(old(self).files@).dom().contains(k) ==> entries_map(
                    final(self).files@,
                )[k] == entries_map(old(self).files@)[k],
    {
        let name = entry_name(file.path.clone());
        let file_id = create_id();
        self.size = self.size + file.size;
        let meta = FileBackupMetadata {
            id: file_id.clone(),
            original_path: name,
            size: file.size,
            last_updated: file.last_updated,
            hash: file.hash,
            duplicates: file.duplicates,
        };
        insert_entry(&mut self.files, file_id.clone(), meta);
        file_id
    }
}

impl BackupMetadata {
    /// Files a folder in the tree under its identifier and points the content
    /// hash of every file of the folder to it in the reverse lookup.
    pub fn register_folder(&mut self, folder: FolderBackupMetadata)
        requires
            keys_distinct(old(self).tree@),
            keys_distinct(old(self).reverse_lookup@),
        ensures
            keys_distinct(final(self).tree@),
            keys_distinct(final(self).reverse_lookup@),
            entries_map(final(self).tree@) == entries_map(old(self).tree@).insert(folder.id@, folder),
            entries_map(final(self).reverse_lookup@) == with_lookups(
                entries_map(old(self).reverse_lookup@),
                folder.files@,
                folder.id,
            ),
            final(self).snapped_at == old(self).snapped_at,
            final(self).encrypted == old(self).encrypted,
            final(self).key == old(self).key,
            final(self).stats == old(self).stats,
            final(self).parts == old(self).parts,
            final(self).mode == old(self).mode,
            final(self).previous_backup == old(self).previous_backup,
    {
        let folder_id = folder.id.clone();
        let mut i: usize = 0;
        while i < folder.files.len()
            invariant
                i <= folder.files@.len(),
                folder_id == folder.id,
                keys_distinct(self.reverse_lookup@),
                entries_map(self.reverse_lookup@) == with_lookups(
                    entries_map(old(self).reverse_lookup@),
                    folder.files@.take(i as int),
                    folder.id,
                ),
                self.tree == old(self).tree,
                self.snapped_at == old(self).snapped_at,
                self.encrypted == old(self).encrypted,
                self.key == old(self).key,
                self.stats == old(self).stats,
                self.parts == old(self).parts,
                self.mode == old(self).mode,
                self.previous_backup == old(self).previous_backup,
            decreases folder.files@.len() - i,
        {
            let file_key = folder.files[i].1.hash.clone();
            insert_entry(&mut self.reverse_lookup, file_key, folder_id.clone());
            assert(folder.files@.take(i + 1).drop_last() =~= folder.files@.take(i as int));
            i = i + 1;
        }
        assert(folder.files@.take(folder.files@.len() as int) =~= folder.files@);
        insert_entry(&mut self.tree, folder_id, folder);
    }
}

/// Some file of the folder has content hash `h`.
pub open spec fn holds_hash(folder: FolderBackupMetadata, h: Seq<char>) -> bool {
    exists|i: int| 0 <= i < folder.files@.len() && folder.files@[i].1.hash@ == h
}

/// The reverse lookup agrees with the tree: every hash it holds points to a
/// folder of the tree that holds a file with that hash, and the hash of every
/// file of the tree is in it.
pub open spec fn lookup_consistent(tree: Map<Seq<char>, FolderBackupMetadata>, lookup: Map<Seq<char>, String>) -> bool {
    &&& forall|h: Seq<char>|
        #[trigger] lookup.dom().contains(h) ==> tree.dom().contains(lookup[h]@) && holds_hash(tree[lookup[h]@], h)
    &&& forall|k: Seq<char>, i: int|
        #![trigger tree[k].files@[i]]
        tree.dom().contains(k) && 0 <= i < tree[k].files@.len() ==> lookup.dom().contains(tree[k].files@[i].1.hash@)
}

proof fn lemma_with_lookups(m: Map<Seq<char>, String>, files: Seq<(String, FileBackupMetadata)>, folder: String, h: Seq<char>)
    ensures
        with_lookups(m, files, folder).dom().contains(h) <==> (m.dom().contains(h) || exists|i: int|
            0 <= i < files.len() && files[i].1.hash@ == h),
        (exists|i: int| 0 <= i < files.len() && files[i].1.hash@ == h) ==> with_lookups(m, files, folder)[h] == folder,
        !(exists|i: int| 0 <= i < files.len() && files[i].1.hash@ == h) ==> with_lookups(m, files, folder)[h] == m[h],
    decreases files.len(),
{
    if files.len() > 0 {
        let init = files.drop_last();
        lemma_with_lookups(m, init, folder, h);
        if exists|i: int| 0 <= i < init.len() && init[i].1.hash@ == h {
            let i = choose|i: int| 0 <= i < init.len() && init[i].1.hash@ == h;
            assert(files[i] == init[i]);
        }
        if exists|i: int| 0 <= i < files.len() && files[i].1.hash@ == h {
            let i = choose|i: int| 0 <= i < files.len() && files[i].1.hash@ == h;
            if i < files.len() - 1 {
                assert(init[i] == files[i]);
            }
        }
    }
}

/// Law: registering a folder under an identifier the tree does not hold yet
/// keeps the reverse lookup consistent with the tree.
pub proof fn law_registration_keeps_lookup_consistent(
    tree: Map<Seq<char>, FolderBackupMetadata>,
    lookup: Map<Seq<char>, String>,
    folder: FolderBackupMetadata,
)
    requires
        lookup_consistent(tree, lookup),
        !tree.dom().contains(folder.id@),
    ensures
        lookup_consistent(tree.insert(folder.id@, folder), with_lookups(lookup, folder.files@, folder.id)),
{
    let t2 = tree.insert(folder.id@, folder);
    let l2 = with_lookups(lookup, folder.files@, folder.id);
    assert forall|h: Seq<char>| #[trigger] l2.dom().contains(h) implies t2.dom().contains(l2[h]@) && holds_hash(
        t2[l2[h]@],
        h,
    ) by {
        lemma_with_lookups(lookup, folder.files@, folder.id, h);
        if exists|i: int| 0 <= i < folder.files@.len() && folder.files@[i].1.hash@ == h {
            assert(t2[folder.id@] == folder);
        } else {
            assert(lookup.dom().contains(h));
            assert(l2[h] == lookup[h]);
            assert(tree.dom().contains(lookup[h]@));
            assert(lookup[h]@ != folder.id@);
            assert(t2[lookup[h]@] == tree[lookup[h]@]);
        }
    }
    assert forall|k: Seq<char>, i: int|
        #![trigger t2[k].files@[i]]
        t2.dom().contains(k) && 0 <= i < t2[k].files@.len() implies l2.dom().contains(t2[k].files@[i].1.hash@) by {
        let h = t2[k].files@[i].1.hash@;
        lemma_with_lookups(lookup, folder.files@, folder.id, h);
        if k == folder.id@ {
            assert(t2[k] == folder);
        } else {
            assert(t2[k] == tree[k]);
            assert(lookup.dom().contains(tree[k].files@[i].1.hash@));
        }
    }
}

} // verus!
