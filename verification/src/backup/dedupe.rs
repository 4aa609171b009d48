//! Deduplication of hashed files: the first file with a given content hash is
//! kept, later ones are recorded as its duplicates.

use vstd::prelude::*;
use crate::backup::structures::{BackupFile, BackupStats};
use crate::entries::{find_key, has_key, keys_distinct};

verus! {

/// The running state of deduplication.
#[derive(Debug)]
pub struct Deduplication {
    /// The kept files, by content hash
    pub files: Vec<(String, BackupFile)>,
    /// How many files were found to duplicate a kept one
    pub duplicates: u64,
    /// The total size of the duplicates
    pub duplicate_size: u64,
    /// The total size of the kept files
    pub backup_size: u64,
}

/// `after` is the entry `before` with `path` added to its duplicates.
pub open spec fn with_duplicate(before: (String, BackupFile), after: (String, BackupFile), path: String) -> bool {
    &&& after.0 == before.0
    &&& after.1.folder == before.1.folder
    &&& after.1.path == before.1.path
    &&& after.1.size == before.1.size
    &&& after.1.last_updated == before.1.last_updated
    &&& after.1.hash == before.1.hash
    &&& after.1.duplicates@ == before.1.duplicates@.push(path)
}

/// `e` keeps a newly seen file, filed under its hash, with no duplicates yet.
pub open spec fn kept_entry(
    e: (String, BackupFile),
    path: String,
    folder: String,
    hash: String,
    size: u64,
    last_updated: u64,
) -> bool {
    &&& e.0 == hash
    &&& e.1.folder == folder
    &&& e.1.path == path
    &&& e.1.size == size
    &&& e.1.last_updated == last_updated
    &&& e.1.hash == hash
    &&& e.1.duplicates@.len() == 0
}

impl Deduplication {
    /// Each kept file is filed under its own hash, and no hash twice.
    pub open spec fn wf(&self) -> bool {
        &&& keys_distinct(self.files@)
        &&& forall|i: int| 0 <= i < self.files@.len() ==> #[trigger] self.files@[i].0@ == self.files@[i].1.hash@
    }

    /// No file recorded yet.
    pub fn new() -> (res: Self)
        ensures
            res.wf(),
            res.files@.len() == 0,
            res.duplicates == 0,
            res.duplicate_size == 0,
            res.backup_size == 0,
    {
        Deduplication { files: Vec::new(), duplicates: 0, duplicate_size: 0, backup_size: 0 }
    }

    /// Records a hashed file. A file whose hash is already kept is added to that
    /// file's duplicates and counted as a duplicate; any other file is kept, with
    /// no duplicates yet. Either way every recorded file is counted exactly once
    /// and its size goes to exactly one of the two totals.
    pub fn record(&mut self, path: String, folder: String, hash: String, size: u64, last_updated: u64)
        requires
            old(self).wf(),
            has_key(old(self).files@, hash@) ==> old(self).duplicates < u64::MAX
                && old(self).duplicate_size + size <= u64::MAX,
            !has_key(old(self).files@, hash@) ==> old(self).backup_size + size <= u64::MAX,
        ensures
            final(self).wf(),
            final(self).files@.len() + final(self).duplicates == old(self).files@.len() + old(
                self,
            ).duplicates + 1,
            final(self).backup_size + final(self).duplicate_size == old(self).backup_size + old(
                self,
            ).duplicate_size + size,
            has_key(old(self).files@, hash@) ==> exists|j: int|
                0 <= j < old(self).files@.len() && old(self).files@[j].0@ == hash@ && final(self).files@
                    == old(self).files@.update(j, final(self).files@[j]) && with_duplicate(
                    old(self).files@[j],
                    final(self).files@[j],
                    path,
                ),
            has_key(old(self).files@, hash@) ==> final(self).duplicates == old(self).duplicates + 1
                && final(self).duplicate_size == old(self).duplicate_size + size
                && final(self).backup_size == old(self).backup_size,
            !has_key(old(self).files@, hash@) ==> final(self).files@.len() == old(self).files@.len() + 1
                && final(self).files@.drop_last() == old(self).files@ && kept_entry(
                final(self).files@.last(),
                path,
                folder,
                hash,
                size,
                last_updated,
            ) && final(self).duplicates == old(self).duplicates && final(self).duplicate_size == old(
                self,
            ).duplicate_size && final(self).backup_size == old(self).backup_size + size,
    {
        match find_key(&self.files, &hash) {
            Some(j) => {
                let ghost before = self.files@;
                let (key, mut file) = self.files.remove(j);
                file.duplicates.push(path);
                self.files.insert(j, (key, file));
                assert(self.files@ =~= before.update(j as int, self.files@[j as int]));
                self.duplicates = self.duplicates + 1;
                self.duplicate_size = self.duplicate_size + size;
            },
            None => {
                let key = hash.clone();
                self.files.push(
                    (key, BackupFile { folder, path, size, last_updated, hash, duplicates: Vec::new() }),
                );
                self.backup_size = self.backup_size + size;
                assert(self.files@.drop_last() =~= old(self).files@);
            },
        }
    }

    /// Ends deduplication over `files_len` candidate files: stores the counts in
    /// `stats` (the files kept are the candidates less the duplicates; the original
    /// size is the size of all the files once restored, duplicates included) and
    /// returns the two totals with the kept files.
    pub fn finish(self, files_len: u64, stats: &mut BackupStats) -> (res: ((u64, u64), Vec<BackupFile>))
        requires
            self.duplicates <= files_len,
            self.backup_size + self.duplicate_size <= u64::MAX,
        ensures
            final(stats).duplicates == self.duplicates,
            final(stats).duplicates_size == self.duplicate_size,
            final(stats).files == files_len - self.duplicates,
            final(stats).original_size == self.backup_size + self.duplicate_size,
            final(stats).archival_size == old(stats).archival_size,
            final(stats).compressed_size == old(stats).compressed_size,
            final(stats).encrypted_size == old(stats).encrypted_size,
            final(stats).archives == old(stats).archives,
            res.0 == (self.backup_size, self.duplicate_size),
            res.1@ == self.files@.map_values(|e: (String, BackupFile)| e.1),
    {
        stats.duplicates = self.duplicates;
        stats.duplicates_size = self.duplicate_size;
        stats.files = files_len - self.duplicates;
        stats.original_size = self.backup_size + self.duplicate_size;
        let totals = (self.backup_size, self.duplicate_size);
        let ghost entries = self.files@;
        let mut pending = self.files;
        let mut reversed: Vec<BackupFile> = Vec::new();
        while pending.len() > 0
            invariant
                pending@.len() <= entries.len(),
                pending@ == entries.take(pending@.len() as int),
                reversed@.len() == entries.len() - pending@.len(),
                forall|i: int|
                    0 <= i < reversed@.len() ==> #[trigger] reversed@[i] == entries[entries.len() - 1 - i].1,
            decreases pending@.len(),
        {
            let (_, file) = pending.pop().unwrap();
            reversed.push(file);
            assert(pending@ =~= entries.take(pending@.len() as int));
        }
        let mut kept: Vec<BackupFile> = Vec::new();
        while reversed.len() > 0
            invariant
                reversed@.len() <= entries.len(),
                kept@.len() == entries.len() - reversed@.len(),
                forall|i: int|
                    0 <= i < reversed@.len() ==> #[trigger] reversed@[i] == entries[entries.len() - 1 - i].1,
                forall|i: int| 0 <= i < kept@.len() ==> #[trigger] kept@[i] == entries[i].1,
            decreases reversed@.len(),
        {
            let file = reversed.pop().unwrap();
            kept.push(file);
        }
        assert(kept@ =~= entries.map_values(|e: (String, BackupFile)| e.1));
        (totals, kept)
    }
}

} // verus!
