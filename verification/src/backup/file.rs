//! Reading files in fragments: how much to read next, and what a read gives.

use vstd::prelude::*;
use vstd::string::*;

verus! {

/// Represents the error that can occur when reading a file
#[derive(Debug)]
pub enum FileError {
    /// The file reached EOF
    EOF,
    /// The file could not be opened
    CannotOpenFile(String),
    /// The file could not be read
    CannotReadFile(String),
}

/// The human-readable description of a file error.
pub open spec fn file_error_message(e: FileError) -> Seq<char> {
    match e {
        FileError::EOF => "The file reached EOF"@,
        FileError::CannotOpenFile(e) => "The file could not be opened: "@ + e@,
        FileError::CannotReadFile(e) => "The file could not be read: "@ + e@,
    }
}

impl FileError {
    /// The human-readable description of the error.
    pub fn message(&self) -> (res: String)
        ensures
            res@ == file_error_message(*self),
    {
        match self {
            FileError::EOF => String::from_str("The file reached EOF"),
            FileError::CannotOpenFile(e) => {
                let mut m = String::from_str("The file could not be opened: ");
                m.append(e.as_str());
                m
            },
            FileError::CannotReadFile(e) => {
                let mut m = String::from_str("The file could not be read: ");
                m.append(e.as_str());
                m
            },
        }
    }
}

/// Represents the file mode to open
#[derive(Debug, Clone, Copy, PartialEq, Eq, Structural)]
pub enum FileMode {
    /// Read mode
    Read,
    /// Write mode
    Write,
    /// Read and write mode
    ReadWrite,
    /// Create mode (write and create if it does not exist)
    Create,
}

/// Represents a fragment of a file read
#[derive(Debug, Clone)]
pub struct ReadFragment {
    /// The data read
    pub data: Vec<u8>,
    /// The total bytes read
    pub total_bytes_read: u64,
}

/// The smaller of two sizes.
pub open spec fn min_size(a: usize, b: usize) -> usize {
    if a < b {
        a
    } else {
        b
    }
}

/// How many bytes to read next from a file of `file_length` bytes of which
/// `total_bytes_read` were read: what remains, but no more than the buffer.
/// Nothing remains once the whole length was read.
pub fn plan_read(file_length: u64, max_buffer_size: u64, total_bytes_read: u64) -> (res: Result<usize, FileError>)
    ensures
        total_bytes_read >= file_length ==> res matches Err(FileError::EOF),
        total_bytes_read < file_length ==> res == Ok::<usize, FileError>(
            min_size((file_length - total_bytes_read) as usize, max_buffer_size as usize),
        ),
{
    if total_bytes_read >= file_length {
        return Err(FileError::EOF);
    }
    let remaining_bytes = (file_length - total_bytes_read) as usize;
    let max = max_buffer_size as usize;
    if remaining_bytes < max {
        Ok(remaining_bytes)
    } else {
        Ok(max)
    }
}

/// The fragment a read gave: its data, and the count of bytes read so far. A
/// read that gave nothing means the end of the file.
pub fn finish_read(data: Vec<u8>, total_bytes_read: u64) -> (res: Result<ReadFragment, FileError>)
    requires
        total_bytes_read + data@.len() <= u64::MAX,
    ensures
        data@.len() == 0 ==> res matches Err(FileError::EOF),
        data@.len() > 0 ==> (res matches Ok(f) && f.data@ == data@ && f.total_bytes_read == total_bytes_read
            + data@.len()),
{
    if data.len() == 0 {
        return Err(FileError::EOF);
    }
    let n = data.len() as u64;
    Ok(ReadFragment { data, total_bytes_read: total_bytes_read + n })
}

/// The sizes of the successive reads of a file of `len` bytes, in reads of at
/// most `max` bytes, once `total` bytes were read.
pub open spec fn planned_reads(len: nat, max: nat, total: nat) -> Seq<nat>
    decreases len - total,
{
    if total >= len || max == 0 {
        Seq::empty()
    } else {
        let n: nat = if len - total < max { (len - total) as nat } else { max };
        seq![n] + planned_reads(len, max, total + n)
    }
}

/// The sum of a sequence of sizes.
pub open spec fn sum_sizes(s: Seq<nat>) -> nat
    decreases s.len(),
{
    if s.len() == 0 {
        0
    } else {
        s[0] + sum_sizes(s.skip(1))
    }
}

proof fn lemma_planned_reads(len: nat, max: nat, total: nat)
    requires
        max > 0,
        total <= len,
    ensures
        planned_reads(len, max, total).len() == (len - total) / (max as int) + (if (len - total) % (max as int) != 0 { 1int } else { 0int }),
        sum_sizes(planned_reads(len, max, total)) == len - total,
        forall|i: int| 0 <= i < planned_reads(len, max, total).len() - 1 ==> #[trigger] planned_reads(len, max, total)[i] == max,
        forall|i: int| 0 <= i < planned_reads(len, max, total).len() ==> 0 < #[trigger] planned_reads(len, max, total)[i] <= max,
    decreases len - total,
{
    if total < len {
        let n: nat = if len - total < max { (len - total) as nat } else { max };
        lemma_planned_reads(len, max, total + n);
        let rest = planned_reads(len, max, total + n);
        let all = planned_reads(len, max, total);
        assert(all == seq![n] + rest);
        assert(all.skip(1) =~= rest);
        let x: int = len - total;
        let m: int = max as int;
        if x < m {
            assert(x / m == 0 && x % m == x) by (nonlinear_arith)
                requires
                    0 < x < m,
            ;
        } else {
            assert((x - m) / m == x / m - 1 && (x - m) % m == x % m) by (nonlinear_arith)
                requires
                    0 < m <= x,
            {
                assert(x == m * (x / m) + x % m);
                assert(0 <= x % m < m);
            }
        }
        assert forall|i: int| 0 <= i < all.len() - 1 implies #[trigger] all[i] == max by {
            if i > 0 {
                assert(all[i] == rest[i - 1]);
            } else if rest.len() > 0 {
                assert(x >= m);
            }
        }
        assert forall|i: int| 0 <= i < all.len() implies 0 < #[trigger] all[i] <= max by {
            if i > 0 {
                assert(all[i] == rest[i - 1]);
            }
        }
    } else {
        let m: int = max as int;
        assert(0int / m == 0 && 0int % m == 0) by (nonlinear_arith)
            requires
                m > 0,
        ;
    }
}

/// Law: reading a file in fragments of at most `max` bytes, as `plan_read`
/// plans them, covers the whole file exactly, every fragment but the last
/// full, in as many fragments as `compute_maximum_parts_number` counts.
pub proof fn law_fragments_cover_file(len: nat, max: nat)
    requires
        max > 0,
    ensures
        planned_reads(len, max, 0).len() == len / max + (if len % max != 0 { 1int } else { 0int }),
        sum_sizes(planned_reads(len, max, 0)) == len,
        forall|i: int| 0 <= i < planned_reads(len, max, 0).len() - 1 ==> #[trigger] planned_reads(len, max, 0)[i] == max,
        forall|i: int| 0 <= i < planned_reads(len, max, 0).len() ==> 0 < #[trigger] planned_reads(len, max, 0)[i] <= max,
{
    lemma_planned_reads(len, max, 0);
}

} // verus!
