//! The upload plan, the chunks it is cut into, and the law that the chunks
//! cover the file.

use crate::backoff::BackoffPolicy;
use crate::failure::UploadError;
use crate::transfer::transfer_len;
use vstd::prelude::*;

verus! {

/// Everything that is fixed for one upload.
#[derive(Clone, Debug, PartialEq, Eq)]
pub struct UploadPlan {
    /// The local file to send.
    pub file_path: String,
    /// One destination per part. The index is the part number.
    pub parts_urls: Vec<String>,
    /// Bytes per chunk. The last chunk may be shorter.
    pub chunk_size: u64,
    /// How many chunks may be worked on at once.
    pub max_files: usize,
    /// How many chunks may wait to retry at once. Zero switches retries off.
    pub parallel_failures: usize,
    /// How many retries one chunk may make.
    pub max_retries: usize,
    /// The delay before each retry.
    pub backoff: BackoffPolicy,
}

/// One chunk of the file and where it goes. The chunk holds the bytes from
/// `start` up to `start + chunk_size`, as far as the file reaches.
#[derive(Clone, Debug, PartialEq, Eq)]
pub struct ChunkTask {
    pub part_number: usize,
    pub url: String,
    pub start: u64,
    pub chunk_size: u64,
}

impl UploadPlan {
    /// A plan is valid when chunks are not empty and at least one chunk may
    /// be worked on at a time.
    pub open spec fn valid(self) -> bool {
        self.chunk_size > 0 && self.max_files > 0
    }

    /// The number of parts.
    pub open spec fn parts(self) -> nat {
        self.parts_urls@.len()
    }

    /// The byte offset at which part `part` starts.
    pub open spec fn offset(self, part: int) -> int {
        part * self.chunk_size
    }

    /// Whether the offset of every part fits in 64 bits.
    pub open spec fn offsets_fit(self) -> bool {
        forall|part: int| 0 <= part < self.parts() ==> #[trigger] self.offset(part) <= u64::MAX
    }

    /// The least part whose offset does not fit in 64 bits, if there is one.
    pub open spec fn first_overflow(self) -> Option<usize> {
        if self.chunk_size == 0 || self.parts() == 0 || self.parts() - 1 <= u64::MAX
            / self.chunk_size {
            None
        } else {
            Some((u64::MAX / self.chunk_size + 1) as usize)
        }
    }

    /// The task of part `part`.
    pub open spec fn task(self, part: int) -> ChunkTask {
        ChunkTask {
            part_number: part as usize,
            url: self.parts_urls@[part],
            start: self.offset(part) as u64,
            chunk_size: self.chunk_size,
        }
    }

    /// A plan with the default backoff policy.
    pub fn new(
        file_path: String,
        parts_urls: Vec<String>,
        chunk_size: u64,
        max_files: usize,
        parallel_failures: usize,
        max_retries: usize,
    ) -> (plan: Self)
        ensures
            plan == (UploadPlan {
                file_path,
                parts_urls,
                chunk_size,
                max_files,
                parallel_failures,
                max_retries,
                backoff: BackoffPolicy { base: 300, cap: 10_000 },
            }),
    {
        UploadPlan {
            file_path,
            parts_urls,
            chunk_size,
            max_files,
            parallel_failures,
            max_retries,
            backoff: BackoffPolicy::default(),
        }
    }

    pub fn is_valid(&self) -> (yes: bool)
        ensures
            yes == self.valid(),
    {
        self.chunk_size > 0 && self.max_files > 0
    }

    /// The number of parts.
    pub fn part_count(&self) -> (count: usize)
        ensures
            count == self.parts(),
    {
        self.parts_urls.len()
    }

    /// The task of part `part`, or the error that its offset does not fit in
    /// 64 bits.
    pub fn chunk_task(&self, part: usize) -> (task: Result<ChunkTask, UploadError>)
        requires
            part < self.parts(),
        ensures
            task.is_ok() == (self.offset(part as int) <= u64::MAX),
            task matches Ok(chunk) ==> chunk == self.task(part as int),
            task matches Err(error) ==> error == (UploadError::OffsetOverflow {
                part,
                chunk_size: self.chunk_size,
            }),
    {
        match (part as u64).checked_mul(self.chunk_size) {
            Some(start) => Ok(
                ChunkTask {
                    part_number: part,
                    url: self.parts_urls[part].clone(),
                    start,
                    chunk_size: self.chunk_size,
                },
            ),
            None => Err(UploadError::OffsetOverflow { part, chunk_size: self.chunk_size }),
        }
    }

    /// The first part whose offset does not fit in 64 bits, if there is one.
    pub fn first_overflowing_part(&self) -> (first: Option<usize>)
        ensures
            first == self.first_overflow(),
            first.is_none() == self.offsets_fit(),
            first matches Some(part) ==> {
                &&& part < self.parts()
                &&& self.offset(part as int) > u64::MAX
                &&& forall|earlier: int|
                    0 <= earlier < part ==> #[trigger] self.offset(earlier) <= u64::MAX
            },
    {
        proof {
            lemma_first_overflow(*self);
        }
        let count: usize = self.parts_urls.len();
        if self.chunk_size == 0 || count == 0 {
            return None;
        }
        let reach: u64 = u64::MAX / self.chunk_size;
        if (count - 1) as u64 <= reach {
            None
        } else {
            Some((reach + 1) as usize)
        }
    }
}

/// `first_overflow` names the least part whose offset does not fit in 64
/// bits, and names none exactly when every offset fits.
pub proof fn lemma_first_overflow(plan: UploadPlan)
    ensures
        plan.first_overflow().is_none() == plan.offsets_fit(),
        plan.first_overflow() matches Some(part) ==> {
            &&& part < plan.parts()
            &&& plan.offset(part as int) > u64::MAX
            &&& forall|earlier: int|
                0 <= earlier < part ==> #[trigger] plan.offset(earlier) <= u64::MAX
        },
{
    if plan.chunk_size == 0 {
        assert forall|part: int| 0 <= part < plan.parts() implies #[trigger] plan.offset(part)
            <= u64::MAX by {
            assert(part * 0 == 0) by (nonlinear_arith);
        }
    } else if plan.parts() > 0 {
        let c = plan.chunk_size as int;
        let r = u64::MAX as int / c;
        vstd::arithmetic::div_mod::lemma_fundamental_div_mod(u64::MAX as int, c);
        vstd::arithmetic::div_mod::lemma_mod_pos_bound(u64::MAX as int, c);
        assert(0 <= r <= u64::MAX) by (nonlinear_arith)
            requires
                u64::MAX as int == c * r + (u64::MAX as int % c),
                0 <= (u64::MAX as int % c) < c,
                c > 0,
        ;
        assert forall|part: int| 0 <= part <= r implies #[trigger] plan.offset(part)
            <= u64::MAX by {
            assert(part * c <= c * r) by (nonlinear_arith)
                requires
                    0 <= part <= r,
                    c > 0,
            ;
        }
        assert forall|part: int| part > r implies #[trigger] plan.offset(part) > u64::MAX by {
            assert(part * c >= c * r + c) by (nonlinear_arith)
                requires
                    part >= r + 1,
                    c > 0,
            ;
        }
        if plan.parts() - 1 > r {
            assert(plan.parts_urls.len() == plan.parts());
            assert(r + 1 <= usize::MAX);
            assert(plan.offset(r + 1) > u64::MAX);
            assert(!plan.offsets_fit());
        }
    }
}

/// The number of chunks of `chunk_size` bytes that a file of `file_size`
/// bytes is cut into: `file_size / chunk_size`, rounded up.
pub open spec fn parts_needed(file_size: nat, chunk_size: nat) -> nat {
    if file_size % chunk_size == 0 {
        file_size / chunk_size
    } else {
        file_size / chunk_size + 1
    }
}

/// `parts_needed` rounds up: that many chunks reach the end of the file, and
/// one fewer would not.
pub proof fn lemma_parts_needed_rounds_up(file_size: nat, chunk_size: nat)
    requires
        chunk_size > 0,
    ensures
        parts_needed(file_size, chunk_size) * chunk_size >= file_size,
        file_size > 0 ==> (parts_needed(file_size, chunk_size) - 1) * chunk_size < file_size,
        file_size == 0 ==> parts_needed(file_size, chunk_size) == 0,
{
    let full = file_size / chunk_size;
    let rest = file_size % chunk_size;
    vstd::arithmetic::div_mod::lemma_fundamental_div_mod(file_size as int, chunk_size as int);
    vstd::arithmetic::div_mod::lemma_mod_pos_bound(file_size as int, chunk_size as int);
    assert(full * chunk_size == chunk_size * full) by (nonlinear_arith);
    assert((full + 1) * chunk_size == full * chunk_size + chunk_size) by (nonlinear_arith);
    assert((full - 1) * chunk_size == full * chunk_size - chunk_size) by (nonlinear_arith);
    if file_size == 0 {
        assert(full == 0) by (nonlinear_arith)
            requires
                0 == chunk_size * full + rest,
                chunk_size > 0,
                rest >= 0,
                full >= 0,
        ;
    }
}

/// The bytes that the first `parts` chunks carry together.
pub open spec fn total_transferred(file_size: nat, chunk_size: nat, parts: nat) -> nat
    decreases parts,
{
    if parts == 0 {
        0
    } else {
        total_transferred(file_size, chunk_size, (parts - 1) as nat) + transfer_len(
            file_size,
            ((parts - 1) * chunk_size) as nat,
            chunk_size,
        )
    }
}

/// Every chunk that lies wholly inside the file carries `chunk_size` bytes,
/// so the first `parts` of them carry `parts * chunk_size`.
pub proof fn lemma_full_chunks(file_size: nat, chunk_size: nat, parts: nat)
    requires
        chunk_size > 0,
        parts * chunk_size <= file_size,
    ensures
        total_transferred(file_size, chunk_size, parts) == parts * chunk_size,
        forall|part: int|
            0 <= part < parts ==> #[trigger] transfer_len(
                file_size,
                (part * chunk_size) as nat,
                chunk_size,
            ) == chunk_size,
    decreases parts,
{
    if parts == 0 {
        assert(parts * chunk_size == 0) by (nonlinear_arith)
            requires
                parts == 0,
        ;
    } else {
        let before = (parts - 1) as nat;
        assert(before * chunk_size + chunk_size == parts * chunk_size) by (nonlinear_arith)
            requires
                before + 1 == parts,
        ;
        lemma_full_chunks(file_size, chunk_size, before);
        assert(transfer_len(file_size, (before * chunk_size) as nat, chunk_size) == chunk_size);
        assert forall|part: int| 0 <= part < parts implies #[trigger] transfer_len(
            file_size,
            (part * chunk_size) as nat,
            chunk_size,
        ) == chunk_size by {
            assert(part * chunk_size + chunk_size <= parts * chunk_size) by (nonlinear_arith)
                requires
                    0 <= part < parts,
                    chunk_size > 0,
            ;
            assert(part * chunk_size >= 0) by (nonlinear_arith)
                requires
                    0 <= part,
                    chunk_size > 0,
            ;
        }
    }
}

/// The chunks of a plan with as many parts as the file needs are laid end
/// to end and carry the whole file: together they hold `file_size` bytes,
/// every chunk starts inside the file, every chunk but the last is full,
/// and the last holds what is left.
pub proof fn lemma_partition_covers_file(file_size: nat, chunk_size: nat)
    requires
        chunk_size > 0,
    ensures
        total_transferred(file_size, chunk_size, parts_needed(file_size, chunk_size))
            == file_size,
        forall|part: int|
            0 <= part < parts_needed(file_size, chunk_size) ==> #[trigger] (part * chunk_size)
                <= file_size,
        forall|part: int|
            0 <= part < parts_needed(file_size, chunk_size) - 1 ==> #[trigger] transfer_len(
                file_size,
                (part * chunk_size) as nat,
                chunk_size,
            ) == chunk_size,
        file_size > 0 ==> parts_needed(file_size, chunk_size) >= 1 && transfer_len(
            file_size,
            ((parts_needed(file_size, chunk_size) - 1) * chunk_size) as nat,
            chunk_size,
        ) == file_size - (parts_needed(file_size, chunk_size) - 1) * chunk_size,
{
    let parts = parts_needed(file_size, chunk_size);
    let full = file_size / chunk_size;
    let rest = file_size % chunk_size;
    vstd::arithmetic::div_mod::lemma_fundamental_div_mod(file_size as int, chunk_size as int);
    vstd::arithmetic::div_mod::lemma_mod_pos_bound(file_size as int, chunk_size as int);
    assert(file_size == chunk_size * full + rest);
    assert(full * chunk_size == chunk_size * full) by (nonlinear_arith);
    lemma_full_chunks(file_size, chunk_size, full);
    if rest == 0 {
        if file_size > 0 {
            assert(full >= 1) by (nonlinear_arith)
                requires
                    file_size == chunk_size * full,
                    file_size > 0,
                    chunk_size > 0,
            ;
            assert((full - 1) * chunk_size + chunk_size == full * chunk_size)
                by (nonlinear_arith);
        }
    } else {
        assert(parts == full + 1);
        assert((parts - 1) * chunk_size == full * chunk_size);
    }
    assert forall|part: int| 0 <= part < parts implies #[trigger] (part * chunk_size)
        <= file_size by {
        assert(part * chunk_size <= full * chunk_size) by (nonlinear_arith)
            requires
                0 <= part <= full,
                chunk_size > 0,
        ;
    }
}

} // verus!
