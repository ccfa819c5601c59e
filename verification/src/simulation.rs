//! Simulation of delta update techniques: how much of an update has to be downloaded.

use vstd::prelude::*;
use crate::digest::{digest_bytes, HashAlgorithm, HashDigest};

verus! {

/// How data is divided into chunks.
#[derive(Debug, Clone, Copy, PartialEq, Eq, Structural)]
pub enum ChunkerAlgorithm {
    /// By content, of the given average size.
    Casync { avg_block_size_kib: u32 },
    /// At fixed offsets.
    Fixed { block_size_kib: u32 },
}

impl ChunkerAlgorithm {
    /// Whether chunks begin at fixed offsets.
    pub fn is_fixed(&self) -> (r: bool)
        ensures
            r == (self is Fixed),
    {
        match self {
            ChunkerAlgorithm::Casync { .. } => false,
            ChunkerAlgorithm::Fixed { .. } => true,
        }
    }
}

/// Simulation for delta updates using block-based diffing.
#[derive(Debug)]
pub enum BlockBasedCmd {
    /// Simulate delta updates using block-based diffing.
    Simulate {
        old: String,
        new: String,
        chunker: ChunkerAlgorithm,
        /// Overhead for downloading a block or group of blocks.
        group_overhead: u64,
        /// Optional size to group blocks into for compression.
        group_size: Option<u64>,
    },
}

/// Simulation for delta updates using the experimental Deltar format.
#[derive(Debug)]
pub enum DeltarCmd {
    /// Compute and print a plan from the given input tar archive.
    Plan { path: String, chunker: ChunkerAlgorithm, group_size: usize },
    /// Simulate delta updates using the experimental Deltar format.
    Simulate {
        old: String,
        new: String,
        chunker: ChunkerAlgorithm,
        group_size: usize,
        /// Overhead for downloading a group of blocks.
        group_overhead: u64,
    },
}

/// Simulation for delta updates using Xdelta.
#[derive(Debug)]
pub enum XdeltaCmd {
    /// Simulate a delta update using Xdelta.
    Simulate { old: String, new: String },
}

/// Simulation command.
#[derive(Debug)]
pub enum SimulationCmd {
    BlockBased(BlockBasedCmd),
    Deltar(DeltarCmd),
    Xdelta(XdeltaCmd),
}

/// Why a simulation is not possible.
#[derive(Debug, Clone, Copy, PartialEq, Eq, Structural)]
pub enum SimulationError {
    /// A group size requires a fixed chunker.
    RequiresFixedChunker,
    /// The group size must be larger than the fixed chunk size.
    GroupSizeTooSmall,
    /// The chunks do not lie within the data.
    InvalidChunks,
    /// A compressed block does not fit into 4 GiB.
    BlockTooLarge,
    /// A chunk refers to a group that does not exist.
    InvalidGroup,
    /// A size does not fit.
    Overflow,
    /// The old archive cannot be read.
    UnreadableArchive,
}

/// A part of the data.
#[derive(Debug, Clone, Copy, PartialEq, Eq, Structural)]
pub struct Part {
    pub start: usize,
    pub end: usize,
}

impl Part {
    /// Whether the part lies within data of the given size.
    pub open spec fn within(self, size: nat) -> bool {
        self.start <= self.end <= size
    }

    pub open spec fn size(self) -> nat {
        (self.end - self.start) as nat
    }
}

/// A digest, as the contracts speak of it.
pub type DigestView = (HashAlgorithm, Seq<u8>);

/// The digest of a chunk.
pub open spec fn chunk_digest(bytes: Seq<u8>) -> DigestView {
    (HashAlgorithm::Sha256, digest_bytes(HashAlgorithm::Sha256.code(), bytes))
}

/// The digests of the chunks of data.
pub open spec fn chunk_digests(data: Seq<u8>, chunks: Seq<Part>) -> Seq<DigestView> {
    Seq::new(
        chunks.len(),
        |i: int| chunk_digest(data.subrange(chunks[i].start as int, chunks[i].end as int)),
    )
}

/// Digests of a list.
pub open spec fn digest_views(list: Seq<HashDigest>) -> Seq<DigestView> {
    Seq::new(list.len(), |i: int| list[i]@)
}

/// Whether all chunks lie within the data.
pub open spec fn all_within(chunks: Seq<Part>, size: nat) -> bool {
    forall|i: int| 0 <= i < chunks.len() ==> (#[trigger] chunks[i]).within(size)
}

fn are_within(chunks: &Vec<Part>, size: usize) -> (r: bool)
    ensures
        r == all_within(chunks@, size as nat),
{
    let mut i: usize = 0;
    while i < chunks.len()
        invariant
            i <= chunks@.len(),
            forall|j: int| 0 <= j < i ==> (#[trigger] chunks@[j]).within(size as nat),
        decreases chunks@.len() - i,
    {
        if chunks[i].start > chunks[i].end || chunks[i].end > size {
            return false;
        }
        i = i + 1;
    }
    true
}

/// Hashes the chunks of data.
pub fn hash_chunks(data: &[u8], chunks: &Vec<Part>) -> (r: Vec<HashDigest>)
    requires
        all_within(chunks@, data@.len()),
    ensures
        digest_views(r@) == chunk_digests(data@, chunks@),
        forall|i: int| 0 <= i < r@.len() ==> (#[trigger] r@[i]).raw@.len() == 32,
{
    let mut r: Vec<HashDigest> = Vec::new();
    let mut i: usize = 0;
    while i < chunks.len()
        invariant
            i <= chunks@.len(),
            all_within(chunks@, data@.len()),
            r@.len() == i,
            forall|j: int|
                0 <= j < i ==> (#[trigger] r@[j])@ == chunk_digests(data@, chunks@)[j]
                    && r@[j].raw@.len() == 32,
        decreases chunks@.len() - i,
    {
        let part = chunks[i];
        assert(part.within(data@.len()));
        let bytes = vstd::slice::slice_subrange(data, part.start, part.end);
        r.push(HashDigest::of(HashAlgorithm::Sha256, bytes));
        i = i + 1;
    }
    assert(digest_views(r@) =~= chunk_digests(data@, chunks@));
    r
}

/// Whether a list holds a digest.
pub fn contains_digest(list: &Vec<HashDigest>, count: usize, digest: &HashDigest) -> (r: bool)
    requires
        count <= list@.len(),
    ensures
        r == digest_views(list@).take(count as int).contains(digest@),
{
    let ghost all = digest_views(list@).take(count as int);
    let mut i: usize = 0;
    while i < count
        invariant
            i <= count <= list@.len(),
            all == digest_views(list@).take(count as int),
            forall|j: int| 0 <= j < i ==> (#[trigger] all[j]) != digest@,
        decreases count - i,
    {
        if list[i].equals(digest) {
            assert(all[i as int] == digest@);
            return true;
        }
        assert(all[i as int] != digest@);
        i = i + 1;
    }
    false
}

/// Whether a chunk has to be downloaded: it is neither on the device nor among the chunks
/// before it.
pub open spec fn is_fetched(old: Seq<DigestView>, new: Seq<DigestView>, i: int) -> bool {
    !old.contains(new[i]) && !new.take(i).contains(new[i])
}

/// The group that a chunk belongs to.
pub open spec fn group_of(i: int, block_size: int, group_size: int) -> int {
    (i * block_size) / group_size
}

/// The groups that have to be downloaded for the first `n` chunks, each once, in the order
/// in which they are needed.
pub open spec fn needed_groups(
    old: Seq<DigestView>,
    new: Seq<DigestView>,
    block_size: int,
    group_size: int,
    n: nat,
) -> Seq<int>
    decreases n,
{
    if n == 0 {
        Seq::empty()
    } else {
        let before = needed_groups(old, new, block_size, group_size, (n - 1) as nat);
        let group = group_of(n - 1, block_size, group_size);
        if is_fetched(old, new, n - 1) && !before.contains(group) {
            before.push(group)
        } else {
            before
        }
    }
}

/// The part of the data that a group covers.
pub open spec fn group_part(group: int, group_size: int, size: int) -> Part {
    Part {
        start: (group * group_size) as usize,
        end: (if (group + 1) * group_size < size {
            (group + 1) * group_size
        } else {
            size
        }) as usize,
    }
}

/// The parts that have to be downloaded for the first `n` chunks, each chunk on its own.
pub open spec fn chunk_parts(
    old: Seq<DigestView>,
    new: Seq<DigestView>,
    chunks: Seq<Part>,
    n: nat,
) -> Seq<Part>
    decreases n,
{
    if n == 0 {
        Seq::empty()
    } else {
        let before = chunk_parts(old, new, chunks, (n - 1) as nat);
        if is_fetched(old, new, n - 1) {
            before.push(chunks[n - 1])
        } else {
            before
        }
    }
}

/// The parts that have to be downloaded for the first `n` chunks, in groups.
pub open spec fn group_parts(
    old: Seq<DigestView>,
    new: Seq<DigestView>,
    block_size: int,
    group_size: int,
    size: int,
    n: nat,
) -> Seq<Part> {
    let groups = needed_groups(old, new, block_size, group_size, n);
    Seq::new(groups.len(), |k: int| group_part(groups[k], group_size, size))
}

/// Whether any chunk has to be downloaded.
pub open spec fn any_fetched(old: Seq<DigestView>, new: Seq<DigestView>) -> bool {
    exists|i: int| 0 <= i < new.len() && #[trigger] is_fetched(old, new, i)
}

/// What has to be downloaded, or why that cannot be said. Grouping needs a fixed chunker
/// and groups that are larger than its chunks; where nothing has to be downloaded,
/// neither matters.
pub open spec fn block_downloads(
    old: Seq<DigestView>,
    new: Seq<DigestView>,
    chunks: Seq<Part>,
    size: nat,
    chunker: ChunkerAlgorithm,
    group_size: Option<u64>,
) -> Result<Seq<Part>, SimulationError> {
    match group_size {
        None => Ok(chunk_parts(old, new, chunks, chunks.len())),
        Some(group_size) => if !any_fetched(old, new) {
            Ok(Seq::empty())
        } else {
            match chunker {
                ChunkerAlgorithm::Casync { .. } => Err(SimulationError::RequiresFixedChunker),
                ChunkerAlgorithm::Fixed { block_size_kib } => if group_size <= block_size_kib
                    * 1024 {
                    Err(SimulationError::GroupSizeTooSmall)
                } else {
                    Ok(
                        group_parts(
                            old,
                            new,
                            block_size_kib * 1024,
                            group_size as int,
                            size as int,
                            chunks.len(),
                        ),
                    )
                },
            }
        },
    }
}

/// Whether every chunk that is fetched begins before the end of the data, at the offset
/// that a fixed chunker gives it.
pub open spec fn offsets_fit(chunks: nat, block_size: int, size: nat) -> bool {
    chunks == 0 || (chunks - 1) * block_size < size
}

/// Plans what is downloaded where each chunk is fetched on its own: `old` are the digests of
/// the chunks on the device, and `new` those of the chunks of the new data.
pub fn plan_chunks(
    old: &Vec<HashDigest>,
    new: &Vec<HashDigest>,
    chunks: &Vec<Part>,
    size: usize,
) -> (r: Vec<Part>)
    requires
        new@.len() == chunks@.len(),
        all_within(chunks@, size as nat),
    ensures
        all_within(r@, size as nat),
        r@ == chunk_parts(
            digest_views(old@),
            digest_views(new@),
            chunks@,
            chunks@.len(),
        ),
{
    let ghost olds = digest_views(old@);
    let ghost news = digest_views(new@);
    let mut r: Vec<Part> = Vec::new();
    let mut i: usize = 0;
    while i < new.len()
        invariant
            i <= new@.len() == chunks@.len(),
            olds == digest_views(old@),
            news == digest_views(new@),
            r@ == chunk_parts(olds, news, chunks@, i as nat),
            all_within(chunks@, size as nat),
            all_within(r@, size as nat),
        decreases new@.len() - i,
    {
        assert(olds.take(old@.len() as int) =~= olds);
        assert(news[i as int] == new@[i as int]@);
        if !contains_digest(old, old.len(), &new[i]) && !contains_digest(new, i, &new[i]) {
            assert(chunks@[i as int].within(size as nat));
            r.push(chunks[i]);
        }
        i = i + 1;
    }
    r
}

/// The numbers of a list.
pub open spec fn numbers(list: Seq<u128>) -> Seq<int> {
    Seq::new(list.len(), |i: int| list[i] as int)
}

fn contains_number(list: &Vec<u128>, number: u128) -> (r: bool)
    ensures
        r == numbers(list@).contains(number as int),
{
    let ghost all = numbers(list@);
    let mut i: usize = 0;
    while i < list.len()
        invariant
            i <= list@.len(),
            all == numbers(list@),
            forall|j: int| 0 <= j < i ==> (#[trigger] all[j]) != number,
        decreases list@.len() - i,
    {
        assert(all[i as int] == list@[i as int]);
        if list[i] == number {
            return true;
        }
        i = i + 1;
    }
    false
}

/// The start of a group lies before the end of the data.
proof fn lemma_group_start(i: int, count: int, block_size: int, group_size: int, size: int)
    requires
        0 <= i < count,
        0 <= block_size < group_size,
        (count - 1) * block_size < size,
    ensures
        0 <= group_of(i, block_size, group_size),
        group_of(i, block_size, group_size) * group_size <= i * block_size,
        i * block_size < size,
        0 <= i * block_size,
{
    assert(0 <= i * block_size <= (count - 1) * block_size) by (nonlinear_arith)
        requires
            0 <= i <= count - 1,
            0 <= block_size,
    ;
    let x = i * block_size;
    assert(x == group_size * (x / group_size) + x % group_size) by {
        vstd::arithmetic::div_mod::lemma_fundamental_div_mod(x, group_size);
    }
    assert(0 <= x % group_size) by {
        vstd::arithmetic::div_mod::lemma_mod_bound(x, group_size);
    }
    assert(0 <= x / group_size) by {
        vstd::arithmetic::div_mod::lemma_div_pos_is_pos(x, group_size);
    }
    assert(group_size * (x / group_size) == (x / group_size) * group_size) by (nonlinear_arith);
}

/// Plans what is downloaded where chunks of a fixed size are fetched in groups.
pub fn plan_groups(
    old: &Vec<HashDigest>,
    new: &Vec<HashDigest>,
    block_size: u64,
    group_size: u64,
    size: usize,
) -> (r: Vec<Part>)
    requires
        block_size < group_size,
        block_size <= 0x400_0000_0000,
        offsets_fit(new@.len(), block_size as int, size as nat),
    ensures
        all_within(r@, size as nat),
        r@ == group_parts(
            digest_views(old@),
            digest_views(new@),
            block_size as int,
            group_size as int,
            size as int,
            new@.len(),
        ),
{
    let ghost olds = digest_views(old@);
    let ghost news = digest_views(new@);
    let ghost bs = block_size as int;
    let ghost gs = group_size as int;
    let mut r: Vec<Part> = Vec::new();
    let mut seen: Vec<u128> = Vec::new();
    let mut i: usize = 0;
    assert(numbers(seen@) =~= needed_groups(olds, news, bs, gs, 0));
    assert(r@ =~= group_parts(olds, news, bs, gs, size as int, 0));
    while i < new.len()
        invariant
            i <= new@.len(),
            bs == block_size,
            gs == group_size,
            block_size < group_size,
            block_size <= 0x400_0000_0000,
            offsets_fit(new@.len(), block_size as int, size as nat),
            olds == digest_views(old@),
            news == digest_views(new@),
            numbers(seen@) == needed_groups(olds, news, bs, gs, i as nat),
            r@ == group_parts(olds, news, bs, gs, size as int, i as nat),
            all_within(r@, size as nat),
        decreases new@.len() - i,
    {
        assert(olds.take(old@.len() as int) =~= olds);
        assert(news[i as int] == new@[i as int]@);
        if !contains_digest(old, old.len(), &new[i]) && !contains_digest(new, i, &new[i]) {
            assert(is_fetched(olds, news, i as int));
            proof {
                lemma_group_start(i as int, new@.len() as int, bs, gs, size as int);
            }
            let offset: u128 = i as u128 * block_size as u128;
            let group: u128 = offset / group_size as u128;
            assert(group == group_of(i as int, bs, gs));
            if !contains_number(&seen, group) {
                let start: u128 = group * group_size as u128;
                assert((group + 1) * group_size == group * group_size + group_size)
                    by (nonlinear_arith);
                let after: u128 = start + group_size as u128;
                let end: usize = if after < size as u128 {
                    after as usize
                } else {
                    size
                };
                let ghost parts_before = r@;
                let ghost groups_before = numbers(seen@);
                r.push(Part { start: start as usize, end });
                seen.push(group);
                assert(numbers(seen@) =~= groups_before.push(group as int));
                assert(r@ =~= group_parts(olds, news, bs, gs, size as int, (i + 1) as nat));
            }
        } else {
            assert(!is_fetched(olds, news, i as int));
        }
        i = i + 1;
    }
    r
}

/// Appends bytes.
fn append_bytes(target: &mut Vec<u8>, bytes: &Vec<u8>)
    ensures
        final(target)@ == old(target)@ + bytes@,
{
    let ghost before = target@;
    let mut i: usize = 0;
    while i < bytes.len()
        invariant
            i <= bytes@.len(),
            target@ == before + bytes@.take(i as int),
        decreases bytes@.len() - i,
    {
        target.push(bytes[i]);
        i = i + 1;
        assert(target@ =~= before + bytes@.take(i as int));
    }
    assert(bytes@.take(i as int) =~= bytes@);
}

/// The digests of the first `n` chunks one after another.
pub open spec fn index_bytes(digests: Seq<DigestView>, n: nat) -> Seq<u8>
    decreases n,
{
    if n == 0 {
        Seq::empty()
    } else {
        index_bytes(digests, (n - 1) as nat) + digests[n - 1].1
    }
}

fn build_index(digests: &Vec<HashDigest>) -> (r: Vec<u8>)
    ensures
        r@ == index_bytes(digest_views(digests@), digests@.len()),
{
    let ghost all = digest_views(digests@);
    let mut r: Vec<u8> = Vec::new();
    let mut i: usize = 0;
    while i < digests.len()
        invariant
            i <= digests@.len(),
            all == digest_views(digests@),
            r@ == index_bytes(all, i as nat),
        decreases digests@.len() - i,
    {
        assert(all[i as int] == digests@[i as int]@);
        append_bytes(&mut r, &digests[i].raw);
        i = i + 1;
    }
    r
}

/// What has to be downloaded for an update.
#[derive(Debug)]
pub struct DownloadPlan {
    pub old_blocks: usize,
    pub new_blocks: usize,
    /// The index of the new image.
    pub index_data: Vec<u8>,
    /// The parts of the new image that have to be downloaded.
    pub parts: Vec<Part>,
}

/// Plans what has to be downloaded to get from an old image to a new one. The images come
/// with the chunks that they are divided into.
pub fn plan_block_download(
    old: &[u8],
    old_chunks: &Vec<Part>,
    new: &[u8],
    new_chunks: &Vec<Part>,
    chunker: ChunkerAlgorithm,
    group_size: Option<u64>,
) -> (r: Result<DownloadPlan, SimulationError>)
    ensures
        ({
            let olds = chunk_digests(old@, old_chunks@);
            let news = chunk_digests(new@, new_chunks@);
            let valid = all_within(old_chunks@, old@.len()) && all_within(new_chunks@, new@.len())
                && (group_size is Some && chunker is Fixed ==> offsets_fit(
                new_chunks@.len(),
                chunker->block_size_kib * 1024,
                new@.len(),
            ));
            match r {
                Ok(plan) => {
                    &&& valid
                    &&& all_within(plan.parts@, new@.len())
                    &&& plan.old_blocks == old_chunks@.len()
                    &&& plan.new_blocks == new_chunks@.len()
                    &&& plan.index_data@ == index_bytes(news, news.len())
                    &&& Ok::<_, SimulationError>(plan.parts@) == block_downloads(
                        olds,
                        news,
                        new_chunks@,
                        new@.len(),
                        chunker,
                        group_size,
                    )
                },
                Err(e) => if valid {
                    block_downloads(olds, news, new_chunks@, new@.len(), chunker, group_size)
                        == Err::<Seq<Part>, SimulationError>(e)
                } else {
                    e == SimulationError::InvalidChunks
                },
            }
        }),
{
    if !are_within(old_chunks, old.len()) || !are_within(new_chunks, new.len()) {
        return Err(SimulationError::InvalidChunks);
    }
    if let (Some(_), ChunkerAlgorithm::Fixed { block_size_kib }) = (group_size, chunker) {
        let block_size: u128 = block_size_kib as u128 * 1024;
        if new_chunks.len() > 0 {
            let last: u128 = (new_chunks.len() - 1) as u128;
            assert(last * block_size <= 0xffff_ffff_ffff_ffff * 0x400_0000_0000)
                by (nonlinear_arith)
                requires
                    last <= 0xffff_ffff_ffff_ffff,
                    block_size <= 0x400_0000_0000,
            ;
            if last * block_size >= new.len() as u128 {
                return Err(SimulationError::InvalidChunks);
            }
        }
    }
    let old_digests = hash_chunks(old, old_chunks);
    let new_digests = hash_chunks(new, new_chunks);
    let ghost olds = chunk_digests(old@, old_chunks@);
    let ghost news = chunk_digests(new@, new_chunks@);
    assert(new_digests@.len() == digest_views(new_digests@).len());
    let index_data = build_index(&new_digests);
    let parts = match group_size {
        None => plan_chunks(&old_digests, &new_digests, new_chunks, new.len()),
        Some(group_size) => {
            let fetched = plan_chunks(&old_digests, &new_digests, new_chunks, new.len());
            proof {
                lemma_any_fetched(olds, news, new_chunks@, new_chunks@.len());
            }
            if fetched.len() == 0 {
                Vec::new()
            } else {
                match chunker {
                    ChunkerAlgorithm::Casync { .. } => {
                        return Err(SimulationError::RequiresFixedChunker);
                    },
                    ChunkerAlgorithm::Fixed { block_size_kib } => {
                        let block_size: u64 = block_size_kib as u64 * 1024;
                        if group_size <= block_size {
                            return Err(SimulationError::GroupSizeTooSmall);
                        }
                        plan_groups(
                            &old_digests,
                            &new_digests,
                            block_size,
                            group_size,
                            new.len(),
                        )
                    },
                }
            }
        },
    };
    Ok(
        DownloadPlan {
            old_blocks: old_chunks.len(),
            new_blocks: new_chunks.len(),
            index_data,
            parts,
        },
    )
}

/// There are parts to be downloaded if and only if there are chunks that have to be.
proof fn lemma_any_fetched(
    old: Seq<DigestView>,
    new: Seq<DigestView>,
    chunks: Seq<Part>,
    n: nat,
)
    ensures
        chunk_parts(old, new, chunks, n).len() > 0 <==> exists|i: int|
            0 <= i < n && #[trigger] is_fetched(old, new, i),
    decreases n,
{
    if n > 0 {
        lemma_any_fetched(old, new, chunks, (n - 1) as nat);
        if is_fetched(old, new, n - 1) {
            assert(chunk_parts(old, new, chunks, n).len() > 0);
        } else if exists|i: int| 0 <= i < n && #[trigger] is_fetched(old, new, i) {
            let i = choose|i: int| 0 <= i < n && #[trigger] is_fetched(old, new, i);
            assert(i < n - 1);
        }
    }
}

/// An update to the same image downloads nothing.
pub proof fn law_unchanged_image_needs_no_download(
    image: Seq<u8>,
    chunks: Seq<Part>,
    chunker: ChunkerAlgorithm,
    group_size: Option<u64>,
)
    ensures
        ({
            let digests = chunk_digests(image, chunks);
            block_downloads(digests, digests, chunks, image.len(), chunker, group_size) == Ok::<
                Seq<Part>,
                SimulationError,
            >(Seq::empty())
        }),
{
    let digests = chunk_digests(image, chunks);
    assert forall|i: int| 0 <= i < digests.len() implies !#[trigger] is_fetched(
        digests,
        digests,
        i,
    ) by {
        assert(digests.contains(digests[i]));
    }
    lemma_any_fetched(digests, digests, chunks, chunks.len());
    assert(chunk_parts(digests, digests, chunks, chunks.len()) =~= Seq::empty());
}

/// Every chunk of the new image is on the device, is downloaded, or repeats one that is.
pub proof fn law_every_chunk_is_obtained(old: Seq<DigestView>, new: Seq<DigestView>, i: int)
    requires
        0 <= i < new.len(),
    ensures
        old.contains(new[i]) || exists|j: int|
            0 <= j <= i && new[j] == new[i] && #[trigger] is_fetched(old, new, j),
    decreases i,
{
    if !old.contains(new[i]) && !is_fetched(old, new, i) {
        let j = choose|j: int| 0 <= j < i && new.take(i)[j] == new[i];
        assert(new.take(i).contains(new[i]));
        assert(new[j] == new[i]);
        law_every_chunk_is_obtained(old, new, j);
    }
}

/// The four bytes of a number, the most significant one first.
pub open spec fn big_endian(n: nat) -> Seq<u8> {
    seq![
        (n / 16777216) as u8,
        (n / 65536 % 256) as u8,
        (n / 256 % 256) as u8,
        (n % 256) as u8,
    ]
}

/// The sizes of the first `n` blocks one after another.
pub open spec fn sizes_bytes(sizes: Seq<usize>, n: nat) -> Seq<u8>
    decreases n,
{
    if n == 0 {
        Seq::empty()
    } else {
        sizes_bytes(sizes, (n - 1) as nat) + big_endian(sizes[n - 1] as nat)
    }
}

/// Lists the sizes of compressed blocks, four bytes each.
pub fn list_sizes(sizes: &Vec<usize>) -> (r: Result<Vec<u8>, SimulationError>)
    ensures
        match r {
            Ok(data) => data@ == sizes_bytes(sizes@, sizes@.len()) && forall|i: int|
                0 <= i < sizes@.len() ==> (#[trigger] sizes@[i]) <= u32::MAX,
            Err(e) => e == SimulationError::BlockTooLarge && exists|i: int|
                0 <= i < sizes@.len() && (#[trigger] sizes@[i]) > u32::MAX,
        },
{
    let mut r: Vec<u8> = Vec::new();
    let mut i: usize = 0;
    while i < sizes.len()
        invariant
            i <= sizes@.len(),
            r@ == sizes_bytes(sizes@, i as nat),
            forall|j: int| 0 <= j < i ==> (#[trigger] sizes@[j]) <= u32::MAX,
        decreases sizes@.len() - i,
    {
        let size: u64 = sizes[i] as u64;
        if size > 0xffff_ffff {
            assert(sizes@[i as int] > u32::MAX);
            return Err(SimulationError::BlockTooLarge);
        }
        let ghost before = r@;
        r.push((size / 16777216) as u8);
        r.push((size / 65536 % 256) as u8);
        r.push((size / 256 % 256) as u8);
        r.push((size % 256) as u8);
        assert(r@ =~= before + big_endian(sizes@[i as int] as nat));
        i = i + 1;
    }
    Ok(r)
}

/// The sum of the first `n` numbers.
pub open spec fn sum_of(numbers: Seq<usize>, n: nat) -> nat
    decreases n,
{
    if n == 0 {
        0
    } else {
        sum_of(numbers, (n - 1) as nat) + numbers[n - 1] as nat
    }
}

/// The size of the first `n` parts.
pub open spec fn size_of_parts(parts: Seq<Part>, n: nat) -> int
    decreases n,
{
    if n == 0 {
        0
    } else {
        size_of_parts(parts, (n - 1) as nat) + (parts[n - 1].end - parts[n - 1].start)
    }
}

/// How much has to be downloaded in all.
#[derive(Debug, Clone, Copy, PartialEq, Eq, Structural)]
pub struct BlockOutput {
    pub uncompressed: u64,
    pub compressed: u64,
}

/// Sizes of the compressed parts of a download.
#[derive(Debug)]
pub struct CompressedSizes {
    /// Of each part.
    pub parts: Vec<usize>,
    pub index: usize,
    pub sizes: usize,
}

/// The bytes of the list of sizes, which a fixed chunker does not need.
pub open spec fn sizes_overhead(chunker: ChunkerAlgorithm, parts: nat) -> nat {
    if chunker is Fixed {
        0
    } else {
        4 * parts
    }
}

/// How much has to be downloaded in all, without and with compression: the index, the
/// sizes, the data, and the overhead of every block.
pub open spec fn totals(
    plan: DownloadPlan,
    compressed: CompressedSizes,
    chunker: ChunkerAlgorithm,
    group_overhead: u64,
) -> (int, int) {
    let overhead = plan.parts@.len() * group_overhead;
    (
        plan.index_data@.len() + sizes_overhead(chunker, plan.parts@.len()) + size_of_parts(
            plan.parts@,
            plan.parts@.len(),
        ) + overhead,
        compressed.index + compressed.sizes + sum_of(compressed.parts@, compressed.parts@.len())
            + overhead,
    )
}

/// Sums up a download.
pub fn summarize_download(
    plan: &DownloadPlan,
    compressed: &CompressedSizes,
    chunker: ChunkerAlgorithm,
    group_overhead: u64,
) -> (r: Result<BlockOutput, SimulationError>)
    requires
        forall|i: int|
            0 <= i < plan.parts@.len() ==> (#[trigger] plan.parts@[i]).start <= plan.parts@[i].end,
    ensures
        ({
            let (uncompressed, with_compression) = totals(
                *plan,
                *compressed,
                chunker,
                group_overhead,
            );
            match r {
                Ok(output) => output.uncompressed == uncompressed && output.compressed
                    == with_compression,
                Err(e) => e == SimulationError::Overflow && (uncompressed > u64::MAX
                    || with_compression > u64::MAX),
            }
        }),
{
    let count: u128 = plan.parts.len() as u128;
    assert(count * group_overhead <= 0xffff_ffff_ffff_ffff * 0xffff_ffff_ffff_ffff)
        by (nonlinear_arith)
        requires
            count <= 0xffff_ffff_ffff_ffff,
            group_overhead <= 0xffff_ffff_ffff_ffff,
    ;
    let overhead: u128 = count * group_overhead as u128;
    let mut data: u128 = 0;
    let mut i: usize = 0;
    while i < plan.parts.len()
        invariant
            i <= plan.parts@.len(),
            forall|j: int|
                0 <= j < plan.parts@.len() ==> (#[trigger] plan.parts@[j]).start
                    <= plan.parts@[j].end,
            data == size_of_parts(plan.parts@, i as nat),
            data <= i * 0xffff_ffff_ffff_ffff,
        decreases plan.parts@.len() - i,
    {
        let part = plan.parts[i];
        assert(plan.parts@[i as int].start <= plan.parts@[i as int].end);
        assert(i * 0xffff_ffff_ffff_ffff <= 0xffff_ffff_ffff_ffff * 0xffff_ffff_ffff_ffff)
            by (nonlinear_arith)
            requires
                i <= 0xffff_ffff_ffff_ffff,
        ;
        data = data + (part.end - part.start) as u128;
        i = i + 1;
        assert(i * 0xffff_ffff_ffff_ffff == (i - 1) * 0xffff_ffff_ffff_ffff
            + 0xffff_ffff_ffff_ffff) by (nonlinear_arith);
    }
    let mut compressed_data: u128 = 0;
    let mut j: usize = 0;
    while j < compressed.parts.len()
        invariant
            j <= compressed.parts@.len(),
            compressed_data == sum_of(compressed.parts@, j as nat),
            compressed_data <= j * 0xffff_ffff_ffff_ffff,
        decreases compressed.parts@.len() - j,
    {
        assert(j * 0xffff_ffff_ffff_ffff <= 0xffff_ffff_ffff_ffff * 0xffff_ffff_ffff_ffff)
            by (nonlinear_arith)
            requires
                j <= 0xffff_ffff_ffff_ffff,
        ;
        compressed_data = compressed_data + compressed.parts[j] as u128;
        j = j + 1;
        assert(j * 0xffff_ffff_ffff_ffff == (j - 1) * 0xffff_ffff_ffff_ffff
            + 0xffff_ffff_ffff_ffff) by (nonlinear_arith);
    }
    let limit: u128 = 0xffff_ffff_ffff_ffff;
    if overhead > limit || data > limit || compressed_data > limit {
        return Err(SimulationError::Overflow);
    }
    let sizes: u128 = if chunker.is_fixed() {
        0
    } else {
        4 * count
    };
    let uncompressed: u128 = plan.index_data.len() as u128 + sizes + data + overhead;
    let total: u128 = compressed.index as u128 + compressed.sizes as u128 + compressed_data
        + overhead;
    if uncompressed > limit || total > limit {
        return Err(SimulationError::Overflow);
    }
    Ok(BlockOutput { uncompressed: uncompressed as u64, compressed: total as u64 })
}

/// A chunk of a file in a plan.
#[derive(Debug)]
pub struct PlannedChunk {
    pub hash: HashDigest,
    /// The group that it is stored in.
    pub group_number: u64,
}

/// The entries of the tar archive that bytes hold: the byte of the type of each and, of a
/// regular file, the data; one that cannot be read is not there.
pub uninterp spec fn tar_files(bytes: Seq<u8>) -> Seq<Option<(u8, Seq<u8>)>>;

/// The views of entries.
pub open spec fn file_views(entries: Seq<Option<(u8, Vec<u8>)>>) -> Seq<Option<(u8, Seq<u8>)>> {
    entries.map_values(
        |entry: Option<(u8, Vec<u8>)>|
            match entry {
                Some((kind, data)) => Some((kind, data@)),
                None => None,
            },
    )
}

/// `tar::Archive::entries`: the entries of the archive in its order, named and not
/// described. Of each entry, `tar::EntryType::as_byte` gives the byte of its type, and
/// reading a regular one to its end gives the data.
#[verifier::external_body]
fn read_tar_files(bytes: &[u8]) -> (r: Vec<Option<(u8, Vec<u8>)>>)
    ensures
        file_views(r@) == tar_files(bytes@),
{
    let mut archive = tar::Archive::new(bytes);
    let Ok(entries) = archive.entries() else { return vec![None] };
    entries.map(|entry| entry.and_then(|mut entry| match entry.header().entry_type() {
        tar::EntryType::Regular => {
            let mut data = Vec::new();
            std::io::Read::read_to_end(&mut entry, &mut data)?;
            Ok((tar::EntryType::Regular.as_byte(), data))
        },
        kind => Ok((kind.as_byte(), Vec::new())),
    }).ok()).collect()
}

/// The type of a regular file in an archive.
pub const REGULAR_FILE: u8 = 0x30;

/// The data of the regular files among the first `n` entries.
pub open spec fn regular_files(entries: Seq<Option<(u8, Seq<u8>)>>, n: nat) -> Seq<Seq<u8>>
    decreases n,
{
    if n == 0 {
        Seq::empty()
    } else {
        let before = regular_files(entries, (n - 1) as nat);
        match entries[n - 1] {
            Some((kind, data)) => if kind == REGULAR_FILE {
                before.push(data)
            } else {
                before
            },
            None => before,
        }
    }
}

/// The data of the regular files of an archive, where every entry can be read.
pub open spec fn archive_files(entries: Seq<Option<(u8, Seq<u8>)>>) -> Option<Seq<Seq<u8>>> {
    if exists|i: int| 0 <= i < entries.len() && #[trigger] entries[i] is None {
        None
    } else {
        Some(regular_files(entries, entries.len()))
    }
}

/// The data of files.
pub open spec fn data_views(files: Seq<Vec<u8>>) -> Seq<Seq<u8>> {
    Seq::new(files.len(), |i: int| files[i]@)
}

/// Picks the data of the regular files from the entries of an archive.
pub fn select_files(entries: Vec<Option<(u8, Vec<u8>)>>) -> (r: Result<
    Vec<Vec<u8>>,
    SimulationError,
>)
    ensures
        match r {
            Ok(files) => archive_files(file_views(entries@)) == Some(data_views(files@)),
            Err(e) => e == SimulationError::UnreadableArchive && archive_files(
                file_views(entries@),
            ) is None,
        },
{
    let ghost all = file_views(entries@);
    let ghost given = entries@;
    let mut rest = entries;
    let mut files: Vec<Vec<u8>> = Vec::new();
    let mut taken: Ghost<nat> = Ghost(0);
    assert(rest@ =~= given.skip(0));
    assert(data_views(files@) =~= regular_files(all, 0));
    while rest.len() > 0
        invariant
            given == entries@,
            all == file_views(given),
            taken@ + rest@.len() == given.len(),
            rest@ == given.skip(taken@ as int),
            data_views(files@) == regular_files(all, taken@),
            forall|i: int| 0 <= i < taken@ ==> #[trigger] all[i] is Some,
        decreases rest@.len(),
    {
        let entry = rest.remove(0);
        assert(entry == given[taken@ as int]);
        assert(rest@ =~= given.skip(taken@ as int + 1));
        match entry {
            Some((kind, data)) => {
                assert(all[taken@ as int] == Some((kind, data@)));
                if kind == REGULAR_FILE {
                    let ghost before = data_views(files@);
                    let ghost added = data@;
                    files.push(data);
                    assert(data_views(files@) =~= before.push(added));
                }
            },
            None => {
                assert(all[taken@ as int] is None);
                return Err(SimulationError::UnreadableArchive);
            },
        }
        proof {
            taken@ = taken@ + 1;
        }
    }
    assert(taken@ == all.len());
    Ok(files)
}

/// The data of the regular files of an old archive, in its order.
pub fn old_archive_files(archive: &[u8]) -> (r: Result<Vec<Vec<u8>>, SimulationError>)
    ensures
        match r {
            Ok(files) => archive_files(tar_files(archive@)) == Some(data_views(files@)),
            Err(e) => e == SimulationError::UnreadableArchive && archive_files(
                tar_files(archive@),
            ) is None,
        },
{
    select_files(read_tar_files(archive))
}

/// A file with its chunks.
#[derive(Debug)]
pub struct ChunkedFile {
    pub data: Vec<u8>,
    pub chunks: Vec<Part>,
}

/// The digests of the chunks of the first `n` files.
pub open spec fn local_digests(files: Seq<ChunkedFile>, n: nat) -> Seq<DigestView>
    decreases n,
{
    if n == 0 {
        Seq::empty()
    } else {
        local_digests(files, (n - 1) as nat) + chunk_digests(
            files[n - 1].data@,
            files[n - 1].chunks@,
        )
    }
}

/// The chunks that are already on the device: those of the files of an old archive.
pub fn local_blocks(files: &Vec<ChunkedFile>) -> (r: Vec<HashDigest>)
    requires
        forall|i: int|
            0 <= i < files@.len() ==> all_within(
                (#[trigger] files@[i]).chunks@,
                files@[i].data@.len(),
            ),
    ensures
        digest_views(r@) == local_digests(files@, files@.len()),
{
    let mut r: Vec<HashDigest> = Vec::new();
    let mut i: usize = 0;
    assert(digest_views(r@) =~= local_digests(files@, 0));
    while i < files.len()
        invariant
            i <= files@.len(),
            forall|j: int|
                0 <= j < files@.len() ==> all_within(
                    (#[trigger] files@[j]).chunks@,
                    files@[j].data@.len(),
                ),
            digest_views(r@) == local_digests(files@, i as nat),
        decreases files@.len() - i,
    {
        let file = &files[i];
        assert(all_within(files@[i as int].chunks@, files@[i as int].data@.len()));
        let mut digests = hash_chunks(file.data.as_slice(), &file.chunks);
        let ghost before = r@;
        let ghost added = digests@;
        r.append(&mut digests);
        assert(digest_views(r@) =~= digest_views(before) + digest_views(added));
        i = i + 1;
    }
    r
}

/// Whether a file has the chunks that a chunker gives it.
pub open spec fn is_chunked<C: Fn(&[u8]) -> Vec<Part>>(chunker: C, file: ChunkedFile) -> bool {
    exists|data: &[u8]|
        data@ == file.data@ && #[trigger] call_ensures(chunker, (data,), file.chunks)
}

/// Whether these are files with given data and the chunks that a chunker gives them.
pub open spec fn are_chunked<C: Fn(&[u8]) -> Vec<Part>>(
    chunker: C,
    data: Seq<Seq<u8>>,
    files: Seq<ChunkedFile>,
) -> bool {
    &&& files.len() == data.len()
    &&& forall|i: int|
        0 <= i < files.len() ==> (#[trigger] files[i]).data@ == data[i] && is_chunked(
            chunker,
            files[i],
        )
}

/// The chunks of the regular files of an old archive, which are already on the device. The
/// chunker divides the data of a file into chunks.
pub fn old_archive_blocks<C: Fn(&[u8]) -> Vec<Part>>(archive: &[u8], chunker: C) -> (r: Result<
    Vec<HashDigest>,
    SimulationError,
>)
    requires
        forall|data: &[u8]| call_requires(chunker, (data,)),
    ensures
        match r {
            Ok(blocks) => {
                &&& archive_files(tar_files(archive@)) is Some
                &&& exists|files: Seq<ChunkedFile>| #[trigger]
                    are_chunked(chunker, archive_files(tar_files(archive@))->0, files)
                        && digest_views(blocks@) == local_digests(files, files.len())
            },
            Err(SimulationError::UnreadableArchive) => archive_files(tar_files(archive@)) is None,
            Err(e) => {
                &&& e == SimulationError::InvalidChunks
                &&& archive_files(tar_files(archive@)) is Some
                &&& exists|file: ChunkedFile| #[trigger]
                    is_chunked(chunker, file) && archive_files(
                        tar_files(archive@),
                    )->0.contains(file.data@) && !all_within(file.chunks@, file.data@.len())
            },
        },
{
    let found = match old_archive_files(archive) {
        Ok(found) => found,
        Err(e) => return Err(e),
    };
    let ghost data = data_views(found@);
    let ghost given = found@;
    let mut rest = found;
    let mut files: Vec<ChunkedFile> = Vec::new();
    assert(rest@ =~= given.skip(0));
    while rest.len() > 0
        invariant
            forall|data: &[u8]| call_requires(chunker, (data,)),
            archive_files(tar_files(archive@)) == Some(data),
            data == data_views(given),
            files@.len() + rest@.len() == given.len(),
            rest@ == given.skip(files@.len() as int),
            forall|i: int|
                0 <= i < files@.len() ==> (#[trigger] files@[i]).data@ == data[i] && is_chunked(
                    chunker,
                    files@[i],
                ) && all_within(files@[i].chunks@, files@[i].data@.len()),
        decreases rest@.len(),
    {
        let bytes = rest.remove(0);
        assert(bytes == given[files@.len() as int]);
        assert(rest@ =~= given.skip(files@.len() as int + 1));
        let slice = bytes.as_slice();
        let chunks = chunker(slice);
        assert(slice@ == bytes@ && call_ensures(chunker, (slice,), chunks));
        let within = are_within(&chunks, slice.len());
        let ghost outcome = chunks;
        let file = ChunkedFile { data: bytes, chunks };
        assert(file.chunks == outcome);
        assert(slice@ == file.data@ && call_ensures(chunker, (slice,), file.chunks));
        if !within {
            assert(data[files@.len() as int] == file.data@);
            assert(data.contains(file.data@));
            assert(is_chunked(chunker, file));
            return Err(SimulationError::InvalidChunks);
        }
        files.push(file);
    }
    assert(are_chunked(chunker, archive_files(tar_files(archive@))->0, files@)) by {
        assert(archive_files(tar_files(archive@))->0 == data);
        assert(files@.len() == data.len());
    }
    let blocks = local_blocks(&files);
    assert(digest_views(blocks@) == local_digests(files@, files@.len()));
    Ok(blocks)
}

/// The groups that are downloaded for the first `n` chunks: every group that holds a chunk
/// that is not on the device, once.
pub open spec fn planned_groups(local: Seq<DigestView>, chunks: Seq<PlannedChunk>, n: nat) -> Seq<
    u64,
>
    decreases n,
{
    if n == 0 {
        Seq::empty()
    } else {
        let before = planned_groups(local, chunks, (n - 1) as nat);
        let chunk = chunks[n - 1];
        if !local.contains(chunk.hash@) && !before.contains(chunk.group_number) {
            before.push(chunk.group_number)
        } else {
            before
        }
    }
}

/// How much is downloaded for the first `n` groups, with an overhead for each.
pub open spec fn groups_size(wanted: Seq<u64>, groups: Seq<usize>, overhead: u64, n: nat) -> int
    decreases n,
{
    if n == 0 {
        0
    } else {
        groups_size(wanted, groups, overhead, (n - 1) as nat) + groups[wanted[n - 1] as int]
            + overhead
    }
}

/// How much is downloaded for the first `n` chunks.
pub open spec fn planned_download(
    local: Seq<DigestView>,
    chunks: Seq<PlannedChunk>,
    groups: Seq<usize>,
    overhead: u64,
    n: nat,
) -> int {
    let wanted = planned_groups(local, chunks, n);
    groups_size(wanted, groups, overhead, wanted.len())
}

/// Whether all groups that are downloaded for the first `n` chunks exist.
pub open spec fn groups_exist(
    local: Seq<DigestView>,
    chunks: Seq<PlannedChunk>,
    count: nat,
    n: nat,
) -> bool {
    forall|k: int|
        0 <= k < planned_groups(local, chunks, n).len() ==> (#[trigger] planned_groups(
            local,
            chunks,
            n,
        )[k]) < count
}

proof fn lemma_groups_size(wanted: Seq<u64>, more: Seq<u64>, groups: Seq<usize>, overhead: u64, n: nat)
    requires
        n <= wanted.len() <= more.len(),
        more.take(wanted.len() as int) == wanted,
    ensures
        groups_size(more, groups, overhead, n) == groups_size(wanted, groups, overhead, n),
    decreases n,
{
    if n > 0 {
        lemma_groups_size(wanted, more, groups, overhead, (n - 1) as nat);
        assert(more.take(wanted.len() as int)[n - 1] == more[n - 1]);
    }
}

/// The groups for more chunks begin with those for fewer.
proof fn lemma_planned_grow(local: Seq<DigestView>, chunks: Seq<PlannedChunk>, m: nat, n: nat)
    requires
        m <= n,
    ensures
        planned_groups(local, chunks, m).len() <= planned_groups(local, chunks, n).len(),
        planned_groups(local, chunks, n).take(planned_groups(local, chunks, m).len() as int)
            == planned_groups(local, chunks, m),
    decreases n - m,
{
    if m < n {
        lemma_planned_grow(local, chunks, m, (n - 1) as nat);
        let small = planned_groups(local, chunks, m);
        let large = planned_groups(local, chunks, n);
        let middle = planned_groups(local, chunks, (n - 1) as nat);
        assert(large.take(small.len() as int) =~= middle.take(small.len() as int));
    } else {
        let all = planned_groups(local, chunks, m);
        assert(all.take(all.len() as int) =~= all);
    }
}

/// Computes how much is downloaded for the chunks of all files of a plan, in order.
/// `groups` are the compressed sizes of the groups.
pub fn simulate_planned_download(
    local: &Vec<HashDigest>,
    chunks: &Vec<PlannedChunk>,
    groups: &Vec<usize>,
    group_overhead: u64,
) -> (r: Result<u64, SimulationError>)
    ensures
        match r {
            Ok(size) => {
                &&& groups_exist(digest_views(local@), chunks@, groups@.len(), chunks@.len())
                &&& size == planned_download(
                    digest_views(local@),
                    chunks@,
                    groups@,
                    group_overhead,
                    chunks@.len(),
                )
            },
            Err(SimulationError::InvalidGroup) => !groups_exist(
                digest_views(local@),
                chunks@,
                groups@.len(),
                chunks@.len(),
            ),
            Err(e) => e == SimulationError::Overflow && exists|n: nat|
                n <= chunks@.len() && #[trigger] planned_download(
                    digest_views(local@),
                    chunks@,
                    groups@,
                    group_overhead,
                    n,
                ) > u64::MAX,
        },
{
    let ghost locals = digest_views(local@);
    let mut seen: Vec<u64> = Vec::new();
    let mut size: u64 = 0;
    let mut i: usize = 0;
    while i < chunks.len()
        invariant
            i <= chunks@.len(),
            locals == digest_views(local@),
            seen@ == planned_groups(locals, chunks@, i as nat),
            size == groups_size(seen@, groups@, group_overhead, seen@.len()),
            groups_exist(locals, chunks@, groups@.len(), i as nat),
        decreases chunks@.len() - i,
    {
        assert(locals.take(local@.len() as int) =~= locals);
        let chunk = &chunks[i];
        let ghost next = planned_groups(locals, chunks@, (i + 1) as nat);
        if !contains_digest(local, local.len(), &chunk.hash) && !contains_group(
            &seen,
            chunk.group_number,
        ) {
            let group: u64 = chunk.group_number;
            assert(next == seen@.push(group));
            if group >= groups.len() as u64 {
                proof {
                    lemma_planned_grow(locals, chunks@, (i + 1) as nat, chunks@.len());
                    let all = planned_groups(locals, chunks@, chunks@.len());
                    assert(all.take(next.len() as int)[seen@.len() as int] == group);
                    assert(all[seen@.len() as int] == group);
                }
                return Err(SimulationError::InvalidGroup);
            }
            proof {
                assert(next.take(seen@.len() as int) =~= seen@);
                lemma_groups_size(seen@, next, groups@, group_overhead, seen@.len());
            }
            let compressed: u64 = groups[group as usize] as u64;
            let total: u128 = size as u128 + compressed as u128 + group_overhead as u128;
            assert(total == groups_size(next, groups@, group_overhead, next.len()));
            if total > 0xffff_ffff_ffff_ffff {
                assert(planned_download(locals, chunks@, groups@, group_overhead, (i + 1) as nat)
                    > u64::MAX);
                return Err(SimulationError::Overflow);
            }
            size = total as u64;
            seen.push(group);
        }
        assert(seen@ == next);
        i = i + 1;
    }
    Ok(size)
}

fn contains_group(list: &Vec<u64>, group: u64) -> (r: bool)
    ensures
        r == list@.contains(group),
{
    let mut i: usize = 0;
    while i < list.len()
        invariant
            i <= list@.len(),
            forall|j: int| 0 <= j < i ==> (#[trigger] list@[j]) != group,
        decreases list@.len() - i,
    {
        if list[i] == group {
            assert(list@[i as int] == group);
            return true;
        }
        i = i + 1;
    }
    false
}

proof fn lemma_chunk_parts(
    old: Seq<DigestView>,
    new: Seq<DigestView>,
    chunks: Seq<Part>,
    part: Part,
    n: nat,
)
    requires
        n <= chunks.len(),
    ensures
        chunk_parts(old, new, chunks, n).contains(part) <==> exists|i: int|
            0 <= i < n && #[trigger] is_fetched(old, new, i) && chunks[i] == part,
    decreases n,
{
    if n > 0 {
        lemma_chunk_parts(old, new, chunks, part, (n - 1) as nat);
        let before = chunk_parts(old, new, chunks, (n - 1) as nat);
        let all = chunk_parts(old, new, chunks, n);
        if before.contains(part) {
            let k = choose|k: int| 0 <= k < before.len() && before[k] == part;
            assert(all[k] == part);
        }
        if all.contains(part) {
            let k = choose|k: int| 0 <= k < all.len() && all[k] == part;
            if k < before.len() {
                assert(before[k] == part);
            } else {
                assert(is_fetched(old, new, n - 1));
            }
        }
        if is_fetched(old, new, n - 1) && chunks[n - 1] == part {
            assert(all[before.len() as int] == part);
        }
    }
}

/// What is downloaded chunk by chunk are the chunks that are neither on the device nor repeat
/// an earlier one.
pub proof fn law_missing_chunks_are_downloaded(
    old: Seq<DigestView>,
    new: Seq<DigestView>,
    chunks: Seq<Part>,
    part: Part,
)
    requires
        chunks.len() == new.len(),
    ensures
        chunk_parts(old, new, chunks, chunks.len()).contains(part) <==> exists|i: int|
            0 <= i < chunks.len() && #[trigger] chunks[i] == part && !old.contains(new[i])
                && forall|j: int| 0 <= j < i ==> #[trigger] new[j] != new[i],
{
    lemma_chunk_parts(old, new, chunks, part, chunks.len());
    assert forall|i: int| 0 <= i < chunks.len() implies #[trigger] is_fetched(old, new, i) == (
    !old.contains(new[i]) && forall|j: int| 0 <= j < i ==> #[trigger] new[j] != new[i]) by {
        if new.take(i).contains(new[i]) {
            let j = choose|j: int| 0 <= j < i && new.take(i)[j] == new[i];
            assert(new[j] == new[i]);
        }
        if exists|j: int| 0 <= j < i && #[trigger] new[j] == new[i] {
            let j = choose|j: int| 0 <= j < i && #[trigger] new[j] == new[i];
            assert(new.take(i)[j] == new[i]);
        }
    }
    if exists|i: int|
        0 <= i < chunks.len() && #[trigger] chunks[i] == part && !old.contains(new[i]) && forall|
            j: int,
        |
            0 <= j < i ==> #[trigger] new[j] != new[i] {
        let i = choose|i: int|
            0 <= i < chunks.len() && #[trigger] chunks[i] == part && !old.contains(new[i])
                && forall|j: int| 0 <= j < i ==> #[trigger] new[j] != new[i];
        assert(is_fetched(old, new, i));
    }
}

proof fn lemma_needed_groups(
    old: Seq<DigestView>,
    new: Seq<DigestView>,
    block_size: int,
    group_size: int,
    n: nat,
)
    ensures
        ({
            let groups = needed_groups(old, new, block_size, group_size, n);
            &&& groups.no_duplicates()
            &&& forall|i: int|
                0 <= i < n && #[trigger] is_fetched(old, new, i) ==> groups.contains(
                    group_of(i, block_size, group_size),
                )
            &&& forall|g: int| #[trigger]
                groups.contains(g) ==> exists|i: int|
                    0 <= i < n && #[trigger] is_fetched(old, new, i) && group_of(
                        i,
                        block_size,
                        group_size,
                    ) == g
        }),
    decreases n,
{
    if n > 0 {
        lemma_needed_groups(old, new, block_size, group_size, (n - 1) as nat);
        let before = needed_groups(old, new, block_size, group_size, (n - 1) as nat);
        let all = needed_groups(old, new, block_size, group_size, n);
        let group = group_of(n - 1, block_size, group_size);
        assert forall|g: int| before.contains(g) implies #[trigger] all.contains(g) by {
            let k = choose|k: int| 0 <= k < before.len() && before[k] == g;
            assert(all[k] == g);
        }
        if all.len() > before.len() {
            assert(all[before.len() as int] == group);
        }
        assert forall|g: int| #[trigger] all.contains(g) implies exists|i: int|
            0 <= i < n && #[trigger] is_fetched(old, new, i) && group_of(i, block_size, group_size)
                == g by {
            let k = choose|k: int| 0 <= k < all.len() && all[k] == g;
            if k < before.len() {
                assert(before[k] == g);
                assert(before.contains(g));
            } else {
                assert(is_fetched(old, new, n - 1));
            }
        }
        assert forall|i: int| 0 <= i < n && #[trigger] is_fetched(old, new, i) implies all.contains(
            group_of(i, block_size, group_size),
        ) by {
            if i < n - 1 {
                assert(before.contains(group_of(i, block_size, group_size)));
            } else {
                assert(all.contains(group));
            }
        }
    }
}

/// What is downloaded in groups are the groups of the chunks that are missing, each once, and
/// a group covers the beginning of each of its chunks.
pub proof fn law_groups_of_missing_chunks_are_downloaded(
    old: Seq<DigestView>,
    new: Seq<DigestView>,
    block_size: int,
    group_size: int,
    size: nat,
    n: nat,
    i: int,
)
    requires
        block_size > 0,
        group_size > 0,
        size <= usize::MAX,
        0 <= i < n,
        i * block_size < size,
    ensures
        ({
            let groups = needed_groups(old, new, block_size, group_size, n);
            let group = group_of(i, block_size, group_size);
            let part = group_part(group, group_size, size as int);
            &&& groups.no_duplicates()
            &&& is_fetched(old, new, i) ==> groups.contains(group)
            &&& forall|g: int| #[trigger]
                groups.contains(g) ==> exists|k: int|
                    0 <= k < n && #[trigger] is_fetched(old, new, k) && group_of(
                        k,
                        block_size,
                        group_size,
                    ) == g
            &&& part.start <= i * block_size < part.end
            &&& part.within(size)
        }),
{
    lemma_needed_groups(old, new, block_size, group_size, n);
    let offset = i * block_size;
    let group = offset / group_size;
    assert(offset >= 0) by (nonlinear_arith)
        requires
            i >= 0,
            block_size > 0,
            offset == i * block_size,
    ;
    vstd::arithmetic::div_mod::lemma_fundamental_div_mod(offset, group_size);
    assert(group * group_size <= offset < (group + 1) * group_size) by (nonlinear_arith)
        requires
            offset == group_size * group + offset % group_size,
            0 <= offset % group_size < group_size,
    ;
    assert(group * group_size >= 0) by (nonlinear_arith)
        requires
            group >= 0,
            group_size > 0,
    ;
}

proof fn lemma_planned_exactly(local: Seq<DigestView>, chunks: Seq<PlannedChunk>, n: nat)
    requires
        n <= chunks.len(),
    ensures
        ({
            let groups = planned_groups(local, chunks, n);
            &&& groups.no_duplicates()
            &&& forall|i: int|
                0 <= i < n && !local.contains((#[trigger] chunks[i]).hash@) ==> groups.contains(
                    chunks[i].group_number,
                )
            &&& forall|g: u64| #[trigger]
                groups.contains(g) ==> exists|i: int|
                    0 <= i < n && (#[trigger] chunks[i]).group_number == g && !local.contains(
                        chunks[i].hash@,
                    )
        }),
    decreases n,
{
    if n > 0 {
        lemma_planned_exactly(local, chunks, (n - 1) as nat);
        let before = planned_groups(local, chunks, (n - 1) as nat);
        let all = planned_groups(local, chunks, n);
        let group = chunks[n - 1].group_number;
        assert forall|g: u64| before.contains(g) implies #[trigger] all.contains(g) by {
            let k = choose|k: int| 0 <= k < before.len() && before[k] == g;
            assert(all[k] == g);
        }
        if all.len() > before.len() {
            assert(all[before.len() as int] == group);
        }
        assert forall|g: u64| #[trigger] all.contains(g) implies exists|i: int|
            0 <= i < n && (#[trigger] chunks[i]).group_number == g && !local.contains(
                chunks[i].hash@,
            ) by {
            let k = choose|k: int| 0 <= k < all.len() && all[k] == g;
            if k < before.len() {
                assert(before[k] == g);
                assert(before.contains(g));
            } else {
                assert(chunks[n - 1].group_number == g);
            }
        }
        assert forall|i: int|
            0 <= i < n && !local.contains((#[trigger] chunks[i]).hash@) implies all.contains(
            chunks[i].group_number,
        ) by {
            if i < n - 1 {
                assert(before.contains(chunks[i].group_number));
            }
        }
    }
}

/// A plan downloads the groups that hold a chunk that is not on the device, each once, and no
/// other ones.
pub proof fn law_planned_groups_hold_missing_chunks(
    local: Seq<DigestView>,
    chunks: Seq<PlannedChunk>,
)
    ensures
        ({
            let groups = planned_groups(local, chunks, chunks.len());
            &&& groups.no_duplicates()
            &&& forall|i: int|
                0 <= i < chunks.len() && !local.contains((#[trigger] chunks[i]).hash@)
                    ==> groups.contains(chunks[i].group_number)
            &&& forall|g: u64| #[trigger]
                groups.contains(g) ==> exists|i: int|
                    0 <= i < chunks.len() && (#[trigger] chunks[i]).group_number == g
                        && !local.contains(chunks[i].hash@)
        }),
{
    lemma_planned_exactly(local, chunks, chunks.len());
}

/// A number is read back from its bytes.
pub proof fn law_big_endian_is_read_back(n: nat)
    requires
        n <= u32::MAX,
    ensures
        ({
            let bytes = big_endian(n);
            &&& bytes.len() == 4
            &&& n == 16777216 * bytes[0] + 65536 * bytes[1] + 256 * bytes[2] + bytes[3]
        }),
{
}

/// The list of sizes holds the bytes of each size in its place.
pub proof fn law_sizes_are_listed_in_order(sizes: Seq<usize>, n: nat, i: int)
    requires
        0 <= i < n <= sizes.len(),
    ensures
        sizes_bytes(sizes, n).len() == 4 * n,
        sizes_bytes(sizes, n).subrange(4 * i, 4 * i + 4) == big_endian(sizes[i] as nat),
    decreases n,
{
    let before = sizes_bytes(sizes, (n - 1) as nat);
    lemma_sizes_len(sizes, (n - 1) as nat);
    if i < n - 1 {
        law_sizes_are_listed_in_order(sizes, (n - 1) as nat, i);
        assert(sizes_bytes(sizes, n).subrange(4 * i, 4 * i + 4) =~= before.subrange(
            4 * i,
            4 * i + 4,
        ));
    } else {
        assert(sizes_bytes(sizes, n).subrange(4 * i, 4 * i + 4) =~= big_endian(sizes[i] as nat));
    }
}

proof fn lemma_sizes_len(sizes: Seq<usize>, n: nat)
    requires
        n <= sizes.len(),
    ensures
        sizes_bytes(sizes, n).len() == 4 * n,
    decreases n,
{
    if n > 0 {
        lemma_sizes_len(sizes, (n - 1) as nat);
    }
}

/// The index of an image holds the digest of each chunk in its place.
pub proof fn law_index_holds_every_digest(digests: Seq<DigestView>, n: nat, i: int)
    requires
        0 <= i < n <= digests.len(),
        forall|k: int| 0 <= k < digests.len() ==> (#[trigger] digests[k]).1.len() == 32,
    ensures
        index_bytes(digests, n).len() == 32 * n,
        index_bytes(digests, n).subrange(32 * i, 32 * i + 32) == digests[i].1,
    decreases n,
{
    let before = index_bytes(digests, (n - 1) as nat);
    lemma_index_len(digests, (n - 1) as nat);
    if i < n - 1 {
        law_index_holds_every_digest(digests, (n - 1) as nat, i);
        assert(index_bytes(digests, n).subrange(32 * i, 32 * i + 32) =~= before.subrange(
            32 * i,
            32 * i + 32,
        ));
    } else {
        assert(index_bytes(digests, n).subrange(32 * i, 32 * i + 32) =~= digests[i].1);
    }
}

proof fn lemma_index_len(digests: Seq<DigestView>, n: nat)
    requires
        n <= digests.len(),
        forall|k: int| 0 <= k < digests.len() ==> (#[trigger] digests[k]).1.len() == 32,
    ensures
        index_bytes(digests, n).len() == 32 * n,
    decreases n,
{
    if n > 0 {
        lemma_index_len(digests, (n - 1) as nat);
    }
}

proof fn lemma_regular_files(
    entries: Seq<Option<(u8, Seq<u8>)>>,
    data: Seq<u8>,
    n: nat,
)
    requires
        n <= entries.len(),
    ensures
        regular_files(entries, n).contains(data) <==> exists|i: int|
            0 <= i < n && #[trigger] entries[i] == Some((REGULAR_FILE, data)),
    decreases n,
{
    if n > 0 {
        lemma_regular_files(entries, data, (n - 1) as nat);
        let before = regular_files(entries, (n - 1) as nat);
        let all = regular_files(entries, n);
        if before.contains(data) {
            let k = choose|k: int| 0 <= k < before.len() && before[k] == data;
            assert(all[k] == data);
        }
        if all.contains(data) {
            let k = choose|k: int| 0 <= k < all.len() && all[k] == data;
            if k < before.len() {
                assert(before[k] == data);
            } else {
                assert(entries[n - 1] == Some((REGULAR_FILE, data)));
            }
        }
        if entries[n - 1] == Some((REGULAR_FILE, data)) {
            assert(all[before.len() as int] == data);
        }
    }
}

/// The files of an archive are the regular ones, all of them; there are none where an entry
/// cannot be read.
pub proof fn law_files_of_an_archive_are_the_regular_ones(
    entries: Seq<Option<(u8, Seq<u8>)>>,
    data: Seq<u8>,
)
    ensures
        match archive_files(entries) {
            Some(files) => !entries.contains(None) && (files.contains(data) <==> entries.contains(
                Some((0x30u8, data)),
            )),
            None => entries.contains(None),
        },
{
    lemma_regular_files(entries, data, entries.len());
}

proof fn lemma_local_digests(files: Seq<ChunkedFile>, digest: DigestView, n: nat)
    requires
        n <= files.len(),
    ensures
        local_digests(files, n).contains(digest) <==> exists|i: int|
            0 <= i < n && chunk_digests((#[trigger] files[i]).data@, files[i].chunks@).contains(
                digest,
            ),
    decreases n,
{
    if n > 0 {
        lemma_local_digests(files, digest, (n - 1) as nat);
        let before = local_digests(files, (n - 1) as nat);
        let added = chunk_digests(files[n - 1].data@, files[n - 1].chunks@);
        let all = local_digests(files, n);
        if before.contains(digest) {
            let k = choose|k: int| 0 <= k < before.len() && before[k] == digest;
            assert(all[k] == digest);
        }
        if added.contains(digest) {
            let k = choose|k: int| 0 <= k < added.len() && added[k] == digest;
            assert(all[before.len() + k] == digest);
        }
        if all.contains(digest) {
            let k = choose|k: int| 0 <= k < all.len() && all[k] == digest;
            if k < before.len() {
                assert(before[k] == digest);
            } else {
                assert(added[k - before.len()] == digest);
            }
        }
    }
}

/// Whether a digest is that of a chunk of a file.
pub open spec fn is_chunk_of(file: ChunkedFile, digest: DigestView) -> bool {
    exists|k: int|
        0 <= k < file.chunks@.len() && chunk_digest(
            file.data@.subrange(
                (#[trigger] file.chunks@[k]).start as int,
                file.chunks@[k].end as int,
            ),
        ) == digest
}

/// What is on the device are the chunks of all files, and nothing else.
pub proof fn law_chunks_of_all_files_are_local(files: Seq<ChunkedFile>, digest: DigestView)
    ensures
        local_digests(files, files.len()).contains(digest) <==> exists|i: int|
            0 <= i < files.len() && is_chunk_of(#[trigger] files[i], digest),
{
    lemma_local_digests(files, digest, files.len());
    assert forall|i: int| 0 <= i < files.len() implies chunk_digests(
        (#[trigger] files[i]).data@,
        files[i].chunks@,
    ).contains(digest) == is_chunk_of(files[i], digest) by {
        let all = chunk_digests(files[i].data@, files[i].chunks@);
        if all.contains(digest) {
            let k = choose|k: int| 0 <= k < all.len() && all[k] == digest;
            assert(files[i].chunks@[k] == files[i].chunks@[k]);
        }
        if is_chunk_of(files[i], digest) {
            let file = files[i];
            let k = choose|k: int|
                0 <= k < file.chunks@.len() && chunk_digest(
                    file.data@.subrange(
                        (#[trigger] file.chunks@[k]).start as int,
                        file.chunks@[k].end as int,
                    ),
                ) == digest;
            assert(all[k] == digest);
        }
    }
}

} // verus!
