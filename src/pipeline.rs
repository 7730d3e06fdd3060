//! The chunk pipeline: the decisions of the loop that copies one response body
//! into a file, and the writer that hashes every byte it is handed.
//!
//! The runtime reads and writes; before each read it asks `next_step` what to
//! do, and hands each block it read to `record`.
use vstd::prelude::*;
use crate::types::{DownloadThreadControlFlag, GameDownloadError, RemoteAccessError};

verus! {

/// Largest block the copy loop asks for at once.
pub const COPY_BUF_SIZE: usize = 512;

#[verifier::external_type_specification]
#[verifier::external_body]
pub struct ExContext(md5::Context);

/// The bytes an MD5 context has consumed since it was created.
pub uninterp spec fn md5_input(c: md5::Context) -> Seq<u8>;

/// The MD5 digest of a byte sequence.
pub uninterp spec fn md5_digest(data: Seq<u8>) -> Seq<u8>;

/// Relies on md5::Context::new: a context that has consumed nothing.
#[verifier::external_body]
fn md5_context() -> (r: md5::Context)
    ensures
        md5_input(r) == Seq::<u8>::empty(),
{
    md5::Context::new()
}

/// Relies on md5::Context::consume: the data is appended to what the context
/// has consumed.
#[verifier::external_body]
fn md5_consume(c: &mut md5::Context, data: &[u8])
    ensures
        md5_input(*final(c)) == md5_input(*old(c)) + data@,
{
    c.consume(data)
}

/// Relies on md5::Context::compute: the 16-byte digest of all consumed data.
#[verifier::external_body]
fn md5_compute(c: md5::Context) -> (r: [u8; 16])
    ensures
        r@ == md5_digest(md5_input(c)),
{
    c.compute().0
}

/// A destination together with the hash of everything written to it.
pub struct DropWriter<W> {
    hasher: md5::Context,
    pub destination: W,
}

impl<W> DropWriter<W> {
    /// The bytes handed to the writer so far.
    pub closed spec fn written(&self) -> Seq<u8> {
        md5_input(self.hasher)
    }

    pub closed spec fn spec_destination(&self) -> W {
        self.destination
    }

    pub fn new(destination: W) -> (r: Self)
        ensures
            r.written() == Seq::<u8>::empty(),
            r.spec_destination() == destination,
    {
        DropWriter { hasher: md5_context(), destination }
    }

    /// Adds a block that was written to the destination to the hash.
    pub fn hash(&mut self, data: &[u8])
        ensures
            final(self).written() == old(self).written() + data@,
            final(self).spec_destination() == old(self).spec_destination(),
    {
        md5_consume(&mut self.hasher, data);
    }

    /// The MD5 digest of everything written.
    pub fn finish(self) -> (r: [u8; 16])
        ensures
            r@ == md5_digest(self.written()),
    {
        md5_compute(self.hasher)
    }
}

/// What the copy loop does next.
#[derive(PartialEq, Eq, Structural, Clone, Copy, Debug)]
pub enum CopyStep {
    /// The control flag says stop: leave, not completed.
    Abandon,
    /// All declared bytes are copied.
    Finished,
    /// Read at most this many bytes (at least one).
    Read(usize),
}

/// The flag is polled before every read, and before anything is copied; once
/// some bytes are copied, reaching the declared length finishes the copy.
pub open spec fn copy_step(size: u64, copied: u64, flag: DownloadThreadControlFlag) -> CopyStep {
    if copied >= size && (copied > 0 || flag != DownloadThreadControlFlag::Stop) {
        CopyStep::Finished
    } else if flag == DownloadThreadControlFlag::Stop {
        CopyStep::Abandon
    } else if size - copied < COPY_BUF_SIZE {
        CopyStep::Read((size - copied) as usize)
    } else {
        CopyStep::Read(COPY_BUF_SIZE)
    }
}

/// Copies one response body of a declared length into a destination.
pub struct DropDownloadPipeline<R, W> {
    pub source: R,
    pub destination: DropWriter<W>,
    size: u64,
    copied: u64,
}

impl<R, W> DropDownloadPipeline<R, W> {
    pub closed spec fn spec_size(&self) -> u64 {
        self.size
    }

    pub closed spec fn spec_copied(&self) -> u64 {
        self.copied
    }

    pub closed spec fn spec_source(&self) -> R {
        self.source
    }

    pub closed spec fn spec_destination(&self) -> DropWriter<W> {
        self.destination
    }

    /// Never more bytes copied than declared, and every copied byte hashed.
    pub open spec fn wf(&self) -> bool {
        &&& self.spec_copied() <= self.spec_size()
        &&& self.spec_destination().written().len() == self.spec_copied()
    }

    pub fn new(source: R, destination: DropWriter<W>, size: u64) -> (r: Self)
        requires
            destination.written().len() == 0,
        ensures
            r.wf(),
            r.spec_size() == size,
            r.spec_copied() == 0,
            r.spec_source() == source,
            r.spec_destination() == destination,
    {
        DropDownloadPipeline { source, destination, size, copied: 0 }
    }

    pub fn size(&self) -> (r: u64)
        ensures
            r == self.spec_size(),
    {
        self.size
    }

    /// Bytes copied so far; this is also what has been added to progress.
    pub fn copied(&self) -> (r: u64)
        ensures
            r == self.spec_copied(),
    {
        self.copied
    }

    pub fn is_complete(&self) -> (r: bool)
        ensures
            r == (self.spec_copied() == self.spec_size()),
    {
        self.copied == self.size
    }

    /// Decides the next move: the control flag, polled before every read and
    /// before anything is copied, may abandon; once the declared length is
    /// copied the copy is finished.
    pub fn next_step(&self, flag: DownloadThreadControlFlag) -> (r: CopyStep)
        ensures
            r == copy_step(self.spec_size(), self.spec_copied(), flag),
    {
        if self.copied >= self.size && (self.copied > 0 || flag != DownloadThreadControlFlag::Stop) {
            CopyStep::Finished
        } else if flag == DownloadThreadControlFlag::Stop {
            CopyStep::Abandon
        } else if self.size - self.copied < COPY_BUF_SIZE as u64 {
            CopyStep::Read((self.size - self.copied) as usize)
        } else {
            CopyStep::Read(COPY_BUF_SIZE)
        }
    }

    /// Takes a block read from the source and already written to the
    /// destination: hashes it and counts it. An empty block before the
    /// declared length is reached is a short read, which is an error.
    pub fn record(&mut self, data: &[u8]) -> (r: Result<usize, GameDownloadError>)
        requires
            old(self).wf(),
            data@.len() <= old(self).spec_size() - old(self).spec_copied(),
        ensures
            final(self).wf(),
            final(self).spec_size() == old(self).spec_size(),
            data@.len() == 0 && old(self).spec_copied() < old(self).spec_size() ==> r == Err::<
                usize,
                GameDownloadError,
            >(GameDownloadError::Communication(RemoteAccessError::InvalidResponse))
                && final(self).spec_copied() == old(self).spec_copied(),
            !(data@.len() == 0 && old(self).spec_copied() < old(self).spec_size()) ==> r == Ok::<
                usize,
                GameDownloadError,
            >(data@.len() as usize) && final(self).spec_copied() == old(self).spec_copied()
                + data@.len() && final(self).spec_destination().written() == old(
                self,
            ).spec_destination().written() + data@,
    {
        if data.len() == 0 && self.copied < self.size {
            return Err(GameDownloadError::Communication(RemoteAccessError::InvalidResponse));
        }
        self.destination.hash(data);
        self.copied = self.copied + data.len() as u64;
        Ok(data.len())
    }

    /// The digest of everything copied.
    pub fn finish(self) -> (r: [u8; 16])
        ensures
            r@ == md5_digest(self.spec_destination().written()),
    {
        self.destination.finish()
    }
}

/// A pipeline whose control flag reads `Stop` before anything is copied, or
/// before the declared length is copied, leaves before any read: it ends not
/// completed, and no further byte is copied or added to progress. This holds
/// for every declared length, zero included.
pub proof fn lemma_stop_abandons(size: u64, copied: u64)
    requires
        copied == 0 || copied < size,
    ensures
        copy_step(size, copied, DownloadThreadControlFlag::Stop) == CopyStep::Abandon,
{
}

/// The loop never asks for bytes past the declared length, and finishes
/// exactly when the declared length has been copied (once anything is copied,
/// whatever the flag says).
pub proof fn lemma_copy_bounded(size: u64, copied: u64, flag: DownloadThreadControlFlag)
    requires
        copied <= size,
    ensures
        copied > 0 || flag != DownloadThreadControlFlag::Stop ==> (copy_step(size, copied, flag)
            == CopyStep::Finished <==> copied == size),
        copy_step(size, copied, flag) == CopyStep::Finished ==> copied == size,
        copy_step(size, copied, flag) matches CopyStep::Read(k) ==> 1 <= k && copied + k <= size,
{
}

/// Total length of the blocks the copy loop has taken.
pub open spec fn copied_by(blocks: Seq<nat>) -> nat
    decreases blocks.len(),
{
    if blocks.len() == 0 {
        0
    } else {
        copied_by(blocks.drop_last()) + blocks.last()
    }
}

/// Each block was non-empty and no longer than the read the loop asked for
/// at that point, with the flag never reading `Stop`.
pub open spec fn blocks_as_asked(size: u64, blocks: Seq<nat>) -> bool {
    forall|k: int|
        0 <= k < blocks.len() ==> match copy_step(
            size,
            copied_by(#[trigger] blocks.subrange(0, k)) as u64,
            DownloadThreadControlFlag::Go,
        ) {
            CopyStep::Read(r) => 1 <= blocks[k] <= r,
            _ => false,
        }
}

/// Copying a body of declared length `size` never goes past it: however the
/// source splits the bytes, the loop has copied at most `size` bytes, taken
/// at most `size` blocks, and finishes exactly when `size` bytes are copied.
pub proof fn lemma_copy_run(size: u64, blocks: Seq<nat>)
    requires
        blocks_as_asked(size, blocks),
    ensures
        copied_by(blocks) <= size,
        blocks.len() <= copied_by(blocks),
        copy_step(size, copied_by(blocks) as u64, DownloadThreadControlFlag::Go) == CopyStep::Finished
            <==> copied_by(blocks) == size,
    decreases blocks.len(),
{
    if blocks.len() > 0 {
        let init = blocks.drop_last();
        assert forall|k: int| 0 <= k < init.len() implies match copy_step(
            size,
            copied_by(#[trigger] init.subrange(0, k)) as u64,
            DownloadThreadControlFlag::Go,
        ) {
            CopyStep::Read(r) => 1 <= init[k] <= r,
            _ => false,
        } by {
            assert(init.subrange(0, k) =~= blocks.subrange(0, k));
            assert(init[k] == blocks[k]);
        }
        lemma_copy_run(size, init);
        let k = blocks.len() - 1;
        assert(blocks.subrange(0, k) =~= init);
    }
}

} // verus!
