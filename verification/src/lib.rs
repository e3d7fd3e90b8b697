//! Logical core of an executable-memory buffer: a page-granular region of
//! bytes, sentinel-filled at construction and overwritten from offset zero
//! by explicit writes. This crate verifies the byte-level image of the
//! region and its size preconditions; the host-memory half (page-aligned
//! allocation, protection flags, and invoking the bytes as native code)
//! lives outside the verified library.

use vstd::prelude::*;

verus! {

/// Fill value for every unwritten cell of a region: the one-byte "return"
/// instruction encoding, so that an unwritten tail, if control ever reaches
/// it, behaves as an immediate return rather than executing garbage.
pub const SENTINEL: u8 = 0xC3;

/// A size is acceptable for a region exactly when the page size is positive
/// and the size is a positive multiple of it.
pub open spec fn valid_layout(size: usize, page_size: usize) -> bool {
    &&& page_size > 0
    &&& size > 0
    &&& size % page_size == 0
}

/// Contents of a freshly constructed region: every byte the sentinel.
pub open spec fn fresh_contents(size: nat) -> Seq<u8> {
    Seq::new(size, |i: int| SENTINEL)
}

/// Contents after copying `source` over `before` from offset zero:
/// the written prefix, then the untouched remainder.
pub open spec fn overwritten(before: Seq<u8>, source: Seq<u8>) -> Seq<u8>
    recommends
        source.len() <= before.len(),
{
    source + before.skip(source.len() as int)
}

/// Why a region operation was refused.
#[derive(Clone, Copy, Debug, PartialEq, Eq, Structural)]
pub enum JitError {
    /// The requested size was zero or not a multiple of the page size.
    InvalidSize,
    /// A write would run past the end of the region.
    WriteOverflow,
}

/// The byte image of one executable memory region: the exact sequence of
/// bytes the region holds, entry point first. Its length is the region's
/// size and never changes after construction. Whether those bytes form
/// valid machine code is a caller obligation that no part of this type
/// checks; the image only guarantees what the bytes are.
pub struct JitMemory {
    contents: Vec<u8>,
}

impl JitMemory {
    /// The bytes the region holds, entry point first.
    pub closed spec fn view(&self) -> Seq<u8> {
        self.contents@
    }

    /// Build the image of a new region of `buffer_size` bytes on a host
    /// whose page granularity is `page_size`. The size must be a positive
    /// multiple of the page size; anything else is refused before any
    /// allocation could take place. A fresh region is sentinel-filled.
    pub fn new(buffer_size: usize, page_size: usize) -> (result: Result<JitMemory, JitError>)
        ensures
            result is Ok <==> valid_layout(buffer_size, page_size),
            result matches Ok(region) ==> region@ == fresh_contents(buffer_size as nat),
            result matches Err(e) ==> e == JitError::InvalidSize,
    {
        if page_size == 0 || buffer_size == 0 || buffer_size % page_size != 0 {
            return Err(JitError::InvalidSize);
        }
        let mut contents: Vec<u8> = Vec::new();
        let mut i: usize = 0;
        while i < buffer_size
            invariant
                i <= buffer_size,
                contents@.len() == i,
                forall|j: int| 0 <= j < i ==> contents@[j] == SENTINEL,
            decreases buffer_size - i,
        {
            contents.push(SENTINEL);
            i += 1;
        }
        proof {
            assert(contents@ =~= fresh_contents(buffer_size as nat));
        }
        Ok(JitMemory { contents })
    }

    /// Copy `source` into the region from offset zero, leaving the rest of
    /// the region as it was. A source longer than the region is refused
    /// untouched: the region never grows and is never partially written.
    pub fn write(&mut self, source: &[u8]) -> (result: Result<(), JitError>)
        ensures
            result is Ok <==> source@.len() <= old(self)@.len(),
            result is Ok ==> final(self)@ == overwritten(old(self)@, source@),
            result matches Err(e) ==> final(self)@ == old(self)@ && e == JitError::WriteOverflow,
    {
        if source.len() > self.contents.len() {
            return Err(JitError::WriteOverflow);
        }
        let mut i: usize = 0;
        while i < source.len()
            invariant
                i <= source@.len() <= self.contents@.len(),
                self.contents@.len() == old(self)@.len(),
                forall|j: int| 0 <= j < i ==> self.contents@[j] == source@[j],
                forall|j: int| i <= j < self.contents@.len() ==> self.contents@[j] == old(self)@[j],
            decreases source@.len() - i,
        {
            let b = source[i];
            self.contents.set(i, b);
            i += 1;
        }
        proof {
            assert(self.contents@ =~= overwritten(old(self)@, source@));
        }
        Ok(())
    }

    /// Number of bytes the region holds; fixed at construction.
    pub fn size(&self) -> (n: usize)
        ensures
            n == self@.len(),
    {
        self.contents.len()
    }

    /// Borrow the exact bytes of the image, entry point first, for a host
    /// layer to copy into real executable memory.
    pub fn code(&self) -> (bytes: &Vec<u8>)
        ensures
            bytes@ == self@,
    {
        &self.contents
    }
}

/// Law: in a freshly constructed region every byte is the sentinel, so
/// before any write the entry point holds a bare "return" instruction.
pub proof fn lemma_fresh_is_sentinel(size: nat, i: int)
    requires
        0 <= i < size,
    ensures
        fresh_contents(size).len() == size,
        fresh_contents(size)[i] == SENTINEL,
{
}

/// Law: a write changes the region's contents but never its size, and the
/// written prefix reads back exactly as the source bytes.
pub proof fn lemma_written_prefix(before: Seq<u8>, source: Seq<u8>, i: int)
    requires
        source.len() <= before.len(),
        0 <= i < source.len(),
    ensures
        overwritten(before, source).len() == before.len(),
        overwritten(before, source)[i] == source[i],
{
}

/// Law: a write shorter than the region leaves every byte past the written
/// prefix as it was before the write.
pub proof fn lemma_unwritten_tail_unchanged(before: Seq<u8>, source: Seq<u8>, i: int)
    requires
        source.len() <= before.len(),
        source.len() <= i < before.len(),
    ensures
        overwritten(before, source)[i] == before[i],
{
}

/// Law: writing a source shorter than a freshly constructed region leaves
/// the whole remainder as the sentinel fill, so control that runs off the
/// end of the written bytes meets an immediate return, never garbage.
pub proof fn lemma_sentinel_tail(size: nat, source: Seq<u8>, i: int)
    requires
        source.len() <= size,
        source.len() <= i < size,
    ensures
        overwritten(fresh_contents(size), source)[i] == SENTINEL,
{
    lemma_unwritten_tail_unchanged(fresh_contents(size), source, i);
}

} // verus!
