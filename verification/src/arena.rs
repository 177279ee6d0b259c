//! The chunked, growable arena: a bump allocator whose backing region is a
//! list of chunks acquired on demand from a backing allocator and released all
//! at once on teardown.
//!
//! Each chunk is one backing allocation holding a byte buffer and, co-located
//! at its high end, a footer record: the exact descriptor the chunk was
//! allocated with (needed to release it later), the bump cursor, and its place
//! in the newest-first chunk list. The model keeps the footers in a vector,
//! oldest chunk first, so the back-link of the intrusive list is the vector's
//! order; all footer addresses and sizes are computed and proved exactly as
//! the in-memory layout prescribes.

pub mod raw;

use vstd::prelude::*;
use crate::bump::{align_offset, bump_step, lemma_align_offset_granular};
use crate::layout::{lemma_is_pow2_8, lemma_pow2_divides};
use crate::layout::{AllocError, NonZeroLayout};
use crate::traits::{
    after_alloc, fresh_in, good_block, is_live, lemma_fresh_insert_disjoint,
    live_pairwise_disjoint, ranges_disjoint, Allocator, BlockInfo, Deallocator, Footprint,
};

verus! {

/// Bytes reserved at the high end of every chunk for the footer record: the
/// chunk's own descriptor (size and alignment), the link to the previous
/// chunk, the chunk base, and the bump cursor — five words.
pub const FOOTER_SIZE: usize = 40;

/// Alignment of the footer record: one word.
pub const FOOTER_ALIGN: usize = 8;

/// Usable capacity of the first chunk an arena creates, unless the request
/// that triggers it needs more.
pub const DEFAULT_CHUNK_CAPACITY: usize = 1024;

/// The footer of one chunk: the descriptor the chunk was allocated with, the
/// chunk's base address, and the bump cursor. The usable byte range of the
/// chunk is `[base, base + capacity)`; the footer record itself occupies the
/// `FOOTER_SIZE` bytes from `base + capacity` up.
#[derive(Debug, Clone, Copy)]
pub struct Footer {
    /// The exact descriptor this chunk was allocated with. Teardown passes it
    /// back to the backing allocator, bit for bit.
    pub layout: NonZeroLayout,
    /// Base address of the whole chunk allocation.
    pub base: usize,
    /// The next free byte; grows from `base` toward the footer.
    pub pos: usize,
}

impl Footer {
    /// Usable capacity: everything below the footer record.
    pub open spec fn cap(&self) -> int {
        self.layout.spec_size() - FOOTER_SIZE
    }

    /// The footer record's own address, which bounds the bump cursor.
    pub open spec fn limit(&self) -> int {
        self.base + self.cap()
    }

    pub open spec fn wf(&self) -> bool {
        &&& self.layout.wf()
        &&& self.layout.spec_size() > FOOTER_SIZE
        &&& self.base > 0
        &&& self.base + self.layout.spec_size() <= usize::MAX
        &&& self.base <= self.pos <= self.limit()
    }

    /// The exact condition under which one more request fits this chunk.
    pub open spec fn fits(&self, layout: NonZeroLayout) -> bool {
        self.pos - self.base + align_offset(self.pos as int, layout.spec_align() as int)
            + layout.spec_size() <= self.cap()
    }

    /// Usable capacity of this chunk.
    pub fn size(&self) -> (r: usize)
        requires
            self.wf(),
        ensures
            r == self.cap(),
    {
        self.layout.size() - FOOTER_SIZE
    }

    /// The capacity the next chunk should grow to: twice this one.
    pub fn next_chunk_size(&self) -> (r: Option<usize>)
        requires
            self.wf(),
        ensures
            r matches Some(n) ==> n == 2 * self.cap(),
            r is Some <==> 2 * self.cap() <= usize::MAX,
    {
        self.size().checked_mul(2)
    }

    /// The bump step inside one chunk: rounds the cursor up to the requested
    /// alignment, places the block, and advances the cursor past it — by at
    /// least the requested size, and strictly. Fails, leaving the chunk
    /// untouched, exactly when the padded request does not fit below the
    /// footer; the caller then falls back to the arena's slow path.
    pub fn allocate_in(&mut self, layout: NonZeroLayout) -> (r: Option<usize>)
        requires
            old(self).wf(),
        ensures
            final(self).wf(),
            final(self).layout == old(self).layout,
            final(self).base == old(self).base,
            r is Some <==> old(self).fits(layout),
            match r {
                Some(addr) => {
                    &&& addr as int % layout.spec_align() as int == 0
                    &&& addr == old(self).pos + align_offset(
                        old(self).pos as int,
                        layout.spec_align() as int,
                    )
                    &&& old(self).pos <= addr
                    &&& addr + layout.spec_size() == final(self).pos
                    &&& final(self).pos >= old(self).pos + layout.spec_size()
                    &&& final(self).pos > old(self).pos
                },
                None => *final(self) == *old(self),
            },
    {
        proof {
            use_type_invariant(&layout);
        }
        let cap = self.layout.size() - FOOTER_SIZE;
        let pos_idx = self.pos - self.base;
        match bump_step(self.base, cap, pos_idx, layout) {
            Some(b) => {
                let addr = self.base + b.offset;
                self.pos = self.base + b.new_pos;
                Some(addr)
            },
            None => None,
        }
    }
}

/// True when the block `[a, a + s)` lies in the used prefix of chunk `f`.
pub open spec fn block_in_chunk(f: Footer, a: int, s: int) -> bool {
    f.base <= a && a + s <= f.pos
}

/// True when the block lies in the used prefix of some chunk of the list.
pub open spec fn block_in_some_chunk(chunks: Seq<Footer>, a: int, s: int) -> bool {
    exists|j: int| 0 <= j < chunks.len() && block_in_chunk(#[trigger] chunks[j], a, s)
}

/// True when `live` records, at each chunk's base, exactly the descriptor
/// stored in that chunk's footer. The arena keeps this between its chunk list
/// and its backing allocator's live map: it is what makes teardown with the
/// recorded descriptors legitimate.
pub open spec fn chunks_recorded(chunks: Seq<Footer>, live: Map<int, BlockInfo>) -> bool {
    forall|j: int|
        0 <= j < chunks.len() ==> is_live(live, (#[trigger] chunks[j]).base, chunks[j].layout)
}

/// The chunk list and the record of every block handed out of it. This is the
/// arena's state without the backing allocator; `Arena` pairs the two.
pub struct RawArena {
    /// The footers of all chunks, oldest first: the current chunk is the last,
    /// and each footer's back-link points at the one before it.
    pub chunks: Vec<Footer>,
    /// Every block issued, for the disjointness obligation.
    pub issued: Ghost<Map<int, BlockInfo>>,
}

impl RawArena {
    /// The chunk list is well formed: every footer is, the chunks' backing
    /// allocations are pairwise disjoint, and each chunk's usable capacity is
    /// at least twice its predecessor's.
    pub open spec fn chunks_wf(&self) -> bool {
        &&& forall|j: int| 0 <= j < self.chunks@.len() ==> (#[trigger] self.chunks@[j]).wf()
        &&& forall|j: int, k: int|
            0 <= j < k < self.chunks@.len() ==> ranges_disjoint(
                self.chunks@[j].base as int,
                self.chunks@[j].layout.spec_size() as int,
                self.chunks@[k].base as int,
                self.chunks@[k].layout.spec_size() as int,
            )
        &&& forall|j: int|
            1 <= j < self.chunks@.len() ==> (#[trigger] self.chunks@[j]).cap() >= 2
                * self.chunks@[j - 1].cap()
    }

    pub open spec fn wf(&self) -> bool {
        &&& self.chunks_wf()
        &&& live_pairwise_disjoint(self.issued@)
        &&& forall|a: int|
            self.issued@.dom().contains(a) ==> block_in_some_chunk(
                self.chunks@,
                a,
                self.issued@[a].size,
            )
    }

    pub open spec fn live(&self) -> Map<int, BlockInfo> {
        self.issued@
    }

    /// An arena with no current chunk. The first allocation creates one.
    pub fn new() -> (r: Self)
        ensures
            r.wf(),
            r.chunks@.len() == 0,
            r.live() == Map::<int, BlockInfo>::empty(),
    {
        RawArena { chunks: Vec::new(), issued: Ghost(Map::empty()) }
    }

    /// Whether the current chunk can take one more request under `layout`.
    pub open spec fn current_fits(&self, layout: NonZeroLayout) -> bool {
        self.chunks@.len() > 0 && self.chunks@.last().fits(layout)
    }

    /// The fast path: bump-allocates in the current chunk, if there is one and
    /// the request fits it. Fails exactly otherwise, changing nothing; the
    /// caller then takes the slow path and acquires a new chunk.
    pub fn allocate_in_current_chunk(&mut self, layout: NonZeroLayout) -> (r: Option<usize>)
        requires
            old(self).wf(),
        ensures
            final(self).wf(),
            r is Some <==> old(self).current_fits(layout),
            match r {
                Some(addr) => {
                    &&& good_block(old(self).live(), addr, layout)
                    &&& final(self).live() == after_alloc(old(self).live(), addr, layout)
                    &&& final(self).chunks@.len() == old(self).chunks@.len()
                    &&& addr == old(self).chunks@.last().pos + align_offset(
                        old(self).chunks@.last().pos as int,
                        layout.spec_align() as int,
                    )
                    &&& final(self).chunks@.last().pos == addr + layout.spec_size()
                    &&& final(self).chunks@.last().pos >= old(self).chunks@.last().pos
                        + layout.spec_size()
                    &&& forall|j: int|
                        0 <= j < old(self).chunks@.len() - 1 ==> final(self).chunks@[j] == old(
                            self,
                        ).chunks@[j]
                    &&& final(self).chunks@.last().layout == old(self).chunks@.last().layout
                    &&& final(self).chunks@.last().base == old(self).chunks@.last().base
                },
                None => final(self).chunks@ == old(self).chunks@ && final(self).live() == old(
                    self,
                ).live(),
            },
    {
        let n = self.chunks.len();
        if n == 0 {
            return None;
        }
        proof {
            use_type_invariant(&layout);
        }
        let ghost old_chunks = self.chunks@;
        let ghost old_issued = self.issued@;
        let f = &mut self.chunks[n - 1];
        let r = f.allocate_in(layout);
        match r {
            Some(addr) => {
                proof {
                    let size = layout.spec_size() as int;
                    let last = old_chunks.len() - 1;
                    let cur_old = old_chunks[last];
                    let cur_new = self.chunks@[last];
                    assert(cur_old.wf());
                    assert(cur_old.pos <= addr);
                    assert(addr + size == cur_new.pos <= cur_new.limit());
                    assert forall|a: int| old_issued.dom().contains(a) implies ranges_disjoint(
                        a,
                        old_issued[a].size,
                        addr as int,
                        size,
                    ) by {
                        assert(block_in_some_chunk(old_chunks, a, old_issued[a].size));
                        let j = choose|j: int|
                            0 <= j < old_chunks.len() && block_in_chunk(
                                #[trigger] old_chunks[j],
                                a,
                                old_issued[a].size,
                            );
                        if j < last {
                            // The block lives in an older chunk, whose backing
                            // allocation is disjoint from the current chunk's.
                            assert(old_chunks[j].wf());
                            assert(ranges_disjoint(
                                old_chunks[j].base as int,
                                old_chunks[j].layout.spec_size() as int,
                                cur_old.base as int,
                                cur_old.layout.spec_size() as int,
                            ));
                        }
                    }
                    assert(fresh_in(old_issued, addr as int, size));
                    lemma_fresh_insert_disjoint(old_issued, addr, layout);
                    assert forall|a: int|
                        after_alloc(old_issued, addr, layout).dom().contains(a)
                            implies block_in_some_chunk(
                        self.chunks@,
                        a,
                        after_alloc(old_issued, addr, layout)[a].size,
                    ) by {
                        if a == addr as int {
                            assert(block_in_chunk(
                                self.chunks@[old_chunks.len() - 1],
                                a,
                                size,
                            ));
                        } else {
                            let j = choose|j: int|
                                0 <= j < old_chunks.len() && block_in_chunk(
                                    #[trigger] old_chunks[j],
                                    a,
                                    old_issued[a].size,
                                );
                            assert(block_in_chunk(self.chunks@[j], a, old_issued[a].size));
                        }
                    }
                }
                self.issued = Ghost(after_alloc(self.issued@, addr, layout));
                Some(addr)
            },
            None => {
                proof {
                    assert(self.chunks@ =~= old_chunks);
                }
                None
            },
        }
    }

    /// Usable capacity of the current chunk, or zero when there is none.
    pub open spec fn current_cap(&self) -> int {
        if self.chunks@.len() > 0 {
            self.chunks@.last().cap()
        } else {
            0
        }
    }

    /// The slow path, acquiring a new chunk sized so that the pending request
    /// is certain to fit it: large enough for the request with its worst-case
    /// alignment padding and the footer, at least twice the current chunk, and
    /// at least the default initial capacity — rounded up to whole words.
    #[verifier::rlimit(50)]
    pub fn allocate_chunk<A: Allocator>(&mut self, min_layout: NonZeroLayout, backing: &mut A)
        -> (r: Result<(), AllocError>)
        requires
            old(self).wf(),
            old(backing).wf(),
            chunks_recorded(old(self).chunks@, old(backing).live()),
        ensures
            final(self).wf(),
            final(backing).wf(),
            final(backing).reclaims() == old(backing).reclaims(),
            chunks_recorded(final(self).chunks@, final(backing).live()),
            final(self).live() == old(self).live(),
            match r {
                Ok(()) => {
                    &&& final(self).chunks@.len() == old(self).chunks@.len() + 1
                    &&& forall|j: int|
                        0 <= j < old(self).chunks@.len() ==> final(self).chunks@[j] == old(
                            self,
                        ).chunks@[j]
                    &&& final(self).chunks@.last().pos == final(self).chunks@.last().base
                    &&& final(self).chunks@.last().cap() == grown_capacity(
                        old(self).current_cap(),
                        min_layout,
                    )
                    &&& final(self).chunks@.last().layout.spec_align() == chunk_align(min_layout)
                    &&& final(self).chunks@.last().layout.spec_size()
                        == final(self).chunks@.last().cap() + FOOTER_SIZE
                    &&& final(backing).live() == after_alloc(
                        old(backing).live(),
                        final(self).chunks@.last().base,
                        final(self).chunks@.last().layout,
                    )
                    &&& final(self).current_fits(min_layout)
                },
                Err(_) => final(self).chunks@ == old(self).chunks@ && final(backing).live() == old(
                    backing,
                ).live(),
            },
    {
        proof {
            use_type_invariant(&min_layout);
        }
        let pad: usize = if min_layout.align() > FOOTER_ALIGN {
            min_layout.align() - FOOTER_ALIGN
        } else {
            0
        };
        let s1 = match min_layout.size().checked_add(pad) {
            Some(v) => v,
            None => {
                return Err(AllocError);
            },
        };
        let min_size = match s1.checked_add(FOOTER_SIZE) {
            Some(v) => v,
            None => {
                return Err(AllocError);
            },
        };
        let n = self.chunks.len();
        let prev2: usize = if n > 0 {
            proof {
                assert(self.chunks@[n - 1].wf());
            }
            let prev = self.chunks[n - 1];
            match prev.next_chunk_size() {
                Some(v) => v,
                None => {
                    return Err(AllocError);
                },
            }
        } else {
            0
        };
        let want0: usize = if min_size > prev2 {
            min_size
        } else {
            prev2
        };
        let want: usize = if want0 > DEFAULT_CHUNK_CAPACITY {
            want0
        } else {
            DEFAULT_CHUNK_CAPACITY
        };
        let rounded = match want.checked_add(FOOTER_ALIGN - 1) {
            Some(v) => v,
            None => {
                return Err(AllocError);
            },
        };
        proof {
            lemma_align_up_word(want as int);
        }
        let cap = rounded / FOOTER_ALIGN * FOOTER_ALIGN;
        let total = match cap.checked_add(FOOTER_SIZE) {
            Some(v) => v,
            None => {
                return Err(AllocError);
            },
        };
        let calign: usize = if min_layout.align() < FOOTER_ALIGN {
            min_layout.align()
        } else {
            FOOTER_ALIGN
        };
        proof {
            if min_layout.spec_align() >= FOOTER_ALIGN {
                lemma_is_pow2_8();
            }
        }
        let chunk_layout = match NonZeroLayout::new(total, calign) {
            Some(l) => l,
            None => {
                return Err(AllocError);
            },
        };
        let addr = match backing.allocate_zeroed(chunk_layout) {
            Ok(a) => a,
            Err(_) => {
                return Err(AllocError);
            },
        };
        let footer = Footer { layout: chunk_layout, base: addr, pos: addr };
        proof {
            let ghost old_chunks = old(self).chunks@;
            let info_size = chunk_layout.spec_size() as int;
            // The new chunk's backing allocation is disjoint from every older
            // chunk's, because each older chunk is still live in the backing
            // allocator under its recorded descriptor.
            assert forall|j: int, k: int|
                0 <= j < k < old_chunks.push(footer).len() implies ranges_disjoint(
                old_chunks.push(footer)[j].base as int,
                old_chunks.push(footer)[j].layout.spec_size() as int,
                old_chunks.push(footer)[k].base as int,
                old_chunks.push(footer)[k].layout.spec_size() as int,
            ) by {
                if k == old_chunks.len() {
                    assert(old(backing).live().dom().contains(old_chunks[j].base as int));
                }
            }
            // The request is certain to fit the fresh chunk: its capacity
            // covers the size, the worst-case alignment padding, and the
            // footer.
            assert(footer.fits(min_layout)) by {
                let al = min_layout.spec_align() as int;
                if al > FOOTER_ALIGN {
                    lemma_pow2_divides(FOOTER_ALIGN as int, al);
                    lemma_align_offset_granular(addr as int, al, FOOTER_ALIGN as int);
                } else {
                    // The chunk is aligned to the full requested alignment,
                    // so the first block needs no padding at all.
                    assert(calign == min_layout.spec_align());
                    assert(align_offset(addr as int, al) == 0);
                }
            }
            assert forall|a: int| self.issued@.dom().contains(a) implies block_in_some_chunk(
                old_chunks.push(footer),
                a,
                self.issued@[a].size,
            ) by {
                let j = choose|j: int|
                    0 <= j < old_chunks.len() && block_in_chunk(
                        #[trigger] old_chunks[j],
                        a,
                        self.issued@[a].size,
                    );
                assert(block_in_chunk(old_chunks.push(footer)[j], a, self.issued@[a].size));
            }
        }
        self.chunks.push(footer);
        Ok(())
    }

    /// Allocates a request the current chunk refused: acquires a chunk sized
    /// for it and retries the fast path, which is then proven to succeed. An
    /// error can only come from the backing allocator or from a request too
    /// large for the address space; the failed attempt changes no live block.
    pub fn allocate_slow<A: Allocator>(&mut self, layout: NonZeroLayout, backing: &mut A) -> (r:
        Result<usize, AllocError>)
        requires
            old(self).wf(),
            old(backing).wf(),
            chunks_recorded(old(self).chunks@, old(backing).live()),
        ensures
            final(self).wf(),
            final(backing).wf(),
            final(backing).reclaims() == old(backing).reclaims(),
            chunks_recorded(final(self).chunks@, final(backing).live()),
            old(self).current_fits(layout) ==> r is Ok,
            // At most one chunk is acquired per call — and none when the
            // current chunk takes the request; the older chunks keep their
            // place and descriptor.
            final(self).chunks@.len() == old(self).chunks@.len() || final(self).chunks@.len()
                == old(self).chunks@.len() + 1,
            old(self).current_fits(layout) ==> final(self).chunks@.len()
                == old(self).chunks@.len(),
            forall|j: int|
                0 <= j < old(self).chunks@.len() ==> (#[trigger] final(self).chunks@[j]).base
                    == old(self).chunks@[j].base && final(self).chunks@[j].layout
                    == old(self).chunks@[j].layout,
            final(self).chunks@.len() == old(self).chunks@.len() ==> final(backing).live()
                == old(backing).live(),
            final(self).chunks@.len() == old(self).chunks@.len() + 1 ==> {
                &&& final(self).chunks@.last().cap() == grown_capacity(
                    old(self).current_cap(),
                    layout,
                )
                &&& final(self).chunks@.last().layout.spec_align() == chunk_align(layout)
                &&& final(backing).live() == after_alloc(
                    old(backing).live(),
                    final(self).chunks@.last().base,
                    final(self).chunks@.last().layout,
                )
            },
            match r {
                Ok(addr) => good_block(old(self).live(), addr, layout) && final(self).live()
                    == after_alloc(old(self).live(), addr, layout),
                Err(_) => final(self).live() == old(self).live(),
            },
    {
        let ghost old_chunks = self.chunks@;
        if let Some(addr) = self.allocate_in_current_chunk(layout) {
            proof {
                assert forall|j: int|
                    0 <= j < self.chunks@.len() implies is_live(
                    backing.live(),
                    (#[trigger] self.chunks@[j]).base,
                    self.chunks@[j].layout,
                ) by {
                    assert(is_live(backing.live(), old_chunks[j].base, old_chunks[j].layout));
                }
            }
            return Ok(addr);
        }
        self.allocate_chunk(layout, backing)?;
        let ghost mid_chunks = self.chunks@;
        match self.allocate_in_current_chunk(layout) {
            Some(addr) => {
                proof {
                    assert forall|j: int|
                        0 <= j < self.chunks@.len() implies is_live(
                        backing.live(),
                        (#[trigger] self.chunks@[j]).base,
                        self.chunks@[j].layout,
                    ) by {
                        assert(is_live(backing.live(), mid_chunks[j].base, mid_chunks[j].layout));
                    }
                }
                Ok(addr)
            },
            None => {
                // The chunk was sized to fit the request; the retry cannot
                // fail.
                proof {
                    assert(false);
                }
                Err(AllocError)
            },
        }
    }

    /// Tears the arena down: walks the chunk list newest-first and releases
    /// every chunk through the backing allocator, each with the exact
    /// descriptor recorded in its footer at creation. Afterwards the arena is
    /// empty, and a reclaiming backing allocator holds precisely its old live
    /// blocks minus the chunks.
    pub fn clear<A: Deallocator>(&mut self, backing: &mut A)
        requires
            old(self).wf(),
            old(backing).wf(),
            chunks_recorded(old(self).chunks@, old(backing).live()),
        ensures
            final(self).wf(),
            final(self).chunks@.len() == 0,
            final(self).live() == Map::<int, BlockInfo>::empty(),
            final(backing).wf(),
            final(backing).reclaims() == old(backing).reclaims(),
            final(backing).live() == if old(backing).reclaims() {
                old(backing).live().remove_keys(chunk_bases(old(self).chunks@))
            } else {
                old(backing).live()
            },
    {
        let ghost old_chunks = old(self).chunks@;
        let ghost old_live = old(backing).live();
        proof {
            assert(old_live.remove_keys(chunk_bases(old_chunks.skip(old_chunks.len() as int)))
                =~= old_live);
        }
        while self.chunks.len() > 0
            invariant
                self.chunks@ == old_chunks.subrange(0, self.chunks@.len() as int),
                self.chunks@.len() <= old_chunks.len(),
                forall|j: int| 0 <= j < old_chunks.len() ==> (#[trigger] old_chunks[j]).wf(),
                forall|j: int, k: int|
                    0 <= j < k < old_chunks.len() ==> ranges_disjoint(
                        old_chunks[j].base as int,
                        old_chunks[j].layout.spec_size() as int,
                        old_chunks[k].base as int,
                        old_chunks[k].layout.spec_size() as int,
                    ),
                chunks_recorded(old_chunks, old_live),
                backing.wf(),
                backing.reclaims() == old(backing).reclaims(),
                backing.live() == if old(backing).reclaims() {
                    old_live.remove_keys(chunk_bases(old_chunks.skip(self.chunks@.len() as int)))
                } else {
                    old_live
                },
            decreases self.chunks@.len(),
        {
            let ghost live_before = backing.live();
            let ghost k = self.chunks@.len() as int;
            let f = match self.chunks.pop() {
                Some(f) => f,
                None => {
                    proof {
                        assert(false);
                    }
                    return ;
                },
            };
            proof {
                assert(f == old_chunks[k - 1]);
                assert(f.wf());
                // The chunk being released is still recorded in the backing
                // allocator: it is none of the chunks already released, since
                // all chunk allocations are pairwise disjoint and nonempty.
                if old(backing).reclaims() {
                    assert forall|j: int|
                        k <= j < old_chunks.len() implies (#[trigger] old_chunks[j]).base
                        != f.base by {
                        assert(ranges_disjoint(
                            old_chunks[k - 1].base as int,
                            old_chunks[k - 1].layout.spec_size() as int,
                            old_chunks[j].base as int,
                            old_chunks[j].layout.spec_size() as int,
                        ));
                    }
                    assert(!chunk_bases(old_chunks.skip(k)).contains(f.base as int));
                }
                assert(is_live(live_before, f.base, f.layout));
            }
            backing.deallocate(f.base, f.layout);
            proof {
                if old(backing).reclaims() {
                    assert(backing.live() =~= old_live.remove_keys(
                        chunk_bases(old_chunks.skip(k - 1)),
                    )) by {
                        assert forall|a: int|
                            chunk_bases(old_chunks.skip(k - 1)).contains(a) implies a
                            == f.base as int || chunk_bases(old_chunks.skip(k)).contains(a) by {
                            let j = choose|j: int|
                                0 <= j < old_chunks.skip(k - 1).len() && (#[trigger] old_chunks.skip(
                                    k - 1,
                                )[j]).base == a;
                            if j > 0 {
                                assert(old_chunks.skip(k)[j - 1].base == a);
                            }
                        }
                        assert forall|a: int|
                            chunk_bases(old_chunks.skip(k)).contains(a) implies chunk_bases(
                            old_chunks.skip(k - 1),
                        ).contains(a) by {
                            let j = choose|j: int|
                                0 <= j < old_chunks.skip(k).len() && (#[trigger] old_chunks.skip(
                                    k,
                                )[j]).base == a;
                            assert(old_chunks.skip(k - 1)[j + 1].base == a);
                        }
                        assert(chunk_bases(old_chunks.skip(k - 1)).contains(f.base as int)) by {
                            assert(old_chunks.skip(k - 1)[0].base == f.base);
                        }
                    }
                }
            }
        }
        proof {
            assert(self.chunks@ =~= Seq::<Footer>::empty());
        }
        self.issued = Ghost(Map::empty());
    }
}

/// The set of base addresses of a chunk list.
pub open spec fn chunk_bases(chunks: Seq<Footer>) -> Set<int> {
    Set::new(|a: int| exists|j: int| 0 <= j < chunks.len() && (#[trigger] chunks[j]).base == a)
}

/// The chunk growth law: every chunk of a well-formed arena has at least twice
/// the usable capacity of the chunk created before it. (That it also covers
/// the padded request that triggered its creation is the capacity formula in
/// the contract of [`RawArena::allocate_chunk`].)
pub proof fn lemma_chunk_growth(raw: &RawArena, j: int)
    requires
        raw.wf(),
        1 <= j < raw.chunks@.len(),
    ensures
        raw.chunks@[j].cap() >= 2 * raw.chunks@[j - 1].cap(),
{
}

/// The teardown round-trip law: in a well-formed arena, the backing allocator
/// still holds every chunk exactly under the descriptor recorded in that
/// chunk's footer, so releasing each chunk with its recorded descriptor — as
/// [`RawArena::clear`] does — meets the backing allocator's deallocation
/// contract bit for bit.
pub proof fn lemma_chunks_recorded<A: Footprint>(arena: &Arena<A>, j: int)
    requires
        arena.wf(),
        0 <= j < arena.raw.chunks@.len(),
    ensures
        is_live(arena.alloc.live(), arena.raw.chunks@[j].base, arena.raw.chunks@[j].layout),
{
}

/// The chunked arena: bump-allocates from its current chunk and acquires a new
/// chunk from the backing allocator whenever the current one cannot satisfy a
/// request. Individual blocks are never reclaimed; `clear` tears down every
/// chunk at once.
///
/// The arena is a single-owner allocator: every operation takes exclusive
/// access, so it is not shareable across threads without external
/// synchronization.
pub struct Arena<A> {
    /// The chunk list and issued-block record.
    pub raw: RawArena,
    /// The backing allocator chunks are acquired from and released to.
    pub alloc: A,
}

impl<A> Arena<A> {
    /// An arena over the given backing allocator, with no chunk yet: the first
    /// allocation creates one.
    pub fn new(alloc: A) -> (r: Self)
        ensures
            r.raw.chunks@.len() == 0,
            r.raw.wf(),
            r.raw.live() == Map::<int, BlockInfo>::empty(),
            r.alloc == alloc,
    {
        Arena { raw: RawArena::new(), alloc }
    }

    /// The backing allocator.
    pub fn backing(&self) -> (r: &A)
        ensures
            *r == self.alloc,
    {
        &self.alloc
    }
}

impl<A: Footprint> Footprint for Arena<A> {
    open spec fn wf(&self) -> bool {
        &&& self.raw.wf()
        &&& self.alloc.wf()
        &&& chunks_recorded(self.raw.chunks@, self.alloc.live())
    }

    open spec fn live(&self) -> Map<int, BlockInfo> {
        self.raw.live()
    }

    open spec fn reclaims(&self) -> bool {
        false
    }

    proof fn live_disjoint(&self) {
    }
}

impl<A: Allocator + Deallocator> Allocator for Arena<A> {
    fn allocate(&mut self, layout: NonZeroLayout) -> (r: Result<usize, AllocError>)
        ensures
            old(self).raw.current_fits(layout) ==> r is Ok,
            // At most one chunk is created per call, and only when the
            // current chunk cannot take the request; the new chunk's usable
            // capacity follows the growth formula exactly.
            final(self).raw.chunks@.len() == old(self).raw.chunks@.len()
                || final(self).raw.chunks@.len() == old(self).raw.chunks@.len() + 1,
            old(self).raw.current_fits(layout) ==> final(self).raw.chunks@.len()
                == old(self).raw.chunks@.len(),
            forall|j: int|
                0 <= j < old(self).raw.chunks@.len() ==> (#[trigger] final(self).raw.chunks@[j]).base
                    == old(self).raw.chunks@[j].base && final(self).raw.chunks@[j].layout
                    == old(self).raw.chunks@[j].layout,
            final(self).raw.chunks@.len() == old(self).raw.chunks@.len() + 1 ==> {
                &&& final(self).raw.chunks@.last().cap() == grown_capacity(
                    old(self).raw.current_cap(),
                    layout,
                )
                &&& final(self).raw.chunks@.last().layout.spec_align() == chunk_align(layout)
            },
    {
        self.allocate_zeroed(layout)
    }

    /// Chunks are requested zeroed from the backing allocator, so the arena
    /// always hands out zeroed memory.
    fn allocate_zeroed(&mut self, layout: NonZeroLayout) -> (r: Result<usize, AllocError>)
        ensures
            old(self).raw.current_fits(layout) ==> r is Ok,
            // At most one chunk is created per call, and only when the
            // current chunk cannot take the request; the new chunk's usable
            // capacity follows the growth formula exactly.
            final(self).raw.chunks@.len() == old(self).raw.chunks@.len()
                || final(self).raw.chunks@.len() == old(self).raw.chunks@.len() + 1,
            old(self).raw.current_fits(layout) ==> final(self).raw.chunks@.len()
                == old(self).raw.chunks@.len(),
            forall|j: int|
                0 <= j < old(self).raw.chunks@.len() ==> (#[trigger] final(self).raw.chunks@[j]).base
                    == old(self).raw.chunks@[j].base && final(self).raw.chunks@[j].layout
                    == old(self).raw.chunks@[j].layout,
            final(self).raw.chunks@.len() == old(self).raw.chunks@.len() + 1 ==> {
                &&& final(self).raw.chunks@.last().cap() == grown_capacity(
                    old(self).raw.current_cap(),
                    layout,
                )
                &&& final(self).raw.chunks@.last().layout.spec_align() == chunk_align(layout)
            },
    {
        self.raw.allocate_slow(layout, &mut self.alloc)
    }
}

impl<A: Allocator + Deallocator> Arena<A> {
    /// Tears the arena down: releases every chunk through the backing
    /// allocator, newest first, each with the exact descriptor recorded in its
    /// footer. A reclaiming backing allocator is left holding precisely its
    /// old live blocks minus the chunks; every block the arena issued is gone.
    pub fn clear(&mut self)
        requires
            old(self).wf(),
        ensures
            final(self).wf(),
            final(self).raw.chunks@.len() == 0,
            final(self).live() == Map::<int, BlockInfo>::empty(),
            final(self).alloc.reclaims() == old(self).alloc.reclaims(),
            final(self).alloc.live() == if old(self).alloc.reclaims() {
                old(self).alloc.live().remove_keys(chunk_bases(old(self).raw.chunks@))
            } else {
                old(self).alloc.live()
            },
    {
        self.raw.clear(&mut self.alloc);
    }
}

/// The alignment a chunk is allocated with: the request's own alignment, up
/// to the footer's word alignment. Finer placement inside the chunk is the
/// bump step's job, so the chunk itself never needs more.
pub open spec fn chunk_align(layout: NonZeroLayout) -> int {
    if layout.spec_align() < FOOTER_ALIGN {
        layout.spec_align() as int
    } else {
        FOOTER_ALIGN as int
    }
}

/// The request a new chunk must accommodate: the requested size, the worst
/// padding the bump step may need to reach the requested alignment inside a
/// word-aligned chunk, and the footer record.
pub open spec fn padded_request(layout: NonZeroLayout) -> int {
    layout.spec_size() + (if layout.spec_align() > FOOTER_ALIGN {
        layout.spec_align() - FOOTER_ALIGN
    } else {
        0
    }) + FOOTER_SIZE
}

/// `x` rounded up to a whole number of footer-alignment words.
pub open spec fn align_up_word(x: int) -> int {
    ((x + FOOTER_ALIGN - 1) / (FOOTER_ALIGN as int)) * FOOTER_ALIGN
}

pub open spec fn spec_max(a: int, b: int) -> int {
    if a > b {
        a
    } else {
        b
    }
}

/// The capacity of the chunk the slow path creates: enough for the padded
/// request, at least twice the previous chunk's capacity, and at least the
/// default initial capacity.
pub open spec fn grown_capacity(prev_cap: int, layout: NonZeroLayout) -> int {
    align_up_word(
        spec_max(spec_max(padded_request(layout), 2 * prev_cap), DEFAULT_CHUNK_CAPACITY as int),
    )
}

/// Rounding up to a word multiple moves forward by less than a word.
pub proof fn lemma_align_up_word(x: int)
    requires
        x >= 0,
    ensures
        x <= align_up_word(x) < x + FOOTER_ALIGN,
{
    let w = FOOTER_ALIGN as int;
    vstd::arithmetic::div_mod::lemma_fundamental_div_mod(x + w - 1, w);
    vstd::arithmetic::div_mod::lemma_mod_division_less_than_divisor(x + w - 1, w);
}

} // verus!

