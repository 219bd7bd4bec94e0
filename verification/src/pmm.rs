//! Physical frame allocator: one bit per 4 KiB frame, set while the frame is
//! owned or unusable.

use vstd::prelude::*;

verus! {

/// Size of a physical frame in bytes.
pub const PAGE_SIZE: u64 = 4096;

/// Largest number of frames that a 64-bit physical address space can hold.
pub const MAX_FRAMES: u64 = 0x10_0000_0000_0000;

/// Firmware type tag of memory that is free for general use.
pub const CONVENTIONAL_MEMORY: u32 = 7;

/// One entry of the firmware memory map.
#[derive(Clone, Copy, Debug)]
pub struct MemoryDescriptor {
    pub type_: u32,
    pub phys_start: u64,
    pub virt_start: u64,
    pub page_count: u64,
    pub attribute: u64,
}

impl MemoryDescriptor {
    /// The entry describes free RAM.
    pub open spec fn is_conventional(self) -> bool {
        self.type_ == CONVENTIONAL_MEMORY
    }

    /// Index of the frame that holds the entry's first byte.
    pub open spec fn first_frame(self) -> int {
        self.phys_start as int / 4096
    }

    /// The entry describes free RAM and `frame` is one of its `page_count`
    /// frames, counted from `first_frame`.
    pub open spec fn covers(self, frame: int) -> bool {
        self.is_conventional() && self.first_frame() <= frame < self.first_frame()
            + self.page_count
    }

    /// The entry can host a bitmap of `bytes` bytes: free RAM that does not
    /// start at physical address zero and is large enough.
    pub open spec fn fits(self, bytes: int) -> bool {
        self.is_conventional() && self.phys_start != 0 && self.page_count * 4096 >= bytes
    }
}

/// Some entry of `map` reports `frame` as free RAM.
pub open spec fn conventional(map: Seq<MemoryDescriptor>, frame: int) -> bool {
    exists|i: int| 0 <= i < map.len() && (#[trigger] map[i]).covers(frame)
}

/// Number of frames needed to cover physical addresses below `max_phys_addr`.
pub open spec fn frames_below(max_phys_addr: u64) -> int {
    (max_phys_addr + 4095) / 4096
}

/// Number of 64-bit words in a bitmap of `total_frames` bits.
pub open spec fn bitmap_words(total_frames: int) -> int {
    (total_frames + 63) / 64
}

/// Size in bytes of a bitmap of `total_frames` bits.
pub open spec fn bitmap_bytes(total_frames: int) -> int {
    bitmap_words(total_frames) * 8
}

/// Number of frames that a bitmap of `total_frames` bits occupies.
pub open spec fn bitmap_pages(total_frames: int) -> int {
    (bitmap_bytes(total_frames) + 4095) / 4096
}

/// Entry `i` is the first one, left to right, that can host `bytes` bytes.
pub open spec fn is_first_fit(map: Seq<MemoryDescriptor>, bytes: int, i: int) -> bool {
    &&& 0 <= i < map.len()
    &&& map[i].fits(bytes)
    &&& forall|j: int| 0 <= j < i ==> !(#[trigger] map[j]).fits(bytes)
}

/// Some entry of `map` can host `bytes` bytes.
pub open spec fn has_fit(map: Seq<MemoryDescriptor>, bytes: int) -> bool {
    exists|i: int| 0 <= i < map.len() && (#[trigger] map[i]).fits(bytes)
}

/// Some entry among the first `n` of `map` reports `frame` as free RAM.
spec fn conventional_among(map: Seq<MemoryDescriptor>, n: int, frame: int) -> bool {
    exists|i: int| 0 <= i < n && (#[trigger] map[i]).covers(frame)
}

/// State of frame `frame` right after initialization from `map`, with the
/// bitmap placed at `bitmap_start`: used unless the frame is reported as free
/// RAM, is not frame zero and does not hold part of the bitmap.
pub open spec fn used_after_init(
    map: Seq<MemoryDescriptor>,
    total_frames: int,
    bitmap_start: u64,
    frame: int,
) -> bool {
    ||| frame == 0
    ||| !conventional(map, frame)
    ||| bitmap_start as int / 4096 <= frame < bitmap_start as int / 4096 + bitmap_pages(
        total_frames,
    )
}

/// `frame` is the lowest frame that `used` marks free.
pub open spec fn lowest_free(used: Seq<bool>, frame: int) -> bool {
    &&& 0 <= frame < used.len()
    &&& !used[frame]
    &&& forall|g: int| 0 <= g < frame ==> used[g]
}

/// Every frame in `used` is taken.
pub open spec fn all_used(used: Seq<bool>) -> bool {
    forall|f: int| 0 <= f < used.len() ==> used[f]
}

/// The frame that an allocation takes from `used`: the lowest free one, if
/// there is any.
pub open spec fn spec_allocate(used: Seq<bool>) -> Option<int> {
    if exists|f: int| lowest_free(used, f) {
        Some(choose|f: int| lowest_free(used, f))
    } else {
        None
    }
}

/// A request to the allocator.
pub enum FrameOp {
    /// Take the lowest free frame.
    Alloc,
    /// Give back the frame at this physical address.
    Free(u64),
}

/// The frame flags after one request.
pub open spec fn after_op(used: Seq<bool>, op: FrameOp) -> Seq<bool> {
    match op {
        FrameOp::Alloc => match spec_allocate(used) {
            Some(f) => used.update(f, true),
            None => used,
        },
        FrameOp::Free(addr) => if addr / 4096 < used.len() {
            used.update(addr as int / 4096, false)
        } else {
            used
        },
    }
}

/// The frame flags after a sequence of requests, first to last.
pub open spec fn after_ops(used: Seq<bool>, ops: Seq<FrameOp>) -> Seq<bool>
    decreases ops.len(),
{
    if ops.len() == 0 {
        used
    } else {
        after_op(after_ops(used, ops.drop_last()), ops.last())
    }
}

/// The frames that `ops` took and has not given back.
pub open spec fn held(used: Seq<bool>, ops: Seq<FrameOp>) -> Set<int>
    decreases ops.len(),
{
    if ops.len() == 0 {
        Set::empty()
    } else {
        let h = held(used, ops.drop_last());
        match ops.last() {
            FrameOp::Alloc => match spec_allocate(after_ops(used, ops.drop_last())) {
                Some(f) => h.insert(f),
                None => h,
            },
            FrameOp::Free(addr) => h.remove(addr as int / 4096),
        }
    }
}

/// Every `Free` in `ops` gives back a frame that `ops` holds at that time.
pub open spec fn matched(used: Seq<bool>, ops: Seq<FrameOp>) -> bool
    decreases ops.len(),
{
    ops.len() == 0 || (matched(used, ops.drop_last()) && match ops.last() {
        FrameOp::Alloc => true,
        FrameOp::Free(addr) => held(used, ops.drop_last()).contains(addr as int / 4096),
    })
}

/// Bit `b` of `w`.
pub open spec fn word_bit(w: u64, b: int) -> bool {
    (w >> (b as u64)) & 1 == 1
}

/// Bit `frame` of a bitmap laid out as 64-bit words, least significant bit
/// first.
pub open spec fn bitmap_bit(words: Seq<u64>, frame: int) -> bool {
    word_bit(words[frame / 64], frame % 64)
}

proof fn lemma_set_bit(w: u64, b: u64, k: u64)
    requires
        b < 64,
        k < 64,
    ensures
        word_bit(w | (1u64 << b), k as int) == (k == b || word_bit(w, k as int)),
{
    assert(((w | (1u64 << b)) >> k) & 1 == 1 <==> (k == b || (w >> k) & 1 == 1)) by (bit_vector)
        requires
            b < 64,
            k < 64,
    ;
}

proof fn lemma_clear_bit(w: u64, b: u64, k: u64)
    requires
        b < 64,
        k < 64,
    ensures
        word_bit(w & !(1u64 << b), k as int) == (k != b && word_bit(w, k as int)),
{
    assert(((w & !(1u64 << b)) >> k) & 1 == 1 <==> (k != b && (w >> k) & 1 == 1)) by (bit_vector)
        requires
            b < 64,
            k < 64,
    ;
}

proof fn lemma_full_word(k: u64)
    requires
        k < 64,
    ensures
        word_bit(!0u64, k as int),
{
    assert(((!0u64) >> k) & 1 == 1) by (bit_vector)
        requires
            k < 64,
    ;
}

proof fn lemma_lowest_clear_bit(w: u64)
    ensures
        w == !0u64 <==> w.trailing_ones() == 64,
        w.trailing_ones() <= 64,
        w != !0u64 ==> !word_bit(w, w.trailing_ones() as int),
        forall|k: int| 0 <= k < w.trailing_ones() ==> word_bit(w, k),
{
    vstd::std_specs::bits::axiom_u64_trailing_ones(w);
    assert(!0u64 == 0xffff_ffff_ffff_ffffu64) by (bit_vector);
    let t = w.trailing_ones();
    assert forall|k: int| 0 <= k < t implies word_bit(w, k) by {
        let j = k as u64;
        assert((w >> j) & 1u64 == 1u64);
    }
}


/// Why the allocator could not be set up.
#[derive(Clone, Copy, Debug, PartialEq, Eq)]
pub enum PmmError {
    /// No free region that starts above physical address zero is large enough
    /// to hold the bitmap.
    NoBitmapRegion,
}

/// The frame allocator: a bitmap with one bit per physical frame.
pub struct BitmapPmm {
    bitmap: Vec<u64>,
    total_frames: u64,
    bitmap_start_addr: u64,
}

impl View for BitmapPmm {
    type V = Seq<bool>;

    /// One flag per frame, `true` while the frame is owned or unusable.
    closed spec fn view(&self) -> Seq<bool> {
        Seq::new(self.total_frames as nat, |f: int| bitmap_bit(self.bitmap@, f))
    }
}

impl BitmapPmm {
    /// The bitmap has exactly the words that its frames need.
    pub closed spec fn wf(&self) -> bool {
        &&& self.bitmap@.len() == bitmap_words(self.total_frames as int)
        &&& self.total_frames <= MAX_FRAMES
    }

    /// Number of frames that the allocator tracks.
    pub closed spec fn total_frames(&self) -> int {
        self.total_frames as int
    }

    /// Physical address of the region that was reserved for the bitmap.
    pub closed spec fn bitmap_start(&self) -> u64 {
        self.bitmap_start_addr
    }

    /// An allocator that tracks no frame at all.
    pub fn new() -> (pmm: BitmapPmm)
        ensures
            pmm.wf(),
            pmm.total_frames() == 0,
            pmm.bitmap_start() == 0,
            pmm@ =~= Seq::<bool>::empty(),
    {
        BitmapPmm { bitmap: Vec::new(), total_frames: 0, bitmap_start_addr: 0 }
    }

    /// Number of frames that the allocator tracks.
    pub fn frame_count(&self) -> (n: u64)
        ensures
            n == self.total_frames(),
            n == self@.len(),
    {
        self.total_frames
    }

    /// Physical address of the region that was reserved for the bitmap.
    pub fn bitmap_start_addr(&self) -> (addr: u64)
        ensures
            addr == self.bitmap_start(),
    {
        self.bitmap_start_addr
    }

    /// Whether the frame at `phys_addr` is marked used; `None` for a frame
    /// that the allocator does not track.
    pub fn is_used(&self, phys_addr: u64) -> (r: Option<bool>)
        requires
            self.wf(),
        ensures
            r == if phys_addr / 4096 < self.total_frames() {
                Some(self@[(phys_addr / 4096) as int])
            } else {
                None::<bool>
            },
    {
        let frame_idx: u64 = phys_addr / PAGE_SIZE;
        if frame_idx < self.total_frames {
            assert(frame_idx / 64 < self.bitmap.len());
            let word: u64 = self.bitmap[(frame_idx / 64) as usize];
            let bit: u64 = frame_idx % 64;
            Some((word >> bit) & 1 == 1)
        } else {
            None
        }
    }

    fn mark_used(&mut self, frame_idx: u64)
        requires
            old(self).wf(),
            frame_idx < old(self).total_frames(),
        ensures
            final(self).wf(),
            final(self).total_frames() == old(self).total_frames(),
            final(self).bitmap_start() == old(self).bitmap_start(),
            final(self)@ == old(self)@.update(frame_idx as int, true),
    {
        assert(frame_idx / 64 < self.bitmap.len());
        let word_idx: usize = (frame_idx / 64) as usize;
        let bit_idx: u64 = frame_idx % 64;
        let word: u64 = self.bitmap[word_idx];
        self.bitmap.set(word_idx, word | (1u64 << bit_idx));
        proof {
            assert forall|f: int| 0 <= f < self.total_frames implies bitmap_bit(self.bitmap@, f)
                == (f == frame_idx || bitmap_bit(old(self).bitmap@, f)) by {
                if f / 64 == word_idx {
                    lemma_set_bit(word, bit_idx, (f % 64) as u64);
                    assert(f == frame_idx <==> f % 64 == bit_idx);
                }
            }
            assert(self@ =~= old(self)@.update(frame_idx as int, true));
        }
    }

    fn mark_free(&mut self, frame_idx: u64)
        requires
            old(self).wf(),
            frame_idx < old(self).total_frames(),
        ensures
            final(self).wf(),
            final(self).total_frames() == old(self).total_frames(),
            final(self).bitmap_start() == old(self).bitmap_start(),
            final(self)@ == old(self)@.update(frame_idx as int, false),
    {
        assert(frame_idx / 64 < self.bitmap.len());
        let word_idx: usize = (frame_idx / 64) as usize;
        let bit_idx: u64 = frame_idx % 64;
        let word: u64 = self.bitmap[word_idx];
        self.bitmap.set(word_idx, word & !(1u64 << bit_idx));
        proof {
            assert forall|f: int| 0 <= f < self.total_frames implies bitmap_bit(self.bitmap@, f)
                == (f != frame_idx && bitmap_bit(old(self).bitmap@, f)) by {
                if f / 64 == word_idx {
                    lemma_clear_bit(word, bit_idx, (f % 64) as u64);
                    assert(f == frame_idx <==> f % 64 == bit_idx);
                }
            }
            assert(self@ =~= old(self)@.update(frame_idx as int, false));
        }
    }
}


impl BitmapPmm {
    fn mark_region_used(&mut self, start_addr: u64, page_count: u64)
        requires
            old(self).wf(),
        ensures
            final(self).wf(),
            final(self).total_frames() == old(self).total_frames(),
            final(self).bitmap_start() == old(self).bitmap_start(),
            final(self)@.len() == old(self)@.len(),
            forall|f: int|
                0 <= f < old(self)@.len() ==> final(self)@[f] == (old(self)@[f] || start_addr
                    / 4096 <= f < start_addr / 4096 + page_count),
    {
        let start_frame: u64 = start_addr / PAGE_SIZE;
        let total: u64 = self.total_frames;
        if start_frame >= total {
            return ;
        }
        let avail: u64 = total - start_frame;
        let count: u64 = if page_count < avail {
            page_count
        } else {
            avail
        };
        let mut i: u64 = 0;
        while i < count
            invariant
                self.wf(),
                self.total_frames == total,
                self.bitmap_start() == old(self).bitmap_start(),
                self@.len() == old(self)@.len(),
                total == old(self)@.len(),
                start_frame == start_addr / 4096,
                i <= count,
                start_frame + count <= total,
                forall|f: int|
                    0 <= f < total ==> self@[f] == (old(self)@[f] || start_frame <= f
                        < start_frame + i),
            decreases count - i,
        {
            self.mark_used(start_frame + i);
            i = i + 1;
        }
    }

    fn mark_region_free(&mut self, start_addr: u64, page_count: u64)
        requires
            old(self).wf(),
        ensures
            final(self).wf(),
            final(self).total_frames() == old(self).total_frames(),
            final(self).bitmap_start() == old(self).bitmap_start(),
            final(self)@.len() == old(self)@.len(),
            forall|f: int|
                0 <= f < old(self)@.len() ==> final(self)@[f] == (old(self)@[f] && !(start_addr
                    / 4096 <= f < start_addr / 4096 + page_count)),
    {
        let start_frame: u64 = start_addr / PAGE_SIZE;
        let total: u64 = self.total_frames;
        if start_frame >= total {
            return ;
        }
        let avail: u64 = total - start_frame;
        let count: u64 = if page_count < avail {
            page_count
        } else {
            avail
        };
        let mut i: u64 = 0;
        while i < count
            invariant
                self.wf(),
                self.total_frames == total,
                self.bitmap_start() == old(self).bitmap_start(),
                self@.len() == old(self)@.len(),
                total == old(self)@.len(),
                start_frame == start_addr / 4096,
                i <= count,
                start_frame + count <= total,
                forall|f: int|
                    0 <= f < total ==> self@[f] == (old(self)@[f] && !(start_frame <= f
                        < start_frame + i)),
            decreases count - i,
        {
            self.mark_free(start_frame + i);
            i = i + 1;
        }
    }

    /// Hands out the lowest free frame and marks it used. The result is the
    /// frame's physical address; `None` exactly when no tracked frame is free.
    pub fn allocate_frame_internal(&mut self) -> (r: Option<u64>)
        requires
            old(self).wf(),
        ensures
            final(self).wf(),
            final(self).total_frames() == old(self).total_frames(),
            final(self).bitmap_start() == old(self).bitmap_start(),
            match r {
                Some(addr) => {
                    &&& addr % 4096 == 0
                    &&& lowest_free(old(self)@, addr as int / 4096)
                    &&& final(self)@ == old(self)@.update(addr as int / 4096, true)
                },
                None => all_used(old(self)@) && final(self)@ == old(self)@,
            },
            spec_allocate(old(self)@) == match r {
                Some(addr) => Some(addr as int / 4096),
                None => None::<int>,
            },
            final(self)@ == after_op(old(self)@, FrameOp::Alloc),
    {
        let words: usize = self.bitmap.len();
        let mut idx: usize = 0;
        while idx < words
            invariant
                self.wf(),
                *self == *old(self),
                words == self.bitmap@.len(),
                idx <= words,
                forall|f: int| 0 <= f < idx * 64 && f < self.total_frames ==> self@[f],
            decreases words - idx,
        {
            let entry: u64 = self.bitmap[idx];
            proof {
                lemma_lowest_clear_bit(entry);
            }
            if entry != !0u64 {
                let inverted: u64 = !entry;
                let bit_idx: u32 = inverted.trailing_zeros();
                let frame_idx: u64 = (idx as u64) * 64 + bit_idx as u64;
                assert forall|f: int| 0 <= f < frame_idx && f < self.total_frames implies self@[f] by {
                    if f >= idx * 64 {
                        assert(f / 64 == idx && f % 64 == f - idx * 64);
                    }
                }
                if frame_idx >= self.total_frames {
                    assert(forall|f: int| !lowest_free(self@, f));
                    return None;
                }
                assert(!self@[frame_idx as int]) by {
                    assert(frame_idx / 64 == idx && frame_idx % 64 == bit_idx);
                }
                proof {
                    assert(lowest_free(self@, frame_idx as int));
                    lemma_lowest_free_unique(
                        self@,
                        frame_idx as int,
                        choose|f: int| lowest_free(self@, f),
                    );
                }
                self.mark_used(frame_idx);
                return Some(frame_idx * PAGE_SIZE);
            }
            assert forall|f: int| 0 <= f < (idx + 1) * 64 && f < self.total_frames implies self@[f] by {
                if f >= idx * 64 {
                    assert(f / 64 == idx && f % 64 == f - idx * 64);
                    lemma_full_word((f % 64) as u64);
                }
            }
            idx = idx + 1;
        }
        assert(forall|f: int| !lowest_free(self@, f));
        None
    }

    /// Marks the frame at `phys_addr` free again. An address beyond the
    /// tracked frames changes nothing.
    pub fn free_frame_internal(&mut self, phys_addr: u64)
        requires
            old(self).wf(),
        ensures
            final(self).wf(),
            final(self).total_frames() == old(self).total_frames(),
            final(self).bitmap_start() == old(self).bitmap_start(),
            final(self)@ == after_op(old(self)@, FrameOp::Free(phys_addr)),
    {
        let frame_idx: u64 = phys_addr / PAGE_SIZE;
        if frame_idx < self.total_frames {
            self.mark_free(frame_idx);
        }
    }
}


proof fn lemma_first_fit_unique(map: Seq<MemoryDescriptor>, bytes: int, i: int, j: int)
    requires
        is_first_fit(map, bytes, i),
        is_first_fit(map, bytes, j),
    ensures
        i == j,
{
    if i < j {
        assert(!map[i].fits(bytes));
    }
    if j < i {
        assert(!map[j].fits(bytes));
    }
}

/// Index of the entry that hosts the bitmap: the first one that fits.
pub open spec fn first_fit(map: Seq<MemoryDescriptor>, bytes: int) -> int {
    choose|i: int| is_first_fit(map, bytes, i)
}

impl BitmapPmm {
    fn find_bitmap_region(memory_map: &[MemoryDescriptor], bytes: u64) -> (r: Option<usize>)
        ensures
            match r {
                Some(i) => is_first_fit(memory_map@, bytes as int, i as int) && first_fit(
                    memory_map@,
                    bytes as int,
                ) == i,
                None => !has_fit(memory_map@, bytes as int),
            },
    {
        let mut i: usize = 0;
        while i < memory_map.len()
            invariant
                i <= memory_map@.len(),
                forall|j: int| 0 <= j < i ==> !(#[trigger] memory_map@[j]).fits(bytes as int),
            decreases memory_map@.len() - i,
        {
            let desc = &memory_map[i];
            if desc.type_ == CONVENTIONAL_MEMORY && desc.phys_start != 0 && (desc.page_count as u128)
                * 4096 >= bytes as u128 {
                proof {
                    lemma_first_fit_unique(
                        memory_map@,
                        bytes as int,
                        i as int,
                        first_fit(memory_map@, bytes as int),
                    );
                }
                return Some(i);
            }
            i = i + 1;
        }
        None
    }

    /// Sets the allocator up from the firmware memory map: sizes the bitmap
    /// for every frame below `max_phys_addr`, places it in the first free
    /// region that can hold it, marks every frame used, frees the frames that
    /// the map reports as free RAM, and takes back the frames under the bitmap
    /// and frame zero. Fails, leaving the allocator as it was, when no region
    /// can hold the bitmap.
    pub fn init(&mut self, memory_map: &[MemoryDescriptor], max_phys_addr: u64) -> (r: Result<
        (),
        PmmError,
    >)
        requires
            bitmap_words(frames_below(max_phys_addr)) <= usize::MAX,
        ensures
            r is Ok <==> has_fit(memory_map@, bitmap_bytes(frames_below(max_phys_addr))),
            r is Err ==> *final(self) == *old(self),
            r is Ok ==> {
                let total = frames_below(max_phys_addr);
                let home = first_fit(memory_map@, bitmap_bytes(total));
                &&& final(self).wf()
                &&& final(self).total_frames() == total
                &&& final(self)@.len() == total
                &&& is_first_fit(memory_map@, bitmap_bytes(total), home)
                &&& final(self).bitmap_start() == memory_map@[home].phys_start
                &&& forall|f: int|
                    0 <= f < total ==> final(self)@[f] == used_after_init(
                        memory_map@,
                        total,
                        final(self).bitmap_start(),
                        f,
                    )
            },
    {
        let total: u64 = max_phys_addr / PAGE_SIZE + if max_phys_addr % PAGE_SIZE != 0 {
            1u64
        } else {
            0u64
        };
        let words: u64 = total / 64 + if total % 64 != 0 {
            1u64
        } else {
            0u64
        };
        let bitmap_size_bytes: u64 = words * 8;
        assert(total == frames_below(max_phys_addr));
        assert(words == bitmap_words(total as int));

        let home: usize = match Self::find_bitmap_region(memory_map, bitmap_size_bytes) {
            Some(i) => i,
            None => {
                return Err(PmmError::NoBitmapRegion);
            },
        };
        let bitmap_phys_addr: u64 = memory_map[home].phys_start;

        let mut bitmap: Vec<u64> = Vec::new();
        let mut w: u64 = 0;
        while w < words
            invariant
                w <= words,
                bitmap@.len() == w,
                forall|k: int| 0 <= k < w ==> bitmap@[k] == !0u64,
            decreases words - w,
        {
            bitmap.push(!0u64);
            w = w + 1;
        }
        self.bitmap = bitmap;
        self.total_frames = total;
        self.bitmap_start_addr = bitmap_phys_addr;
        assert forall|f: int| 0 <= f < total implies self@[f] by {
            lemma_full_word((f % 64) as u64);
        }

        let mut i: usize = 0;
        while i < memory_map.len()
            invariant
                self.wf(),
                self.total_frames == total,
                self.bitmap_start_addr == bitmap_phys_addr,
                self@.len() == total,
                i <= memory_map@.len(),
                forall|f: int|
                    0 <= f < total ==> self@[f] == !conventional_among(memory_map@, i as int, f),
            decreases memory_map@.len() - i,
        {
            let desc = &memory_map[i];
            let ghost before = self@;
            if desc.type_ == CONVENTIONAL_MEMORY {
                self.mark_region_free(desc.phys_start, desc.page_count);
            }
            assert forall|f: int| 0 <= f < total implies self@[f] == !conventional_among(
                memory_map@,
                i + 1,
                f,
            ) by {
                assert(self@[f] == (before[f] && !memory_map@[i as int].covers(f)));
                if conventional_among(memory_map@, i + 1, f) {
                    let j = choose|j: int| 0 <= j < i + 1 && (#[trigger] memory_map@[j]).covers(f);
                    if j < i {
                        assert(conventional_among(memory_map@, i as int, f));
                    }
                }
            }
            i = i + 1;
        }

        let pages: u64 = bitmap_size_bytes / PAGE_SIZE + if bitmap_size_bytes % PAGE_SIZE != 0 {
            1u64
        } else {
            0u64
        };
        assert(pages == bitmap_pages(total as int));
        self.mark_region_used(bitmap_phys_addr, pages);
        if total > 0 {
            self.mark_used(0);
        }
        Ok(())
    }
}

/// Sets `pmm` up from the firmware memory map; see [`BitmapPmm::init`].
pub fn init(pmm: &mut BitmapPmm, memory_map: &[MemoryDescriptor], max_phys_addr: u64) -> (r:
    Result<(), PmmError>)
    requires
        bitmap_words(frames_below(max_phys_addr)) <= usize::MAX,
    ensures
        r is Ok <==> has_fit(memory_map@, bitmap_bytes(frames_below(max_phys_addr))),
        r is Err ==> *final(pmm) == *old(pmm),
        r is Ok ==> {
            let total = frames_below(max_phys_addr);
            let home = first_fit(memory_map@, bitmap_bytes(total));
            &&& final(pmm).wf()
            &&& final(pmm).total_frames() == total
            &&& final(pmm)@.len() == total
            &&& is_first_fit(memory_map@, bitmap_bytes(total), home)
            &&& final(pmm).bitmap_start() == memory_map@[home].phys_start
            &&& forall|f: int|
                0 <= f < total ==> final(pmm)@[f] == used_after_init(
                    memory_map@,
                    total,
                    final(pmm).bitmap_start(),
                    f,
                )
        },
{
    pmm.init(memory_map, max_phys_addr)
}

/// Takes the lowest free frame of `pmm`; see
/// [`BitmapPmm::allocate_frame_internal`].
pub fn allocate_frame(pmm: &mut BitmapPmm) -> (r: Option<u64>)
    requires
        old(pmm).wf(),
    ensures
        final(pmm).wf(),
        final(pmm).total_frames() == old(pmm).total_frames(),
        final(pmm).bitmap_start() == old(pmm).bitmap_start(),
        match r {
            Some(addr) => {
                &&& addr % 4096 == 0
                &&& lowest_free(old(pmm)@, addr as int / 4096)
                &&& final(pmm)@ == old(pmm)@.update(addr as int / 4096, true)
            },
            None => all_used(old(pmm)@) && final(pmm)@ == old(pmm)@,
        },
        spec_allocate(old(pmm)@) == match r {
            Some(addr) => Some(addr as int / 4096),
            None => None::<int>,
        },
        final(pmm)@ == after_op(old(pmm)@, FrameOp::Alloc),
{
    pmm.allocate_frame_internal()
}

/// Gives the frame at `phys_addr` back to `pmm`; see
/// [`BitmapPmm::free_frame_internal`].
pub fn free_frame(pmm: &mut BitmapPmm, phys_addr: u64)
    requires
        old(pmm).wf(),
    ensures
        final(pmm).wf(),
        final(pmm).total_frames() == old(pmm).total_frames(),
        final(pmm).bitmap_start() == old(pmm).bitmap_start(),
        final(pmm)@ == after_op(old(pmm)@, FrameOp::Free(phys_addr)),
{
    pmm.free_frame_internal(phys_addr)
}


proof fn lemma_lowest_free_unique(used: Seq<bool>, f: int, g: int)
    requires
        lowest_free(used, f),
        lowest_free(used, g),
    ensures
        f == g,
{
}

proof fn lemma_held_frames(used: Seq<bool>, ops: Seq<FrameOp>)
    requires
        matched(used, ops),
    ensures
        after_ops(used, ops).len() == used.len(),
        forall|f: int|
            0 <= f < used.len() ==> after_ops(used, ops)[f] == (used[f] || held(used, ops).contains(
                f,
            )),
        forall|f: int| #[trigger]
            held(used, ops).contains(f) ==> 0 <= f < used.len() && !used[f],
    decreases ops.len(),
{
    if ops.len() == 0 {
        assert(held(used, ops) =~= Set::<int>::empty());
    } else {
        let before = after_ops(used, ops.drop_last());
        lemma_held_frames(used, ops.drop_last());
        match ops.last() {
            FrameOp::Alloc => {
                if exists|f: int| lowest_free(before, f) {
                    let f = choose|f: int| lowest_free(before, f);
                    assert(lowest_free(before, f));
                    assert(!before[f] && !used[f]);
                    assert(held(used, ops) == held(used, ops.drop_last()).insert(f));
                } else {
                    assert(held(used, ops) == held(used, ops.drop_last()));
                }
            },
            FrameOp::Free(addr) => {
                assert(held(used, ops) == held(used, ops.drop_last()).remove(addr as int / 4096));
            },
        }
        assert forall|f: int| #[trigger] held(used, ops).contains(f) implies 0 <= f < used.len()
            && !used[f] by {
            if !held(used, ops.drop_last()).contains(f) {
                assert(ops.last() is Alloc);
                assert(spec_allocate(before) == Some(f));
                assert(lowest_free(before, f));
            }
        }
    }
}

/// A frame that lies wholly inside a region that the map reports as free RAM
/// is free after initialization, unless it is frame zero or holds part of the
/// bitmap.
pub proof fn law_frame_inside_free_ram(
    map: Seq<MemoryDescriptor>,
    total_frames: int,
    bitmap_start: u64,
    i: int,
    frame: int,
)
    requires
        0 <= i < map.len(),
        map[i].is_conventional(),
        map[i].phys_start <= frame * 4096,
        (frame + 1) * 4096 <= map[i].phys_start + map[i].page_count * 4096,
        frame != 0,
        !(bitmap_start as int / 4096 <= frame < bitmap_start as int / 4096 + bitmap_pages(
            total_frames,
        )),
    ensures
        !used_after_init(map, total_frames, bitmap_start, frame),
{
    assert(map[i].covers(frame));
}

/// A frame that shares no byte with any region that the map reports as free
/// RAM is used after initialization.
pub proof fn law_frame_outside_free_ram(
    map: Seq<MemoryDescriptor>,
    total_frames: int,
    bitmap_start: u64,
    frame: int,
)
    requires
        forall|i: int|
            0 <= i < map.len() && (#[trigger] map[i]).is_conventional() ==> (frame + 1) * 4096
                <= map[i].phys_start || map[i].phys_start + map[i].page_count * 4096 <= frame
                * 4096,
    ensures
        used_after_init(map, total_frames, bitmap_start, frame),
{
    if conventional(map, frame) {
        let i = choose|i: int| 0 <= i < map.len() && (#[trigger] map[i]).covers(frame);
        assert(map[i].is_conventional());
    }
}

/// After any sequence of requests in which every `Free` gives back a held
/// frame, the frames marked used are those that were used at the start and
/// those still held.
pub proof fn law_used_is_initial_plus_held(used: Seq<bool>, ops: Seq<FrameOp>)
    requires
        matched(used, ops),
    ensures
        after_ops(used, ops).len() == used.len(),
        forall|f: int|
            0 <= f < used.len() ==> after_ops(used, ops)[f] == (used[f] || held(used, ops).contains(
                f,
            )),
{
    lemma_held_frames(used, ops);
}

/// Once every frame that was taken has been given back, the bitmap is what it
/// was before the first request.
pub proof fn law_matched_frees_restore(used: Seq<bool>, ops: Seq<FrameOp>)
    requires
        matched(used, ops),
        held(used, ops) =~= Set::<int>::empty(),
    ensures
        after_ops(used, ops) == used,
{
    lemma_held_frames(used, ops);
    assert(after_ops(used, ops) =~= used);
}

/// An allocation never hands out a frame that is still held.
pub proof fn law_no_double_allocation(used: Seq<bool>, ops: Seq<FrameOp>, frame: int)
    requires
        matched(used, ops),
        spec_allocate(after_ops(used, ops)) == Some(frame),
    ensures
        !held(used, ops).contains(frame),
        0 <= frame < used.len(),
        !used[frame],
{
    lemma_held_frames(used, ops);
    let now = after_ops(used, ops);
    assert(lowest_free(now, frame));
}

/// An allocation fails exactly when every tracked frame is used.
pub proof fn law_allocation_fails_iff_full(used: Seq<bool>)
    ensures
        spec_allocate(used) is None <==> all_used(used),
    decreases used.len(),
{
    if all_used(used) {
        assert(forall|f: int| !lowest_free(used, f));
    } else {
        lemma_some_lowest_free(used, used.len() as int);
    }
}

proof fn lemma_some_lowest_free(used: Seq<bool>, n: int)
    requires
        0 <= n <= used.len(),
        exists|f: int| 0 <= f < n && !used[f],
    ensures
        exists|f: int| lowest_free(used, f),
    decreases n,
{
    if exists|f: int| 0 <= f < n - 1 && !used[f] {
        lemma_some_lowest_free(used, n - 1);
    } else {
        assert(lowest_free(used, n - 1));
    }
}

} // verus!
