//! Virtual memory of the VM: heaps (byte buffers) addressed by virtual
//! pointers that carry a heap id in their upper 24 bits and an offset in
//! their lower 40 bits.
use vstd::prelude::*;

verus! {

/// A virtual pointer: heap id in bits 40..64, offset in bits 0..40.
#[derive(Clone, Copy, Debug, PartialEq, Eq, Hash)]
pub struct VPtr(pub u64);

/// 2^40: the first heap id bit.
pub open spec fn id_unit() -> int {
    0x100_0000_0000
}

/// The heap id of a pointer.
pub open spec fn id_of(p: VPtr) -> int {
    p.0 as int / id_unit()
}

/// The offset of a pointer within its heap.
pub open spec fn off_of(p: VPtr) -> int {
    p.0 as int % id_unit()
}

impl VPtr {
    /// The pointer to the start of heap `id`; ids past 24 bits lose their
    /// upper bits.
    pub fn from_heep_id(id: usize) -> (r: VPtr)
        ensures
            r.0 == ((id as u64) << 40u64),
            r.0 == (id as int % 0x100_0000) * id_unit(),
    {
        let x = id as u64;
        proof {
            assert((x << 40u64) == (x % 0x100_0000) * 0x100_0000_0000) by (bit_vector);
        }
        VPtr(x << 40)
    }

    /// The heap id: the upper 24 bits.
    pub fn heep_id(&self) -> (r: usize)
        ensures
            r == id_of(*self),
    {
        let x = self.0;
        proof {
            assert(x >> 40u64 == x / 0x100_0000_0000) by (bit_vector);
            assert(x / 0x100_0000_0000 < 0x100_0000) by (bit_vector);
        }
        (x >> 40) as usize
    }

    /// The offset within the heap: the lower 40 bits.
    pub fn offset(&self) -> (r: usize)
        ensures
            r == (off_of(*self) as usize),
    {
        let x = self.0;
        proof {
            assert(x & 0xFF_FFFF_FFFFu64 == x % 0x100_0000_0000) by (bit_vector);
        }
        (x & 0x0000_00FF_FFFF_FFFF) as usize
    }
}

/// A heap that round-trips its id: the id of `from_heep_id(id)` is `id`, and
/// its offset is 0, for every id that fits in 24 bits.
pub proof fn lemma_vptr_round_trip(id: usize)
    requires
        id < 0x100_0000,
    ensures
        (id as int % 0x100_0000) * id_unit() / id_unit() == id,
        ((id as int % 0x100_0000) * id_unit()) % id_unit() == 0,
{
    assert((id as int % 0x100_0000) == id);
    vstd::arithmetic::div_mod::lemma_div_multiples_vanish(id as int, id_unit());
    vstd::arithmetic::div_mod::lemma_mod_multiples_basic(id as int, id_unit());
}

/// Adding to a pointer's offset, while the offset stays within its 40 bits,
/// keeps the pointer's heap id and moves its offset by as much.
pub proof fn law_offset_add_keeps_heap(p: VPtr, k: u64)
    requires
        off_of(p) + k < id_unit(),
    ensures
        p.0 + k <= u64::MAX,
        id_of(VPtr((p.0 + k) as u64)) == id_of(p),
        off_of(VPtr((p.0 + k) as u64)) == off_of(p) + k,
{
    let q = p.0 as int / id_unit();
    let r = p.0 as int % id_unit();
    vstd::arithmetic::div_mod::lemma_fundamental_div_mod(p.0 as int, id_unit());
    assert(p.0 as int == id_unit() * q + r);
    assert(q < 0x100_0000) by {
        vstd::arithmetic::div_mod::lemma_div_is_ordered(p.0 as int, u64::MAX as int, id_unit());
    }
    assert(p.0 + k == id_unit() * q + (r + k));
    assert(p.0 + k <= u64::MAX) by (nonlinear_arith)
        requires
            p.0 + k == id_unit() * q + (r + k),
            q < 0x100_0000,
            q >= 0,
            r + k < id_unit(),
            id_unit() == 0x100_0000_0000,
    ;
    vstd::arithmetic::div_mod::lemma_div_multiples_vanish_fancy(q, r + k, id_unit());
    vstd::arithmetic::div_mod::lemma_mod_multiples_vanish(q, r + k, id_unit());
    vstd::arithmetic::div_mod::lemma_small_mod((r + k) as nat, id_unit() as nat);
}

/// A byte buffer of the VM: its bytes, and the size it was last given.
#[derive(Debug)]
pub struct RawHeep {
    pub bytes: Vec<u8>,
    pub size: usize,
}

/// `n` zero bytes.
pub fn zeros(n: usize) -> (r: Vec<u8>)
    ensures
        r@ == Seq::new(n as nat, |i: int| 0u8),
{
    let mut r: Vec<u8> = Vec::new();
    while r.len() < n
        invariant
            r@.len() <= n,
            r@ == Seq::new(r@.len(), |i: int| 0u8),
        decreases n - r@.len(),
    {
        r.push(0);
        proof {
            assert(r@ =~= Seq::new(r@.len(), |i: int| 0u8));
        }
    }
    r
}

/// The bytes of a buffer resized to `n`: its first bytes kept, zeros after.
pub open spec fn resized(b: Seq<u8>, n: int) -> Seq<u8> {
    Seq::new(n as nat, |i: int| if i < b.len() { b[i] } else { 0u8 })
}

impl RawHeep {
    /// A buffer of `size` bytes. The bytes of a fresh buffer are zero here.
    pub fn new(size: usize) -> (r: Self)
        ensures
            r.size == size,
            r.bytes@ == resized(seq![], size as int),
    {
        let bytes = zeros(size);
        proof {
            assert(bytes@ =~= resized(seq![], size as int));
        }
        RawHeep { bytes, size }
    }

    /// Resizes the buffer, keeping the bytes that still fit.
    pub fn realloc(&mut self, new_size: usize)
        ensures
            final(self).size == new_size,
            final(self).bytes@ == resized(old(self).bytes@, new_size as int),
    {
        let mut bytes: Vec<u8> = Vec::new();
        let mut i: usize = 0;
        while i < new_size
            invariant
                i <= new_size,
                bytes@ == resized(self.bytes@, new_size as int).subrange(0, i as int),
            decreases new_size - i,
        {
            let b = if i < self.bytes.len() {
                self.bytes[i]
            } else {
                0
            };
            proof {
                assert(resized(self.bytes@, new_size as int).subrange(0, i + 1) =~= resized(
                    self.bytes@,
                    new_size as int,
                ).subrange(0, i as int).push(b));
            }
            bytes.push(b);
            i = i + 1;
        }
        proof {
            assert(resized(self.bytes@, new_size as int).subrange(0, i as int) =~= resized(
                self.bytes@,
                new_size as int,
            ));
        }
        self.bytes = bytes;
        self.size = new_size;
    }

    /// Gives the bytes back; the size stays as it was.
    pub fn dealloc(&mut self)
        ensures
            final(self).size == old(self).size,
            final(self).bytes@ == Seq::<u8>::empty(),
    {
        self.bytes = Vec::new();
    }

    /// A copy with its own bytes.
    pub fn deep_copy(&self) -> (r: Self)
        ensures
            r.size == self.size,
            r.bytes@ == self.bytes@,
    {
        let mut bytes: Vec<u8> = Vec::new();
        let mut i: usize = 0;
        while i < self.bytes.len()
            invariant
                i <= self.bytes@.len(),
                bytes@ == self.bytes@.subrange(0, i as int),
            decreases self.bytes@.len() - i,
        {
            bytes.push(self.bytes[i]);
            proof {
                assert(self.bytes@.subrange(0, i + 1) =~= self.bytes@.subrange(0, i as int).push(
                    self.bytes@[i as int],
                ));
            }
            i = i + 1;
        }
        proof {
            assert(self.bytes@.subrange(0, i as int) =~= self.bytes@);
        }
        RawHeep { bytes, size: self.size }
    }
}

/// A heap of the VM.
#[derive(Debug)]
pub struct Heep {
    pub raw: RawHeep,
}

impl Heep {
    pub fn new(size: usize) -> (r: Self)
        ensures
            r.raw.size == size,
            r.raw.bytes@ == resized(seq![], size as int),
    {
        Heep { raw: RawHeep::new(size) }
    }
}

/// The heaps of the VM, and the ids of released heaps to use again.
#[derive(Debug)]
pub struct DefaultMemoryManager {
    pub data: Vec<Heep>,
    pub reuse_list: Vec<usize>,
}

/// The sum of the sizes of the first `k` heaps.
pub open spec fn sizes_upto(h: Seq<Heep>, k: int) -> int
    decreases k,
{
    if k <= 0 {
        0
    } else {
        sizes_upto(h, k - 1) + h[k - 1].raw.size
    }
}

/// The heaps after releasing heap `id`: where `id` is not on the reuse list
/// yet, its bytes are given back and `id` goes on the list; a heap already
/// released is neither released nor listed again.
pub open spec fn dealloc_effect(new: DefaultMemoryManager, old: DefaultMemoryManager, id: int) -> bool {
    if old.reuse_list@.contains(id as usize) {
        &&& new.reuse_list@ == old.reuse_list@
        &&& new.data@ == old.data@
    } else {
        &&& new.reuse_list@ == old.reuse_list@.push(id as usize)
        &&& new.data@.len() == old.data@.len()
        &&& new.data@[id].raw.size == old.data@[id].raw.size
        &&& new.data@[id].raw.bytes@ == Seq::<u8>::empty()
        &&& forall|j: int|
            0 <= j < old.data@.len() && j != id ==> #[trigger] new.data@[j] == old.data@[j]
    }
}

/// No heap id is on the reuse list twice.
pub open spec fn reuse_distinct(m: DefaultMemoryManager) -> bool {
    m.reuse_list@.no_duplicates()
}

/// Releasing a heap twice is releasing it once: the second release changes
/// nothing.
pub proof fn law_dealloc_twice(m0: DefaultMemoryManager, m1: DefaultMemoryManager, m2: DefaultMemoryManager, id: int)
    requires
        0 <= id < 0x1_0000_0000_0000_0000,
        dealloc_effect(m1, m0, id),
        dealloc_effect(m2, m1, id),
    ensures
        m2.reuse_list@ == m1.reuse_list@,
        m2.data@ == m1.data@,
{
    if !m0.reuse_list@.contains(id as usize) {
        assert(m1.reuse_list@.last() == id as usize);
        assert(m1.reuse_list@.contains(id as usize));
    }
}

/// Releasing keeps every id on the reuse list at most once.
pub proof fn law_dealloc_keeps_distinct(new: DefaultMemoryManager, old: DefaultMemoryManager, id: int)
    requires
        reuse_distinct(old),
        dealloc_effect(new, old, id),
    ensures
        reuse_distinct(new),
{
    if !old.reuse_list@.contains(id as usize) {
        assert forall|i: int, j: int|
            0 <= i < new.reuse_list@.len() && 0 <= j < new.reuse_list@.len() && i != j implies new.reuse_list@[i]
                != new.reuse_list@[j] by {
            if i == old.reuse_list@.len() as int {
                assert(old.reuse_list@[j] != id as usize);
            } else if j == old.reuse_list@.len() as int {
                assert(old.reuse_list@[i] != id as usize);
            }
        }
    }
}

impl DefaultMemoryManager {
    pub fn with_capacity(cap: usize) -> (r: Self)
        ensures
            r.data@.len() == 0,
            r.reuse_list@.len() == 0,
    {
        DefaultMemoryManager { data: Vec::new(), reuse_list: Vec::new() }
    }

    /// A heap of `size` bytes: the last released id, resized, or a new heap
    /// at the end.
    pub fn alloc_heep(&mut self, size: usize, _shard_hint: usize) -> (r: VPtr)
        requires
            old(self).reuse_list@.len() > 0 ==> old(self).reuse_list@.last() < old(self).data@.len(),
            old(self).data@.len() < usize::MAX,
        ensures
            old(self).reuse_list@.len() > 0 ==> {
                let id = old(self).reuse_list@.last();
                &&& final(self).reuse_list@ == old(self).reuse_list@.drop_last()
                &&& final(self).data@.len() == old(self).data@.len()
                &&& final(self).data@[id as int].raw.size == size
                &&& final(self).data@[id as int].raw.bytes@ == resized(
                    old(self).data@[id as int].raw.bytes@,
                    size as int,
                )
                &&& forall|j: int|
                    0 <= j < old(self).data@.len() && j != id ==> #[trigger] final(self).data@[j]
                        == old(self).data@[j]
                &&& r.0 == (id as int % 0x100_0000) * id_unit()
            },
            old(self).reuse_list@.len() == 0 ==> {
                &&& final(self).reuse_list@ == old(self).reuse_list@
                &&& final(self).data@.len() == old(self).data@.len() + 1
                &&& final(self).data@.last().raw.size == size
                &&& final(self).data@.last().raw.bytes@ == resized(seq![], size as int)
                &&& forall|j: int|
                    0 <= j < old(self).data@.len() ==> #[trigger] final(self).data@[j]
                        == old(self).data@[j]
                &&& r.0 == (old(self).data@.len() as int % 0x100_0000) * id_unit()
            },
    {
        match self.reuse_list.pop() {
            Some(id) => {
                let mut h = self.data.remove(id);
                h.raw.realloc(size);
                self.data.insert(id, h);
                proof {
                    assert forall|j: int|
                        0 <= j < old(self).data@.len() && j != id implies #[trigger] self.data@[j]
                            == old(self).data@[j] by {
                        if j < id {
                        } else {
                        }
                    }
                }
                VPtr::from_heep_id(id)
            },
            None => {
                let heep = Heep::new(size);
                self.data.push(heep);
                let id = self.data.len() - 1;
                VPtr::from_heep_id(id)
            },
        }
    }

    /// Resizes the heap that `ptr` points into.
    pub fn realloc_heep(&mut self, ptr: VPtr, new_size: usize)
        requires
            id_of(ptr) < old(self).data@.len(),
        ensures
            final(self).reuse_list@ == old(self).reuse_list@,
            final(self).data@.len() == old(self).data@.len(),
            final(self).data@[id_of(ptr)].raw.size == new_size,
            final(self).data@[id_of(ptr)].raw.bytes@ == resized(
                old(self).data@[id_of(ptr)].raw.bytes@,
                new_size as int,
            ),
            forall|j: int|
                0 <= j < old(self).data@.len() && j != id_of(ptr) ==> #[trigger] final(self).data@[j] == old(self).data@[j],
    {
        let id = ptr.heep_id();
        let mut h = self.data.remove(id);
        h.raw.realloc(new_size);
        self.data.insert(id, h);
        proof {
            assert forall|j: int|
                0 <= j < old(self).data@.len() && j != id implies #[trigger] self.data@[j]
                    == old(self).data@[j] by {
                if j < id {
                } else {
                }
            }
        }
    }

    /// Releases the heap that `ptr` points into and puts its id on the reuse
    /// list (see `dealloc_effect`); a heap already released stays as it is.
    pub fn dealloc_heep(&mut self, ptr: VPtr, _shard_hint: usize)
        requires
            id_of(ptr) < old(self).data@.len(),
        ensures
            dealloc_effect(*final(self), *old(self), id_of(ptr)),
    {
        let id = ptr.heep_id();
        let mut k: usize = 0;
        while k < self.reuse_list.len()
            invariant
                k <= self.reuse_list@.len(),
                self.reuse_list@ == old(self).reuse_list@,
                self.data@ == old(self).data@,
                id == id_of(ptr),
                forall|i: int| 0 <= i < k ==> self.reuse_list@[i] != id,
            decreases self.reuse_list@.len() - k,
        {
            if self.reuse_list[k] == id {
                assert(self.reuse_list@[k as int] == id);
                assert(self.reuse_list@.contains(id));
                return;
            }
            k = k + 1;
        }
        assert(!self.reuse_list@.contains(id));
        let mut h = self.data.remove(id);
        h.raw.dealloc();
        self.data.insert(id, h);
        self.reuse_list.push(id);
        proof {
            assert forall|j: int|
                0 <= j < old(self).data@.len() && j != id implies #[trigger] self.data@[j]
                    == old(self).data@[j] by {
                if j < id {
                } else {
                }
            }
        }
    }

    /// The sum of the heaps' sizes.
    pub fn total_memory_size_hint(&self) -> (r: usize)
        requires
            sizes_upto(self.data@, self.data@.len() as int) <= usize::MAX,
        ensures
            r == sizes_upto(self.data@, self.data@.len() as int),
    {
        let mut total: usize = 0;
        let mut i: usize = 0;
        while i < self.data.len()
            invariant
                i <= self.data@.len(),
                total == sizes_upto(self.data@, i as int),
                sizes_upto(self.data@, self.data@.len() as int) <= usize::MAX,
            decreases self.data@.len() - i,
        {
            proof {
                lemma_sizes_upto_mono(self.data@, i + 1, self.data@.len() as int);
            }
            total = total + self.data[i].raw.size;
            i = i + 1;
        }
        total
    }

    /// A heap holding a copy of `data`.
    pub fn static_data(&mut self, data: &[u8]) -> (r: VPtr)
        requires
            old(self).reuse_list@.len() > 0 ==> old(self).reuse_list@.last() < old(self).data@.len(),
            old(self).data@.len() < usize::MAX,
        ensures
            ({
                let id: int = if old(self).reuse_list@.len() > 0 {
                    old(self).reuse_list@.last() as int
                } else {
                    old(self).data@.len() as int
                };
                &&& r.0 == (id % 0x100_0000) * id_unit()
                &&& final(self).data@[id].raw.size == data@.len()
                &&& final(self).data@[id].raw.bytes@ == data@
                &&& forall|j: int|
                    0 <= j < old(self).data@.len() && j != id ==> #[trigger] final(self).data@[j]
                        == old(self).data@[j]
            }),
    {
        let ghost id: int = if self.reuse_list@.len() > 0 {
            self.reuse_list@.last() as int
        } else {
            self.data@.len() as int
        };
        let size = data.len();
        let idx: usize = if self.reuse_list.len() > 0 {
            self.reuse_list[self.reuse_list.len() - 1]
        } else {
            self.data.len()
        };
        let vptr = self.alloc_heep(size, 0);
        assert(idx == id);
        let mut h = self.data.remove(idx);
        let mut k: usize = 0;
        while k < size
            invariant
                k <= size == data@.len(),
                h.raw.size == size,
                h.raw.bytes@.len() == size,
                forall|j: int| 0 <= j < k ==> h.raw.bytes@[j] == data@[j],
            decreases size - k,
        {
            h.raw.bytes.set(k, data[k]);
            k = k + 1;
        }
        proof {
            assert(h.raw.bytes@ =~= data@);
        }
        self.data.insert(idx, h);
        proof {
            assert forall|j: int|
                0 <= j < old(self).data@.len() && j != id implies #[trigger] self.data@[j]
                    == old(self).data@[j] by {
                if j < id {
                } else {
                }
            }
        }
        vptr
    }

    /// `len` bytes of the heap that `ptr` points into, from its offset on.
    pub fn read(&self, ptr: VPtr, len: usize) -> (r: Vec<u8>)
        requires
            id_of(ptr) < self.data@.len(),
            (off_of(ptr)) + len <= self.data@[id_of(ptr)].raw.bytes@.len(),
        ensures
            r@ == self.data@[id_of(ptr)].raw.bytes@.subrange(
                off_of(ptr),
                off_of(ptr) + len,
            ),
    {
        let id = ptr.heep_id();
        let off = ptr.offset();
        let bytes = &self.data[id].raw.bytes;
        assert(bytes@.len() == bytes.len());
        assert(off == off_of(ptr));
        let mut r: Vec<u8> = Vec::new();
        let mut k: usize = 0;
        while k < len
            invariant
                k <= len,
                off == off_of(ptr),
                bytes@ == self.data@[id_of(ptr)].raw.bytes@,
                off + len <= bytes@.len(),
                bytes@.len() <= usize::MAX,
                r@ == bytes@.subrange(off as int, off + k),
            decreases len - k,
        {
            r.push(bytes[off + k]);
            proof {
                assert(bytes@.subrange(off as int, off + k + 1) =~= bytes@.subrange(
                    off as int,
                    off + k,
                ).push(bytes@[off + k]));
            }
            k = k + 1;
        }
        r
    }

    /// Writes `src` into the heap that `ptr` points into, from its offset on.
    pub fn write(&mut self, ptr: VPtr, src: &[u8])
        requires
            id_of(ptr) < old(self).data@.len(),
            (off_of(ptr)) + src@.len() <= old(self).data@[id_of(ptr)].raw.bytes@.len(),
        ensures
            final(self).reuse_list@ == old(self).reuse_list@,
            final(self).data@.len() == old(self).data@.len(),
            final(self).data@[id_of(ptr)].raw.size == old(self).data@[id_of(ptr)].raw.size,
            final(self).data@[id_of(ptr)].raw.bytes@ == old(self).data@[id_of(ptr)].raw.bytes@.subrange(0, off_of(ptr)) + src@ + old(self).data@[id_of(ptr)].raw.bytes@.subrange(
                off_of(ptr) + src@.len(),
                old(self).data@[id_of(ptr)].raw.bytes@.len() as int,
            ),
            forall|j: int|
                0 <= j < old(self).data@.len() && j != id_of(ptr) ==> #[trigger] final(self).data@[j] == old(self).data@[j],
    {
        let id = ptr.heep_id();
        let off = ptr.offset();
        let mut h = self.data.remove(id);
        let ghost b0 = h.raw.bytes@;
        let ghost size0 = h.raw.size;
        assert(b0.len() == h.raw.bytes.len());
        assert(off == off_of(ptr));
        let mut k: usize = 0;
        while k < src.len()
            invariant
                k <= src@.len(),
                off == off_of(ptr),
                off + src@.len() <= b0.len(),
                h.raw.bytes@.len() == b0.len(),
                h.raw.size == size0,
                b0.len() <= usize::MAX,
                forall|j: int|
                    0 <= j < b0.len() ==> #[trigger] h.raw.bytes@[j] == if off <= j < off + k {
                        src@[j - off]
                    } else {
                        b0[j]
                    },
            decreases src@.len() - k,
        {
            h.raw.bytes.set(off + k, src[k]);
            k = k + 1;
        }
        proof {
            assert(h.raw.bytes@ =~= b0.subrange(0, off as int) + src@ + b0.subrange(
                off + src@.len(),
                b0.len() as int,
            ));
        }
        self.data.insert(id, h);
        proof {
            assert forall|j: int|
                0 <= j < old(self).data@.len() && j != id implies #[trigger] self.data@[j]
                    == old(self).data@[j] by {
                if j < id {
                } else {
                }
            }
        }
    }
}

impl DefaultMemoryManager {
    /// `len` bytes of heap `id`, from `pos` on.
    pub fn read_at(&self, id: usize, pos: usize, len: usize) -> (r: Vec<u8>)
        requires
            id < self.data@.len(),
            pos + len <= self.data@[id as int].raw.bytes@.len(),
        ensures
            r@ == self.data@[id as int].raw.bytes@.subrange(pos as int, pos + len),
    {
        let bytes = &self.data[id].raw.bytes;
        assert(bytes@.len() == bytes.len());
        let mut r: Vec<u8> = Vec::new();
        let mut k: usize = 0;
        while k < len
            invariant
                k <= len,
                bytes@ == self.data@[id as int].raw.bytes@,
                pos + len <= bytes@.len(),
                bytes@.len() <= usize::MAX,
                r@ == bytes@.subrange(pos as int, pos + k),
            decreases len - k,
        {
            r.push(bytes[pos + k]);
            proof {
                assert(bytes@.subrange(pos as int, pos + k + 1) =~= bytes@.subrange(
                    pos as int,
                    pos + k,
                ).push(bytes@[pos + k]));
            }
            k = k + 1;
        }
        r
    }

    /// Writes `src` into heap `id` from `pos` on.
    pub fn write_at(&mut self, id: usize, pos: usize, src: &[u8])
        requires
            id < old(self).data@.len(),
            pos + src@.len() <= old(self).data@[id as int].raw.bytes@.len(),
        ensures
            final(self).reuse_list@ == old(self).reuse_list@,
            final(self).data@.len() == old(self).data@.len(),
            final(self).data@[id as int].raw.size == old(self).data@[id as int].raw.size,
            final(self).data@[id as int].raw.bytes@ == old(self).data@[id as int].raw.bytes@.subrange(0, pos as int) + src@
                + old(self).data@[id as int].raw.bytes@.subrange(
                pos + src@.len(),
                old(self).data@[id as int].raw.bytes@.len() as int,
            ),
            forall|j: int|
                0 <= j < old(self).data@.len() && j != id ==> #[trigger] final(self).data@[j] == old(self).data@[j],
    {
        let mut h = self.data.remove(id);
        let ghost b0 = h.raw.bytes@;
        let ghost size0 = h.raw.size;
        assert(b0.len() == h.raw.bytes.len());
        let mut k: usize = 0;
        while k < src.len()
            invariant
                k <= src@.len(),
                pos + src@.len() <= b0.len(),
                b0.len() <= usize::MAX,
                h.raw.bytes@.len() == b0.len(),
                h.raw.size == size0,
                forall|j: int|
                    0 <= j < b0.len() ==> #[trigger] h.raw.bytes@[j] == if pos <= j < pos + k {
                        src@[j - pos]
                    } else {
                        b0[j]
                    },
            decreases src@.len() - k,
        {
            h.raw.bytes.set(pos + k, src[k]);
            k = k + 1;
        }
        proof {
            assert(h.raw.bytes@ =~= b0.subrange(0, pos as int) + src@ + b0.subrange(
                pos + src@.len(),
                b0.len() as int,
            ));
        }
        self.data.insert(id, h);
        proof {
            assert forall|j: int|
                0 <= j < old(self).data@.len() && j != id implies #[trigger] self.data@[j]
                    == old(self).data@[j] by {
                if j < id {
                } else {
                }
            }
        }
    }
}

pub proof fn lemma_sizes_upto_mono(h: Seq<Heep>, a: int, b: int)
    requires
        0 <= a <= b <= h.len(),
    ensures
        sizes_upto(h, a) <= sizes_upto(h, b),
    decreases b - a,
{
    if a < b {
        lemma_sizes_upto_mono(h, a, b - 1);
    }
}

/// What `read` gives back after a `write` at the same pointer is what was
/// written.
pub proof fn law_read_after_write(before: Seq<Heep>, after: Seq<Heep>, ptr: VPtr, src: Seq<u8>)
    requires
        id_of(ptr) < before.len(),
        off_of(ptr) + src.len() <= before[id_of(ptr)].raw.bytes@.len(),
        after[id_of(ptr)].raw.bytes@ == before[id_of(ptr)].raw.bytes@.subrange(0, off_of(ptr)) + src
            + before[id_of(ptr)].raw.bytes@.subrange(
            off_of(ptr) + src.len(),
            before[id_of(ptr)].raw.bytes@.len() as int,
        ),
    ensures
        after[id_of(ptr)].raw.bytes@.subrange(off_of(ptr), off_of(ptr) + src.len()) == src,
{
    assert(after[id_of(ptr)].raw.bytes@.subrange(off_of(ptr), off_of(ptr) + src.len()) =~= src);
}

} // verus!
