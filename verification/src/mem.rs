//! Byte-level memory model: a store of allocations, each a vector of
//! abstract bytes.  A byte is uninitialized, an initialized data byte, or
//! one fragment of a pointer (so pointer values round-trip through memory
//! without inventing an integer address for them).  Scalars are encoded
//! little-endian.

use vstd::prelude::*;

verus! {

/// Width in bytes of a pointer on the modeled target.
pub const PTR_SIZE: usize = 8;

/// A location inside the store: which allocation, and the byte offset in it.
#[derive(Clone, Copy, PartialEq, Eq, Structural, Debug)]
pub struct Pointer {
    pub alloc: usize,
    pub offset: usize,
}

/// One abstract byte of memory.
#[derive(Clone, Copy, PartialEq, Eq, Structural, Debug)]
pub enum MemByte {
    Uninit,
    Init(u8),
    /// Byte `idx` (0-based, little end first) of the pointer `ptr`.
    PtrFrag(Pointer, usize),
}

/// A value of at most eight bytes held directly: an integer of a given byte
/// width, or a pointer.
#[derive(Clone, Copy, PartialEq, Eq, Structural, Debug)]
pub enum Scalar {
    Int { val: u64, size: usize },
    Ptr(Pointer),
}

/// A value held without a backing memory location: one scalar, or a pair of
/// scalars (such as a wide pointer, or an arithmetic result with its
/// overflow flag).
#[derive(Clone, Copy, PartialEq, Eq, Structural, Debug)]
pub enum Immediate {
    Scalar(Scalar),
    ScalarPair(Scalar, Scalar),
}

pub open spec fn pow256(n: nat) -> nat
    decreases n,
{
    if n == 0 {
        1
    } else {
        256 * pow256((n - 1) as nat)
    }
}

/// The little-endian byte string of length `size` for the value `val`
/// (higher bytes of `val` beyond `size` are dropped).
pub open spec fn le_bytes(val: nat, size: nat) -> Seq<u8>
    decreases size,
{
    if size == 0 {
        Seq::empty()
    } else {
        seq![(val % 256) as u8] + le_bytes(val / 256, (size - 1) as nat)
    }
}

/// The value of a little-endian byte string.
pub open spec fn le_decode(b: Seq<u8>) -> nat
    decreases b.len(),
{
    if b.len() == 0 {
        0
    } else {
        (b[0] as nat) + 256 * le_decode(b.drop_first())
    }
}

pub proof fn lemma_pow256_mono(a: nat, b: nat)
    requires
        a <= b,
    ensures
        pow256(a) <= pow256(b),
    decreases b,
{
    if a < b {
        lemma_pow256_mono(a, (b - 1) as nat);
    }
}

pub proof fn lemma_le_decode_bound(b: Seq<u8>)
    ensures
        le_decode(b) < pow256(b.len()),
    decreases b.len(),
{
    if b.len() > 0 {
        lemma_le_decode_bound(b.drop_first());
    }
}

pub proof fn lemma_le_bytes_len(val: nat, size: nat)
    ensures
        le_bytes(val, size).len() == size,
    decreases size,
{
    if size > 0 {
        lemma_le_bytes_len(val / 256, (size - 1) as nat);
    }
}

pub proof fn lemma_scalar_enc_len(s: Scalar)
    ensures
        scalar_enc(s).len() == scalar_size(s),
{
    match s {
        Scalar::Int { val, size } => {
            lemma_le_bytes_len(val as nat, size as nat);
        },
        Scalar::Ptr(_) => {
        },
    }
}

pub open spec fn uninit_seq(size: nat) -> Seq<MemByte> {
    Seq::new(size, |j: int| MemByte::Uninit)
}

pub open spec fn init_enc(bytes: Seq<u8>) -> Seq<MemByte> {
    Seq::new(bytes.len(), |j: int| MemByte::Init(bytes[j]))
}

pub open spec fn ptr_enc(p: Pointer) -> Seq<MemByte> {
    Seq::new(PTR_SIZE as nat, |j: int| MemByte::PtrFrag(p, j as usize))
}

/// How a scalar is laid down in memory.
pub open spec fn scalar_enc(s: Scalar) -> Seq<MemByte> {
    match s {
        Scalar::Int { val, size } => init_enc(le_bytes(val as nat, size as nat)),
        Scalar::Ptr(p) => ptr_enc(p),
    }
}

/// The byte width a scalar occupies.
pub open spec fn scalar_size(s: Scalar) -> nat {
    match s {
        Scalar::Int { size, .. } => size as nat,
        Scalar::Ptr(_) => PTR_SIZE as nat,
    }
}

/// A scalar the engine can store: integers are at most eight bytes wide and
/// canonical (no set bits beyond their width).
pub open spec fn scalar_wf(s: Scalar) -> bool {
    match s {
        Scalar::Int { val, size } => size <= 8 && (val as nat) < pow256(size as nat),
        Scalar::Ptr(_) => true,
    }
}

pub open spec fn all_init(b: Seq<MemByte>) -> bool {
    forall|j: int| 0 <= j < b.len() ==> b[j] is Init
}

pub open spec fn byte_val(b: MemByte) -> u8 {
    match b {
        MemByte::Init(v) => v,
        _ => 0,
    }
}

pub open spec fn init_vals(b: Seq<MemByte>) -> Seq<u8> {
    Seq::new(b.len(), |j: int| byte_val(b[j]))
}

/// `b` is exactly the memory image of the pointer `p`.
pub open spec fn ptr_bytes_for(b: Seq<MemByte>, p: Pointer) -> bool {
    b.len() == PTR_SIZE && (forall|j: int|
        0 <= j < b.len() ==> b[j] == MemByte::PtrFrag(p, j as usize))
}

pub open spec fn is_ptr_bytes(b: Seq<MemByte>) -> bool {
    exists|p: Pointer| ptr_bytes_for(b, p)
}

/// A byte string is the image of at most one pointer (its first fragment
/// names it).
pub proof fn lemma_ptr_bytes_unique(b: Seq<MemByte>, p: Pointer, q: Pointer)
    requires
        ptr_bytes_for(b, p),
        ptr_bytes_for(b, q),
    ensures
        p == q,
{
    assert(b[0] == MemByte::PtrFrag(p, 0usize));
    assert(b[0] == MemByte::PtrFrag(q, 0usize));
}

/// The byte strings from which a scalar can be read back.
pub open spec fn scalar_decodable(b: Seq<MemByte>) -> bool {
    all_init(b) || is_ptr_bytes(b)
}

pub struct Allocation {
    pub bytes: Vec<MemByte>,
}

/// The whole store: allocations are never freed, so indices stay stable.
pub struct Memory {
    pub allocs: Vec<Allocation>,
}

impl View for Memory {
    type V = Seq<Seq<MemByte>>;

    open spec fn view(&self) -> Seq<Seq<MemByte>> {
        Seq::new(self.allocs@.len(), |i: int| self.allocs@[i].bytes@)
    }
}

/// `size` bytes starting at `p` lie inside one allocation of `m`.
pub open spec fn range_ok(m: Seq<Seq<MemByte>>, p: Pointer, size: nat) -> bool {
    p.alloc < m.len() && p.offset + size <= m[p.alloc as int].len()
}

pub open spec fn bytes_at(m: Seq<Seq<MemByte>>, p: Pointer, size: nat) -> Seq<MemByte> {
    m[p.alloc as int].subrange(p.offset as int, p.offset + size)
}

pub open spec fn splice(s: Seq<MemByte>, off: int, data: Seq<MemByte>) -> Seq<MemByte> {
    s.subrange(0, off) + data + s.subrange(off + data.len(), s.len() as int)
}

/// The store after writing `data` at `p`.
pub open spec fn store_at(m: Seq<Seq<MemByte>>, p: Pointer, data: Seq<MemByte>) -> Seq<
    Seq<MemByte>,
> {
    m.update(p.alloc as int, splice(m[p.alloc as int], p.offset as int, data))
}

/// `m1` agrees with `m0` everywhere outside the `size` bytes at `p`, and has
/// the same shape.
pub open spec fn same_outside(
    m0: Seq<Seq<MemByte>>,
    m1: Seq<Seq<MemByte>>,
    p: Pointer,
    size: nat,
) -> bool {
    &&& m1.len() == m0.len()
    &&& forall|a: int| 0 <= a < m0.len() && a != p.alloc ==> m1[a] == m0[a]
    &&& p.alloc < m0.len() ==> m1[p.alloc as int].len() == m0[p.alloc as int].len()
    &&& p.alloc < m0.len() ==> (forall|j: int|
        0 <= j < m0[p.alloc as int].len() && !(p.offset <= j < p.offset + size)
            ==> m1[p.alloc as int][j] == m0[p.alloc as int][j])
}

pub proof fn lemma_same_outside_trans(
    m0: Seq<Seq<MemByte>>,
    m1: Seq<Seq<MemByte>>,
    m2: Seq<Seq<MemByte>>,
    p: Pointer,
    size: nat,
)
    requires
        same_outside(m0, m1, p, size),
        same_outside(m1, m2, p, size),
    ensures
        same_outside(m0, m2, p, size),
{
}

/// Agreement outside a subrange implies agreement outside any enclosing
/// range.
pub proof fn lemma_same_outside_widen(
    m0: Seq<Seq<MemByte>>,
    m1: Seq<Seq<MemByte>>,
    q: Pointer,
    qsize: nat,
    p: Pointer,
    size: nat,
)
    requires
        same_outside(m0, m1, q, qsize),
        q.alloc == p.alloc,
        p.offset <= q.offset,
        q.offset + qsize <= p.offset + size,
    ensures
        same_outside(m0, m1, p, size),
{
}

/// Pointwise reading of `store_at`: the written range holds `data`, every
/// other byte (and every other allocation) is as before.
pub proof fn lemma_store_effect(m: Seq<Seq<MemByte>>, p: Pointer, data: Seq<MemByte>)
    requires
        range_ok(m, p, data.len()),
    ensures
        store_at(m, p, data).len() == m.len(),
        forall|a: int| 0 <= a < m.len() && a != p.alloc ==> store_at(m, p, data)[a] == m[a],
        store_at(m, p, data)[p.alloc as int].len() == m[p.alloc as int].len(),
        forall|j: int|
            0 <= j < m[p.alloc as int].len() ==> store_at(m, p, data)[p.alloc as int][j] == (
            if p.offset <= j < p.offset + data.len() {
                data[j - p.offset]
            } else {
                m[p.alloc as int][j]
            }),
        same_outside(m, store_at(m, p, data), p, data.len()),
        bytes_at(store_at(m, p, data), p, data.len()) == data,
{
    let s = splice(m[p.alloc as int], p.offset as int, data);
    assert(s.len() == m[p.alloc as int].len());
    assert forall|j: int| 0 <= j < m[p.alloc as int].len() implies s[j] == (if p.offset <= j
        < p.offset + data.len() {
        data[j - p.offset]
    } else {
        m[p.alloc as int][j]
    }) by {
        if j < p.offset {
        } else if j < p.offset + data.len() {
        } else {
        }
    }
    assert(bytes_at(store_at(m, p, data), p, data.len()) =~= data);
}

pub(crate) fn vec_index_mut<T>(v: &mut Vec<T>, i: usize) -> (element: &mut T)
    requires
        i < old(v).len(),
    ensures
        *element == old(v)@[i as int],
        final(v)@ == old(v)@.update(i as int, *final(element)),
{
    &mut v[i]
}

impl Memory {
    pub fn new() -> (r: Memory)
        ensures
            r@.len() == 0,
    {
        Memory { allocs: Vec::new() }
    }

    /// Create a fresh allocation of `size` uninitialized bytes; its index is
    /// returned and is one past the previous highest.
    pub fn allocate(&mut self, size: usize) -> (id: usize)
        ensures
            id == old(self)@.len(),
            final(self)@.len() == old(self)@.len() + 1,
            final(self)@[id as int] == uninit_seq(size as nat),
            forall|a: int| 0 <= a < old(self)@.len() ==> final(self)@[a] == old(self)@[a],
    {
        let mut bytes: Vec<MemByte> = Vec::new();
        let mut j: usize = 0;
        while j < size
            invariant
                j <= size,
                bytes@.len() == j as nat,
                forall|k: int| 0 <= k < j ==> bytes@[k] == MemByte::Uninit,
            decreases size - j,
        {
            bytes.push(MemByte::Uninit);
            j += 1;
        }
        proof {
            assert(bytes@ =~= uninit_seq(size as nat));
        }
        let id = self.allocs.len();
        self.allocs.push(Allocation { bytes });
        id
    }

    pub fn check_range(&self, p: Pointer, size: usize) -> (b: bool)
        ensures
            b == range_ok(self@, p, size as nat),
    {
        if p.alloc < self.allocs.len() {
            let len = self.allocs[p.alloc].bytes.len();
            size <= len && p.offset <= len - size
        } else {
            false
        }
    }

    pub fn read_bytes(&self, p: Pointer, size: usize) -> (r: Vec<MemByte>)
        requires
            range_ok(self@, p, size as nat),
        ensures
            r@ == bytes_at(self@, p, size as nat),
    {
        let mut r: Vec<MemByte> = Vec::new();
        let alen = self.allocs[p.alloc].bytes.len();
        proof {
            assert(alen == self@[p.alloc as int].len());
        }
        let mut j: usize = 0;
        while j < size
            invariant
                j <= size,
                range_ok(self@, p, size as nat),
                p.offset + size <= alen,
                r@.len() == j as nat,
                forall|k: int| 0 <= k < j ==> r@[k] == self@[p.alloc as int][p.offset + k],
            decreases size - j,
        {
            r.push(self.allocs[p.alloc].bytes[p.offset + j]);
            j += 1;
        }
        proof {
            assert(r@ =~= bytes_at(self@, p, size as nat));
        }
        r
    }

    pub fn write_bytes(&mut self, p: Pointer, data: &Vec<MemByte>)
        requires
            range_ok(old(self)@, p, data@.len()),
        ensures
            final(self)@ == store_at(old(self)@, p, data@),
    {
        let ghost m0 = self@;
        let a_ref = vec_index_mut(&mut self.allocs, p.alloc);
        let blen = a_ref.bytes.len();
        let mut j: usize = 0;
        while j < data.len()
            invariant
                j <= data@.len(),
                p.alloc < m0.len(),
                blen == a_ref.bytes@.len(),
                p.offset + data@.len() <= blen,
                a_ref.bytes@.len() == m0[p.alloc as int].len(),
                forall|k: int|
                    0 <= k < a_ref.bytes@.len() && !(p.offset <= k < p.offset + j)
                        ==> a_ref.bytes@[k] == m0[p.alloc as int][k],
                forall|k: int| 0 <= k < j ==> a_ref.bytes@[p.offset + k] == data@[k],
            decreases data@.len() - j,
        {
            a_ref.bytes[p.offset + j] = data[j];
            j += 1;
        }
        proof {
            assert(a_ref.bytes@ =~= splice(m0[p.alloc as int], p.offset as int, data@));
        }
        proof {
            assert(self@ =~= store_at(m0, p, data@));
        }
    }

    /// Mark `size` bytes at `p` uninitialized.
    pub fn deinit_range(&mut self, p: Pointer, size: usize)
        requires
            range_ok(old(self)@, p, size as nat),
        ensures
            final(self)@ == store_at(old(self)@, p, uninit_seq(size as nat)),
    {
        let mut data: Vec<MemByte> = Vec::new();
        let mut j: usize = 0;
        while j < size
            invariant
                j <= size,
                data@.len() == j as nat,
                forall|k: int| 0 <= k < j ==> data@[k] == MemByte::Uninit,
            decreases size - j,
        {
            data.push(MemByte::Uninit);
            j += 1;
        }
        proof {
            assert(data@ =~= uninit_seq(size as nat));
        }
        self.write_bytes(p, &data);
    }

    /// Copy `size` bytes from `src` to `dst`, byte-identically (uninitialized
    /// bytes and pointer fragments travel as they are).
    pub fn copy_within(&mut self, src: Pointer, dst: Pointer, size: usize)
        requires
            range_ok(old(self)@, src, size as nat),
            range_ok(old(self)@, dst, size as nat),
        ensures
            final(self)@ == store_at(old(self)@, dst, bytes_at(old(self)@, src, size as nat)),
    {
        let data = self.read_bytes(src, size);
        self.write_bytes(dst, &data);
    }

    /// Write the memory image of a scalar at `p`.
    pub fn write_scalar(&mut self, p: Pointer, s: Scalar)
        requires
            range_ok(old(self)@, p, scalar_size(s)),
            scalar_wf(s),
        ensures
            final(self)@ == store_at(old(self)@, p, scalar_enc(s)),
    {
        match s {
            Scalar::Int { val, size } => {
                let mut data: Vec<MemByte> = Vec::new();
                let mut q: u64 = val;
                let mut j: usize = 0;
                while j < size
                    invariant
                        j <= size,
                        data@.len() == j as nat,
                        init_enc(le_bytes(val as nat, size as nat)) =~= data@ + init_enc(
                            le_bytes(q as nat, (size - j) as nat),
                        ),
                    decreases size - j,
                {
                    let ghost q0 = q as nat;
                    let ghost rem = (size - j) as nat;
                    let b = (q % 256) as u8;
                    data.push(MemByte::Init(b));
                    q = q / 256;
                    proof {
                        assert(le_bytes(q0, rem) =~= seq![(q0 % 256) as u8] + le_bytes(
                            q0 / 256,
                            (rem - 1) as nat,
                        ));
                        assert(init_enc(le_bytes(val as nat, size as nat)) =~= data@ + init_enc(
                            le_bytes(q as nat, (size - j - 1) as nat),
                        ));
                    }
                    j += 1;
                }
                proof {
                    assert(data@ =~= scalar_enc(s));
                }
                self.write_bytes(p, &data);
            },
            Scalar::Ptr(q) => {
                let mut data: Vec<MemByte> = Vec::new();
                let mut j: usize = 0;
                while j < PTR_SIZE
                    invariant
                        j <= PTR_SIZE,
                        data@.len() == j as nat,
                        forall|k: int| 0 <= k < j ==> data@[k] == MemByte::PtrFrag(q, k as usize),
                    decreases PTR_SIZE - j,
                {
                    data.push(MemByte::PtrFrag(q, j));
                    j += 1;
                }
                proof {
                    assert(data@ =~= scalar_enc(s));
                }
                self.write_bytes(p, &data);
            },
        }
    }

    /// Read `size` bytes at `p` back as a scalar.  `None` when the bytes are
    /// not the image of any scalar (some byte uninitialized, or a torn or
    /// mixed pointer image): reading such bytes as a value is a validity
    /// violation the caller reports.
    pub fn read_scalar(&self, p: Pointer, size: usize) -> (r: Option<Scalar>)
        requires
            range_ok(self@, p, size as nat),
            size <= 8,
        ensures
            (r is Some) == scalar_decodable(bytes_at(self@, p, size as nat)),
            all_init(bytes_at(self@, p, size as nat)) ==> r == Some(
                Scalar::Int {
                    val: le_decode(init_vals(bytes_at(self@, p, size as nat))) as u64,
                    size,
                },
            ),
            is_ptr_bytes(bytes_at(self@, p, size as nat)) ==> (r matches Some(s) && s matches
                Scalar::Ptr(q) && ptr_bytes_for(bytes_at(self@, p, size as nat), q)),
            r matches Some(s) ==> scalar_wf(s) && scalar_size(s) == size as nat,
    {
        let ghost b = bytes_at(self@, p, size as nat);
        if size == 0 {
            proof {
                assert(b.len() == 0);
                assert(all_init(b));
                assert(forall|q: Pointer| !ptr_bytes_for(b, q));
                assert(init_vals(b) =~= Seq::<u8>::empty());
                assert(le_decode(init_vals(b)) == 0);
            }
            return Some(Scalar::Int { val: 0, size: 0 });
        }
        let alen = self.allocs[p.alloc].bytes.len();
        proof {
            assert(alen == self@[p.alloc as int].len());
        }
        let first = self.allocs[p.alloc].bytes[p.offset];
        proof {
            assert(b[0] == first);
        }
        match first {
            MemByte::Uninit => {
                proof {
                    assert(!all_init(b));
                    assert(forall|q: Pointer| !ptr_bytes_for(b, q)) by {
                        assert(b[0] is Uninit);
                    }
                }
                None
            },
            MemByte::Init(_) => {
                // Collect the data bytes; any non-data byte refutes both
                // decodings.
                let mut vals: Vec<u8> = Vec::new();
                let mut j: usize = 0;
                while j < size
                    invariant
                        j <= size,
                        size <= 8,
                        range_ok(self@, p, size as nat),
                        p.offset + size <= alen,
                        b == bytes_at(self@, p, size as nat),
                        b[0] is Init,
                        vals@.len() == j as nat,
                        forall|k: int| 0 <= k < j ==> b[k] is Init,
                        forall|k: int| 0 <= k < j ==> vals@[k] == byte_val(b[k]),
                    decreases size - j,
                {
                    match self.allocs[p.alloc].bytes[p.offset + j] {
                        MemByte::Init(v) => {
                            vals.push(v);
                        },
                        _ => {
                            proof {
                                assert(!(b[j as int] is Init));
                                assert(!all_init(b));
                                assert(forall|q: Pointer| !ptr_bytes_for(b, q)) by {
                                    assert(b[0] is Init);
                                }
                            }
                            return None;
                        },
                    }
                    j += 1;
                }
                proof {
                    assert(all_init(b));
                    assert(vals@ =~= init_vals(b));
                }
                // Little-endian reassembly, highest byte first.
                let mut val: u64 = 0;
                let mut k: usize = size;
                proof {
                    assert(vals@.subrange(size as int, size as int) =~= Seq::<u8>::empty());
                }
                while k > 0
                    invariant
                        k <= size,
                        size <= 8,
                        vals@.len() == size as nat,
                        val as nat == le_decode(vals@.subrange(k as int, size as int)),
                        (val as nat) < pow256((size - k) as nat),
                    decreases k,
                {
                    k -= 1;
                    let ghost tail = vals@.subrange(k + 1, size as int);
                    let ghost whole = vals@.subrange(k as int, size as int);
                    proof {
                        assert(whole.drop_first() =~= tail);
                        assert(le_decode(whole) == (vals@[k as int] as nat) + 256 * le_decode(
                            tail,
                        ));
                        assert(pow256(((size - k) as nat)) == 256 * pow256((size - k - 1) as nat));
                        lemma_pow256_mono((size - k) as nat, 8);
                        assert(pow256(8) == 0x1_0000_0000_0000_0000) by {
                            reveal_with_fuel(pow256, 9);
                        }
                    }
                    val = val * 256 + (vals[k] as u64);
                }
                proof {
                    assert(vals@.subrange(0, size as int) =~= vals@);
                    assert(val as nat == le_decode(init_vals(b)));
                }
                Some(Scalar::Int { val, size })
            },
            MemByte::PtrFrag(q, i0) => {
                if size != PTR_SIZE || i0 != 0 {
                    proof {
                        assert(!all_init(b)) by {
                            assert(!(b[0] is Init));
                        }
                        assert(forall|q2: Pointer| !ptr_bytes_for(b, q2)) by {
                            assert(b[0] == MemByte::PtrFrag(q, i0));
                        }
                    }
                    return None;
                }
                let mut j: usize = 1;
                while j < PTR_SIZE
                    invariant
                        1 <= j <= PTR_SIZE,
                        size == PTR_SIZE,
                        range_ok(self@, p, size as nat),
                        p.offset + size <= alen,
                        b == bytes_at(self@, p, size as nat),
                        b[0] == MemByte::PtrFrag(q, 0usize),
                        forall|k: int| 0 <= k < j ==> b[k] == MemByte::PtrFrag(q, k as usize),
                    decreases PTR_SIZE - j,
                {
                    let cur = self.allocs[p.alloc].bytes[p.offset + j];
                    let expect = MemByte::PtrFrag(q, j);
                    if !(cur == expect) {
                        proof {
                            assert(b[j as int] != MemByte::PtrFrag(q, j as usize));
                            assert(!all_init(b)) by {
                                assert(!(b[0] is Init));
                            }
                            assert(forall|q2: Pointer| !ptr_bytes_for(b, q2)) by {
                                assert(b[0] == MemByte::PtrFrag(q, 0usize));
                            }
                        }
                        return None;
                    }
                    j += 1;
                }
                proof {
                    assert(ptr_bytes_for(b, q));
                }
                Some(Scalar::Ptr(q))
            },
        }
    }
}

} // verus!
