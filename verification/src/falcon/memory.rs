//! Byte-addressed memories: the little-endian [`Ram`] the emulator runs on
//! (behind the [`Bus`] interface) and the fixed-size big-endian [`Memory`].
use vstd::prelude::*;
use crate::falcon::errors::FalconError;

verus! {

// ---------- byte-level specifications ----------

/// Whether `n` bytes starting at `addr` lie inside a memory of `len` bytes.
pub open spec fn in_bounds(len: nat, addr: u32, n: nat) -> bool {
    addr as int + n <= len
}

/// `m` with the bytes of `bs` written from index `addr` on, as far as they fit.
pub open spec fn write_at(m: Seq<u8>, addr: int, bs: Seq<u8>) -> Seq<u8> {
    Seq::new(m.len(), |i: int| if addr <= i < addr + bs.len() { bs[i - addr] } else { m[i] })
}

/// Little-endian value of two bytes.
pub open spec fn le16(b0: u8, b1: u8) -> u16 {
    (b0 as u16) | ((b1 as u16) << 8u16)
}

/// Little-endian value of four bytes.
pub open spec fn le32(b0: u8, b1: u8, b2: u8, b3: u8) -> u32 {
    (b0 as u32) | ((b1 as u32) << 8u32) | ((b2 as u32) << 16u32) | ((b3 as u32) << 24u32)
}

/// Little-endian bytes of a half word.
pub open spec fn le_bytes16(v: u16) -> Seq<u8> {
    seq![(v & 0xff) as u8, (v >> 8u16) as u8]
}

/// Little-endian bytes of a word.
pub open spec fn le_bytes32(v: u32) -> Seq<u8> {
    seq![(v & 0xff) as u8, ((v >> 8u32) & 0xff) as u8, ((v >> 16u32) & 0xff) as u8, (v >> 24u32) as u8]
}

/// Big-endian value of four bytes.
pub open spec fn be32(b0: u8, b1: u8, b2: u8, b3: u8) -> u32 {
    ((b0 as u32) << 24u32) | ((b1 as u32) << 16u32) | ((b2 as u32) << 8u32) | (b3 as u32)
}

/// Big-endian bytes of a word.
pub open spec fn be_bytes32(v: u32) -> Seq<u8> {
    seq![(v >> 24u32) as u8, ((v >> 16u32) & 0xff) as u8, ((v >> 8u32) & 0xff) as u8, (v & 0xff) as u8]
}

/// Big-endian value of eight bytes.
pub open spec fn be64(m: Seq<u8>, p: int) -> u64 {
    ((m[p] as u64) << 56u64) | ((m[p + 1] as u64) << 48u64) | ((m[p + 2] as u64) << 40u64) | ((
    m[p + 3] as u64) << 32u64) | ((m[p + 4] as u64) << 24u64) | ((m[p + 5] as u64) << 16u64) | ((
    m[p + 6] as u64) << 8u64) | (m[p + 7] as u64)
}

/// Big-endian bytes of a double word.
pub open spec fn be_bytes64(v: u64) -> Seq<u8> {
    seq![
        (v >> 56u64) as u8,
        ((v >> 48u64) & 0xff) as u8,
        ((v >> 40u64) & 0xff) as u8,
        ((v >> 32u64) & 0xff) as u8,
        ((v >> 24u64) & 0xff) as u8,
        ((v >> 16u64) & 0xff) as u8,
        ((v >> 8u64) & 0xff) as u8,
        (v & 0xff) as u8,
    ]
}

pub open spec fn oob(addr: u32, size: u32) -> FalconError {
    FalconError::OutOfBounds { addr, size }
}

/// Result of loading a byte at `addr`.
pub open spec fn load8_spec(m: Seq<u8>, addr: u32) -> Result<u8, FalconError> {
    if in_bounds(m.len(), addr, 1) {
        Ok(m[addr as int])
    } else {
        Err(oob(addr, 1))
    }
}

/// Result of loading a little-endian half word at `addr`.
pub open spec fn load16_spec(m: Seq<u8>, addr: u32) -> Result<u16, FalconError> {
    if in_bounds(m.len(), addr, 2) {
        Ok(le16(m[addr as int], m[addr + 1]))
    } else {
        Err(oob(addr, 2))
    }
}

/// Result of loading a little-endian word at `addr`.
pub open spec fn load32_spec(m: Seq<u8>, addr: u32) -> Result<u32, FalconError> {
    if in_bounds(m.len(), addr, 4) {
        Ok(le32(m[addr as int], m[addr + 1], m[addr + 2], m[addr + 3]))
    } else {
        Err(oob(addr, 4))
    }
}

/// Memory after storing `bs` at `addr`, or the fault when they do not fit
/// (in which case nothing is written).
pub open spec fn store_spec(m: Seq<u8>, addr: u32, bs: Seq<u8>) -> Result<Seq<u8>, FalconError> {
    if in_bounds(m.len(), addr, bs.len()) {
        Ok(write_at(m, addr as int, bs))
    } else {
        Err(oob(addr, bs.len() as u32))
    }
}

// ---------- the bus ----------

/// A byte-addressed memory the emulator loads from and stores to.
/// Accesses are little-endian; an access that reaches past the end faults
/// and leaves memory unchanged.
pub trait Bus {
    /// The bytes of this memory.
    spec fn bytes(&self) -> Seq<u8>;

    /// Size in bytes; every byte has a 32-bit address.
    fn size(&self) -> (n: usize)
        ensures
            n == self.bytes().len(),
            n <= u32::MAX,
    ;

    fn load8(&self, addr: u32) -> (r: Result<u8, FalconError>)
        ensures
            r == load8_spec(self.bytes(), addr),
    ;

    fn load16(&self, addr: u32) -> (r: Result<u16, FalconError>)
        ensures
            r == load16_spec(self.bytes(), addr),
    ;

    fn load32(&self, addr: u32) -> (r: Result<u32, FalconError>)
        ensures
            r == load32_spec(self.bytes(), addr),
    ;

    fn store8(&mut self, addr: u32, v: u8) -> (r: Result<(), FalconError>)
        ensures
            match store_spec(old(self).bytes(), addr, seq![v]) {
                Ok(m) => r == Ok::<(), FalconError>(()) && final(self).bytes() == m,
                Err(e) => r == Err::<(), FalconError>(e) && final(self).bytes() == old(self).bytes(),
            },
    ;

    fn store16(&mut self, addr: u32, v: u16) -> (r: Result<(), FalconError>)
        ensures
            match store_spec(old(self).bytes(), addr, le_bytes16(v)) {
                Ok(m) => r == Ok::<(), FalconError>(()) && final(self).bytes() == m,
                Err(e) => r == Err::<(), FalconError>(e) && final(self).bytes() == old(self).bytes(),
            },
    ;

    fn store32(&mut self, addr: u32, v: u32) -> (r: Result<(), FalconError>)
        ensures
            match store_spec(old(self).bytes(), addr, le_bytes32(v)) {
                Ok(m) => r == Ok::<(), FalconError>(()) && final(self).bytes() == m,
                Err(e) => r == Err::<(), FalconError>(e) && final(self).bytes() == old(self).bytes(),
            },
    ;
}

/// Zero-initialised RAM of a fixed size.
pub struct Ram {
    data: Vec<u8>,
}

impl Ram {
    #[verifier::type_invariant]
    spec fn addressable(self) -> bool {
        self.data@.len() <= u32::MAX
    }

    pub closed spec fn contents(&self) -> Seq<u8> {
        self.data@
    }

    /// A RAM of `size` zero bytes.
    pub fn new(size: usize) -> (r: Ram)
        requires
            size <= u32::MAX,
        ensures
            r.contents() == Seq::new(size as nat, |i: int| 0u8),
    {
        let mut data: Vec<u8> = Vec::with_capacity(size);
        let mut i: usize = 0;
        while i < size
            invariant
                i <= size,
                data@ == Seq::new(i as nat, |j: int| 0u8),
            decreases size - i,
        {
            data.push(0);
            i += 1;
        }
        Ram { data }
    }

    /// Size in bytes.
    pub fn len(&self) -> (n: usize)
        ensures
            n == self.contents().len(),
    {
        self.data.len()
    }

}

fn put(data: &mut Vec<u8>, addr: u32, Ghost(bs): Ghost<Seq<u8>>, i: usize, b: u8)
    requires
        in_bounds(old(data)@.len(), addr, bs.len()),
        i < bs.len(),
        bs[i as int] == b,
    ensures
        final(data)@ == old(data)@.update(addr + i, b),
{
    let n = data.len();
    assert(addr as int + i < n);
    let a = addr as usize + i;
    data.set(a, b);
}

impl Bus for Ram {
    open spec fn bytes(&self) -> Seq<u8> {
        self.contents()
    }

    fn size(&self) -> (n: usize) {
        proof {
            use_type_invariant(self);
        }
        self.data.len()
    }

    fn load8(&self, addr: u32) -> (r: Result<u8, FalconError>) {
        proof {
            use_type_invariant(self);
        }
        if (addr as usize) < self.data.len() {
            Ok(self.data[addr as usize])
        } else {
            Err(FalconError::OutOfBounds { addr, size: 1 })
        }
    }

    fn load16(&self, addr: u32) -> (r: Result<u16, FalconError>) {
        proof {
            use_type_invariant(self);
        }
        if (addr as usize) < self.data.len() && 1 < self.data.len() - addr as usize {
            let a = addr as usize;
            let b0 = self.data[a];
            let b1 = self.data[a + 1];
            Ok((b0 as u16) | ((b1 as u16) << 8u16))
        } else {
            Err(FalconError::OutOfBounds { addr, size: 2 })
        }
    }

    fn load32(&self, addr: u32) -> (r: Result<u32, FalconError>) {
        proof {
            use_type_invariant(self);
        }
        if (addr as usize) < self.data.len() && 3 < self.data.len() - addr as usize {
            let a = addr as usize;
            let b0 = self.data[a];
            let b1 = self.data[a + 1];
            let b2 = self.data[a + 2];
            let b3 = self.data[a + 3];
            Ok((b0 as u32) | ((b1 as u32) << 8u32) | ((b2 as u32) << 16u32) | ((b3 as u32)
                << 24u32))
        } else {
            Err(FalconError::OutOfBounds { addr, size: 4 })
        }
    }

    fn store8(&mut self, addr: u32, v: u8) -> (r: Result<(), FalconError>) {
        proof {
            use_type_invariant(&*self);
        }
        if (addr as usize) < self.data.len() {
            let mut d: Vec<u8> = Vec::new();
            std::mem::swap(&mut d, &mut self.data);
            d.set(addr as usize, v);
            assert(d@ =~= write_at(old(self).data@, addr as int, seq![v]));
            self.data = d;
            Ok(())
        } else {
            Err(FalconError::OutOfBounds { addr, size: 1 })
        }
    }

    fn store16(&mut self, addr: u32, v: u16) -> (r: Result<(), FalconError>) {
        proof {
            use_type_invariant(&*self);
        }
        if (addr as usize) < self.data.len() && 1 < self.data.len() - addr as usize {
            let ghost bs = le_bytes16(v);
            let mut d: Vec<u8> = Vec::new();
            std::mem::swap(&mut d, &mut self.data);
            put(&mut d, addr, Ghost(bs), 0, (v & 0xff) as u8);
            put(&mut d, addr, Ghost(bs), 1, (v >> 8u16) as u8);
            assert(d@ =~= write_at(old(self).data@, addr as int, bs));
            self.data = d;
            Ok(())
        } else {
            Err(FalconError::OutOfBounds { addr, size: 2 })
        }
    }

    fn store32(&mut self, addr: u32, v: u32) -> (r: Result<(), FalconError>) {
        proof {
            use_type_invariant(&*self);
        }
        if (addr as usize) < self.data.len() && 3 < self.data.len() - addr as usize {
            let ghost bs = le_bytes32(v);
            let mut d: Vec<u8> = Vec::new();
            std::mem::swap(&mut d, &mut self.data);
            put(&mut d, addr, Ghost(bs), 0, (v & 0xff) as u8);
            put(&mut d, addr, Ghost(bs), 1, ((v >> 8u32) & 0xff) as u8);
            put(&mut d, addr, Ghost(bs), 2, ((v >> 16u32) & 0xff) as u8);
            put(&mut d, addr, Ghost(bs), 3, (v >> 24u32) as u8);
            assert(d@ =~= write_at(old(self).data@, addr as int, bs));
            self.data = d;
            Ok(())
        } else {
            Err(FalconError::OutOfBounds { addr, size: 4 })
        }
    }
}

// ---------- fixed-size big-endian memory ----------

/// Size in bytes of a [`Memory`].
pub const MEMORY_SIZE: usize = 4096;

/// A zero-initialised memory of [`MEMORY_SIZE`] bytes holding big-endian words.
/// Its size never changes: `new` makes it and every write keeps the length.
pub struct Memory {
    mem: Vec<u8>,
}

impl Memory {
    /// A memory always holds exactly [`MEMORY_SIZE`] bytes.
    #[verifier::type_invariant]
    spec fn size_kept(self) -> bool {
        self.mem@.len() == MEMORY_SIZE
    }
}

impl Clone for Memory {
    fn clone(&self) -> (c: Self)
        ensures
            c@ == self@,
    {
        proof {
            use_type_invariant(self);
        }
        let mem = self.mem.clone();
        assert(mem@ =~= self.mem@);
        Memory { mem }
    }
}

impl View for Memory {
    type V = Seq<u8>;

    closed spec fn view(&self) -> Seq<u8> {
        self.mem@
    }
}

impl Memory {
    pub fn new() -> (m: Self)
        ensures
            m@ == Seq::new(MEMORY_SIZE as nat, |i: int| 0u8),
            m@.len() == MEMORY_SIZE,
    {
        let mut mem: Vec<u8> = Vec::with_capacity(MEMORY_SIZE);
        let mut i: usize = 0;
        while i < MEMORY_SIZE
            invariant
                i <= MEMORY_SIZE,
                mem@ == Seq::new(i as nat, |j: int| 0u8),
            decreases MEMORY_SIZE - i,
        {
            mem.push(0);
            i += 1;
        }
        Memory { mem }
    }

    /// Reads the big-endian word at `pointer`.
    pub fn read_word(&self, pointer: usize) -> (v: u32)
        requires
            pointer + 4 <= MEMORY_SIZE,
        ensures
            v == be32(self@[pointer as int], self@[pointer + 1], self@[pointer + 2], self@[pointer + 3]),
            self@.len() == MEMORY_SIZE,
    {
        proof {
            use_type_invariant(self);
        }
        let _n = self.mem.len();
        ((self.mem[pointer] as u32) << 24u32) | ((self.mem[pointer + 1] as u32) << 16u32) | ((
        self.mem[pointer + 2] as u32) << 8u32) | (self.mem[pointer + 3] as u32)
    }

    /// Writes `value` as a big-endian word at `pointer`.
    pub fn write_word(&mut self, pointer: usize, value: u32)
        requires
            pointer + 4 <= MEMORY_SIZE,
        ensures
            final(self)@ == write_at(old(self)@, pointer as int, be_bytes32(value)),
            final(self)@.len() == MEMORY_SIZE,
            old(self)@.len() == MEMORY_SIZE,
    {
        proof {
            use_type_invariant(&*self);
        }
        self.mem[pointer] = (value >> 24u32) as u8;
        self.mem[pointer + 1] = ((value >> 16u32) & 0xff) as u8;
        self.mem[pointer + 2] = ((value >> 8u32) & 0xff) as u8;
        self.mem[pointer + 3] = (value & 0xff) as u8;
        assert(self.mem@ =~= write_at(old(self)@, pointer as int, be_bytes32(value)));
    }

    /// Reads the big-endian double word at `pointer`.
    pub fn read_d_word(&self, pointer: usize) -> (v: u64)
        requires
            pointer + 8 <= MEMORY_SIZE,
        ensures
            v == be64(self@, pointer as int),
            self@.len() == MEMORY_SIZE,
    {
        proof {
            use_type_invariant(self);
        }
        let m = &self.mem;
        let _n = m.len();
        ((m[pointer] as u64) << 56u64) | ((m[pointer + 1] as u64) << 48u64) | ((m[pointer + 2]
            as u64) << 40u64) | ((m[pointer + 3] as u64) << 32u64) | ((m[pointer + 4] as u64)
            << 24u64) | ((m[pointer + 5] as u64) << 16u64) | ((m[pointer + 6] as u64) << 8u64) | (
        m[pointer + 7] as u64)
    }

    /// Writes `value` as a big-endian double word at `pointer`.
    pub fn write_d_word(&mut self, pointer: usize, value: u64)
        requires
            pointer + 8 <= MEMORY_SIZE,
        ensures
            final(self)@ == write_at(old(self)@, pointer as int, be_bytes64(value)),
            final(self)@.len() == MEMORY_SIZE,
            old(self)@.len() == MEMORY_SIZE,
    {
        proof {
            use_type_invariant(&*self);
        }
        self.mem[pointer] = (value >> 56u64) as u8;
        self.mem[pointer + 1] = ((value >> 48u64) & 0xff) as u8;
        self.mem[pointer + 2] = ((value >> 40u64) & 0xff) as u8;
        self.mem[pointer + 3] = ((value >> 32u64) & 0xff) as u8;
        self.mem[pointer + 4] = ((value >> 24u64) & 0xff) as u8;
        self.mem[pointer + 5] = ((value >> 16u64) & 0xff) as u8;
        self.mem[pointer + 6] = ((value >> 8u64) & 0xff) as u8;
        self.mem[pointer + 7] = (value & 0xff) as u8;
        assert(self.mem@ =~= write_at(old(self)@, pointer as int, be_bytes64(value)));
    }

    /// Reads the byte at `pointer`.
    pub fn read_q_word(&self, pointer: usize) -> (v: u8)
        requires
            pointer < MEMORY_SIZE,
        ensures
            v == self@[pointer as int],
            self@.len() == MEMORY_SIZE,
    {
        proof {
            use_type_invariant(self);
        }
        self.mem[pointer]
    }

    /// Writes the byte `value` at `pointer`.
    pub fn write_q_word(&mut self, pointer: usize, value: u8)
        requires
            pointer < MEMORY_SIZE,
        ensures
            final(self)@ == old(self)@.update(pointer as int, value),
            final(self)@.len() == MEMORY_SIZE,
            old(self)@.len() == MEMORY_SIZE,
    {
        proof {
            use_type_invariant(&*self);
        }
        self.mem[pointer] = value;
    }
}

// ---------- laws ----------

/// A word read back from where it was just stored is the word stored.
pub proof fn lemma_le32_of_bytes(v: u32)
    ensures
        le32(le_bytes32(v)[0], le_bytes32(v)[1], le_bytes32(v)[2], le_bytes32(v)[3]) == v,
{
    assert(((v & 0xff) as u8 as u32) | ((((v >> 8u32) & 0xff) as u8 as u32) << 8u32) | ((((v
        >> 16u32) & 0xff) as u8 as u32) << 16u32) | (((v >> 24u32) as u8 as u32) << 24u32) == v)
        by (bit_vector);
}

/// A half word read back from where it was just stored is the half word stored.
pub proof fn lemma_le16_of_bytes(v: u16)
    ensures
        le16(le_bytes16(v)[0], le_bytes16(v)[1]) == v,
{
    assert(((v & 0xff) as u8 as u16) | (((v >> 8u16) as u8 as u16) << 8u16) == v) by (bit_vector);
}

/// On any bus: after a successful `store32` of `v` at `a`, `load32` at `a`
/// gives `v`, and every byte outside `a..a+4` is unchanged.
pub proof fn lemma_store32_load32(m: Seq<u8>, a: u32, v: u32, b: u32)
    requires
        store_spec(m, a, le_bytes32(v)) is Ok,
    ensures
        load32_spec(store_spec(m, a, le_bytes32(v))->Ok_0, a) == Ok::<u32, FalconError>(v),
        !(a <= b < a + 4) ==> load8_spec(store_spec(m, a, le_bytes32(v))->Ok_0, b) == load8_spec(m, b),
{
    lemma_le32_of_bytes(v);
}

/// On any bus: after a successful `store16` of `v` at `a`, `load16` at `a` gives `v`.
pub proof fn lemma_store16_load16(m: Seq<u8>, a: u32, v: u16)
    requires
        store_spec(m, a, le_bytes16(v)) is Ok,
    ensures
        load16_spec(store_spec(m, a, le_bytes16(v))->Ok_0, a) == Ok::<u16, FalconError>(v),
{
    lemma_le16_of_bytes(v);
}

/// On any bus: after a successful `store8` of `v` at `a`, `load8` at `a` gives `v`.
pub proof fn lemma_store8_load8(m: Seq<u8>, a: u32, v: u8)
    requires
        store_spec(m, a, seq![v]) is Ok,
    ensures
        load8_spec(store_spec(m, a, seq![v])->Ok_0, a) == Ok::<u8, FalconError>(v),
{
}

/// A big-endian word read back from where it was just written is the word written.
pub proof fn lemma_be32_of_bytes(v: u32)
    ensures
        be32(be_bytes32(v)[0], be_bytes32(v)[1], be_bytes32(v)[2], be_bytes32(v)[3]) == v,
{
    assert((((v >> 24u32) as u8 as u32) << 24u32) | ((((v >> 16u32) & 0xff) as u8 as u32)
        << 16u32) | ((((v >> 8u32) & 0xff) as u8 as u32) << 8u32) | ((v & 0xff) as u8 as u32) == v)
        by (bit_vector);
}

/// A big-endian double word read back from where it was just written is the double word written.
pub proof fn lemma_be64_of_bytes(v: u64)
    ensures
        be64(be_bytes64(v), 0) == v,
{
    assert((((v >> 56u64) as u8 as u64) << 56u64) | ((((v >> 48u64) & 0xff) as u8 as u64)
        << 48u64) | ((((v >> 40u64) & 0xff) as u8 as u64) << 40u64) | ((((v >> 32u64) & 0xff) as u8
        as u64) << 32u64) | ((((v >> 24u64) & 0xff) as u8 as u64) << 24u64) | ((((v >> 16u64)
        & 0xff) as u8 as u64) << 16u64) | ((((v >> 8u64) & 0xff) as u8 as u64) << 8u64) | ((v
        & 0xff) as u8 as u64) == v) by (bit_vector);
}

/// In a [`Memory`] (whose view is always [`MEMORY_SIZE`] bytes long): after
/// `write_word(p, v)`, `read_word(p)` gives `v`, `read_q_word` gives its bytes
/// from the most significant one, and every byte outside `p..p+4` reads as
/// before.
pub proof fn lemma_memory_word_roundtrip(m: Seq<u8>, p: int, v: u32)
    requires
        m.len() == MEMORY_SIZE,
        0 <= p,
        p + 4 <= MEMORY_SIZE,
    ensures
        ({
            let m2 = write_at(m, p, be_bytes32(v));
            &&& m2.len() == MEMORY_SIZE
            &&& be32(m2[p], m2[p + 1], m2[p + 2], m2[p + 3]) == v
            &&& m2[p] == (v >> 24u32) as u8
            &&& m2[p + 3] == v as u8
            &&& forall|i: int| 0 <= i < MEMORY_SIZE && !(p <= i < p + 4) ==> #[trigger] m2[i] == m[i]
        }),
{
    lemma_be32_of_bytes(v);
    assert((v & 0xff) as u8 == v as u8) by (bit_vector);
}

/// In a [`Memory`] (whose view is always [`MEMORY_SIZE`] bytes long): after
/// `write_d_word(p, v)`, `read_d_word(p)` gives `v`, `read_word(p)` its high
/// half and `read_word(p + 4)` its low half, and every byte outside `p..p+8`
/// reads as before.
pub proof fn lemma_memory_d_word_roundtrip(m: Seq<u8>, p: int, v: u64)
    requires
        m.len() == MEMORY_SIZE,
        0 <= p,
        p + 8 <= MEMORY_SIZE,
    ensures
        ({
            let m2 = write_at(m, p, be_bytes64(v));
            &&& m2.len() == MEMORY_SIZE
            &&& be64(m2, p) == v
            &&& be32(m2[p], m2[p + 1], m2[p + 2], m2[p + 3]) == (v >> 32u64) as u32
            &&& be32(m2[p + 4], m2[p + 5], m2[p + 6], m2[p + 7]) == v as u32
            &&& forall|i: int| 0 <= i < MEMORY_SIZE && !(p <= i < p + 8) ==> #[trigger] m2[i] == m[i]
        }),
{
    lemma_be64_of_bytes(v);
    let m2 = write_at(m, p, be_bytes64(v));
    let bs = be_bytes64(v);
    assert(m2[p] == bs[0] && m2[p + 1] == bs[1] && m2[p + 2] == bs[2] && m2[p + 3] == bs[3]);
    assert(m2[p + 4] == bs[4] && m2[p + 5] == bs[5] && m2[p + 6] == bs[6] && m2[p + 7] == bs[7]);
    assert(be32(bs[0], bs[1], bs[2], bs[3]) == (v >> 32u64) as u32) by {
        assert((((v >> 56u64) as u8 as u32) << 24u32) | ((((v >> 48u64) & 0xff) as u8 as u32)
            << 16u32) | ((((v >> 40u64) & 0xff) as u8 as u32) << 8u32) | (((v >> 32u64) & 0xff)
            as u8 as u32) == (v >> 32u64) as u32) by (bit_vector);
    }
    assert(be32(bs[4], bs[5], bs[6], bs[7]) == v as u32) by {
        assert((((((v >> 24u64) & 0xff) as u8) as u32) << 24u32) | ((((v >> 16u64) & 0xff) as u8
            as u32) << 16u32) | ((((v >> 8u64) & 0xff) as u8 as u32) << 8u32) | ((v & 0xff) as u8
            as u32) == v as u32) by (bit_vector);
    }
}

/// In a [`Memory`] (whose view is always [`MEMORY_SIZE`] bytes long): after
/// `write_q_word(p, v)`, `read_q_word(p)` gives `v` and every other byte reads
/// as before.
pub proof fn lemma_memory_byte_roundtrip(m: Seq<u8>, p: int, v: u8)
    requires
        m.len() == MEMORY_SIZE,
        0 <= p < MEMORY_SIZE,
    ensures
        ({
            let m2 = m.update(p, v);
            &&& m2.len() == MEMORY_SIZE
            &&& m2[p] == v
            &&& forall|i: int| 0 <= i < MEMORY_SIZE && i != p ==> #[trigger] m2[i] == m[i]
        }),
{
}

} // verus!
