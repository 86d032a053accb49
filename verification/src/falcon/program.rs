//! Loading an assembled program into memory.
use vstd::prelude::*;
use crate::falcon::errors::FalconError;
use crate::falcon::machine;
use crate::falcon::memory::{self, Bus};

verus! {

/// Memory `m` after storing each word of `ws` little-endian at
/// `base + 4 * i` (wrapping at 2^32), or the first store that faults.
pub open spec fn words_loaded(m: Seq<u8>, base: u32, ws: Seq<u32>) -> Result<Seq<u8>, FalconError>
    decreases ws.len(),
{
    if ws.len() == 0 {
        Ok(m)
    } else {
        match words_loaded(m, base, ws.drop_last()) {
            Err(e) => Err(e),
            Ok(m2) => memory::store_spec(
                m2,
                machine::wrap32(base + 4 * (ws.len() - 1)),
                memory::le_bytes32(ws.last()),
            ),
        }
    }
}

/// Memory `m` after storing each byte of `bs` at `base + i` (wrapping at
/// 2^32), or the first store that faults.
pub open spec fn bytes_loaded(m: Seq<u8>, base: u32, bs: Seq<u8>) -> Result<Seq<u8>, FalconError>
    decreases bs.len(),
{
    if bs.len() == 0 {
        Ok(m)
    } else {
        match bytes_loaded(m, base, bs.drop_last()) {
            Err(e) => Err(e),
            Ok(m2) => memory::store_spec(m2, machine::wrap32(base + bs.len() - 1), seq![bs.last()]),
        }
    }
}

/// Memory `m` after storing the words of `ws` in order for as long as the
/// stores succeed: the store that faults changes nothing and ends loading.
pub open spec fn words_stored(m: Seq<u8>, base: u32, ws: Seq<u32>) -> Seq<u8>
    decreases ws.len(),
{
    if ws.len() == 0 {
        m
    } else {
        match words_loaded(m, base, ws.drop_last()) {
            Err(_) => words_stored(m, base, ws.drop_last()),
            Ok(m2) => match memory::store_spec(
                m2,
                machine::wrap32(base + 4 * (ws.len() - 1)),
                memory::le_bytes32(ws.last()),
            ) {
                Ok(m3) => m3,
                Err(_) => m2,
            },
        }
    }
}

/// Memory `m` after storing the bytes of `bs` in order for as long as the
/// stores succeed.
pub open spec fn bytes_stored(m: Seq<u8>, base: u32, bs: Seq<u8>) -> Seq<u8>
    decreases bs.len(),
{
    if bs.len() == 0 {
        m
    } else {
        match bytes_loaded(m, base, bs.drop_last()) {
            Err(_) => bytes_stored(m, base, bs.drop_last()),
            Ok(m2) => match memory::store_spec(m2, machine::wrap32(base + bs.len() - 1), seq![bs.last()]) {
                Ok(m3) => m3,
                Err(_) => m2,
            },
        }
    }
}

/// Stores the words `words` at `base`, `base + 4`, ...; stops at the first
/// store that faults and returns its error.
pub fn load_words<B: Bus>(mem: &mut B, base: u32, words: &[u32]) -> (r: Result<(), FalconError>)
    ensures
        match words_loaded(old(mem).bytes(), base, words@) {
            Ok(m) => r is Ok && final(mem).bytes() == m,
            Err(e) => r == Err::<(), FalconError>(e),
        },
        final(mem).bytes() == words_stored(old(mem).bytes(), base, words@),
{
    let ghost m0 = mem.bytes();
    let mut addr = base;
    let mut i: usize = 0;
    assert(words@.subrange(0, 0).len() == 0);
    while i < words.len()
        invariant
            i <= words@.len(),
            m0 == old(mem).bytes(),
            addr == machine::wrap32(base + 4 * i),
            words_loaded(m0, base, words@.subrange(0, i as int)) == Ok::<Seq<u8>, FalconError>(mem.bytes()),
            words_stored(m0, base, words@.subrange(0, i as int)) == mem.bytes(),
        decreases words@.len() - i,
    {
        let ghost sub = words@.subrange(0, i + 1);
        assert(sub.drop_last() =~= words@.subrange(0, i as int));
        match mem.store32(addr, words[i]) {
            Err(e) => {
                proof {
                    lemma_words_err(m0, base, words@, i + 1);
                    lemma_words_stored_err(m0, base, words@, i + 1);
                }
                return Err(e);
            },
            Ok(()) => {},
        }
        proof {
            machine::lemma_wrap32_add(base + 4 * i, 4);
        }
        addr = addr.wrapping_add(4);
        i += 1;
    }
    assert(words@.subrange(0, i as int) =~= words@);
    Ok(())
}

proof fn lemma_words_stored_err(m: Seq<u8>, base: u32, ws: Seq<u32>, j: int)
    requires
        0 <= j <= ws.len(),
        words_loaded(m, base, ws.subrange(0, j)) is Err,
    ensures
        words_stored(m, base, ws) == words_stored(m, base, ws.subrange(0, j)),
    decreases ws.len() - j,
{
    if j < ws.len() {
        assert(ws.subrange(0, j + 1).drop_last() =~= ws.subrange(0, j));
        lemma_words_stored_err(m, base, ws, j + 1);
    } else {
        assert(ws.subrange(0, j) =~= ws);
    }
}

proof fn lemma_bytes_stored_err(m: Seq<u8>, base: u32, bs: Seq<u8>, j: int)
    requires
        0 <= j <= bs.len(),
        bytes_loaded(m, base, bs.subrange(0, j)) is Err,
    ensures
        bytes_stored(m, base, bs) == bytes_stored(m, base, bs.subrange(0, j)),
    decreases bs.len() - j,
{
    if j < bs.len() {
        assert(bs.subrange(0, j + 1).drop_last() =~= bs.subrange(0, j));
        lemma_bytes_stored_err(m, base, bs, j + 1);
    } else {
        assert(bs.subrange(0, j) =~= bs);
    }
}

proof fn lemma_words_err(m: Seq<u8>, base: u32, ws: Seq<u32>, j: int)
    requires
        0 <= j <= ws.len(),
        words_loaded(m, base, ws.subrange(0, j)) is Err,
    ensures
        words_loaded(m, base, ws) == words_loaded(m, base, ws.subrange(0, j)),
    decreases ws.len() - j,
{
    if j < ws.len() {
        assert(ws.subrange(0, j + 1).drop_last() =~= ws.subrange(0, j));
        lemma_words_err(m, base, ws, j + 1);
    } else {
        assert(ws.subrange(0, j) =~= ws);
    }
}

/// Stores the bytes `bytes` at `base`, `base + 1`, ...; stops at the first
/// store that faults and returns its error.
pub fn load_bytes<B: Bus>(mem: &mut B, base: u32, bytes: &[u8]) -> (r: Result<(), FalconError>)
    ensures
        match bytes_loaded(old(mem).bytes(), base, bytes@) {
            Ok(m) => r is Ok && final(mem).bytes() == m,
            Err(e) => r == Err::<(), FalconError>(e),
        },
        final(mem).bytes() == bytes_stored(old(mem).bytes(), base, bytes@),
{
    let ghost m0 = mem.bytes();
    let mut addr = base;
    let mut i: usize = 0;
    while i < bytes.len()
        invariant
            i <= bytes@.len(),
            m0 == old(mem).bytes(),
            addr == machine::wrap32(base + i),
            bytes_loaded(m0, base, bytes@.subrange(0, i as int)) == Ok::<Seq<u8>, FalconError>(mem.bytes()),
            bytes_stored(m0, base, bytes@.subrange(0, i as int)) == mem.bytes(),
        decreases bytes@.len() - i,
    {
        let ghost sub = bytes@.subrange(0, i + 1);
        assert(sub.drop_last() =~= bytes@.subrange(0, i as int));
        match mem.store8(addr, bytes[i]) {
            Err(e) => {
                proof {
                    lemma_bytes_err(m0, base, bytes@, i + 1);
                    lemma_bytes_stored_err(m0, base, bytes@, i + 1);
                }
                return Err(e);
            },
            Ok(()) => {},
        }
        proof {
            machine::lemma_wrap32_add(base + i, 1);
        }
        addr = addr.wrapping_add(1);
        i += 1;
    }
    assert(bytes@.subrange(0, i as int) =~= bytes@);
    Ok(())
}

proof fn lemma_bytes_err(m: Seq<u8>, base: u32, bs: Seq<u8>, j: int)
    requires
        0 <= j <= bs.len(),
        bytes_loaded(m, base, bs.subrange(0, j)) is Err,
    ensures
        bytes_loaded(m, base, bs) == bytes_loaded(m, base, bs.subrange(0, j)),
    decreases bs.len() - j,
{
    if j < bs.len() {
        assert(bs.subrange(0, j + 1).drop_last() =~= bs.subrange(0, j));
        lemma_bytes_err(m, base, bs, j + 1);
    } else {
        assert(bs.subrange(0, j) =~= bs);
    }
}

/// Two word stores at different indices of a program of at most 2^30 words
/// touch disjoint bytes.
proof fn lemma_word_slots_disjoint(base: u32, k: int, l: int, len: nat)
    requires
        0 <= k < l < 0x4000_0000,
        machine::wrap32(base + 4 * k) + 4 <= len,
        machine::wrap32(base + 4 * l) + 4 <= len,
        len < 0x1_0000_0000,
    ensures
        machine::wrap32(base + 4 * k) + 4 <= machine::wrap32(base + 4 * l) || machine::wrap32(
            base + 4 * l,
        ) + 4 <= machine::wrap32(base + 4 * k),
{
    let x = base + 4 * k;
    let y = base + 4 * l;
    assert(x == 0x1_0000_0000 * (x / 0x1_0000_0000) + x % 0x1_0000_0000);
    assert(y == 0x1_0000_0000 * (y / 0x1_0000_0000) + y % 0x1_0000_0000);
}

/// After a program's words are loaded, the word loaded at `base + 4 * k`
/// is word `k` of the program (for programs of at most 2^30 words; a
/// longer one would wrap around onto its own first words).
pub proof fn lemma_words_read_back(m: Seq<u8>, base: u32, ws: Seq<u32>, k: int)
    requires
        m.len() <= u32::MAX,
        words_loaded(m, base, ws) is Ok,
        ws.len() <= 0x4000_0000,
        0 <= k < ws.len(),
    ensures
        memory::load32_spec(words_loaded(m, base, ws)->Ok_0, machine::wrap32(base + 4 * k))
            == Ok::<u32, FalconError>(ws[k]),
    decreases ws.len(),
{
    let pre = ws.drop_last();
    let m2 = words_loaded(m, base, pre)->Ok_0;
    let l = ws.len() - 1;
    let al = machine::wrap32(base + 4 * l);
    memory::lemma_store32_load32(m2, al, ws.last(), 0);
    if k < l {
        lemma_words_read_back(m, base, pre, k);
        lemma_words_len(m, base, pre);
        let ak = machine::wrap32(base + 4 * k);
        lemma_word_slots_disjoint(base, k, l, m2.len());
        memory::lemma_store32_load32(m2, al, ws.last(), ak);
        memory::lemma_store32_load32(m2, al, ws.last(), (ak + 1) as u32);
        memory::lemma_store32_load32(m2, al, ws.last(), (ak + 2) as u32);
        memory::lemma_store32_load32(m2, al, ws.last(), (ak + 3) as u32);
        assert(memory::load32_spec(words_loaded(m, base, ws)->Ok_0, ak) == memory::load32_spec(m2, ak));
        assert(pre[k] == ws[k]);
    }
}

proof fn lemma_words_len(m: Seq<u8>, base: u32, ws: Seq<u32>)
    requires
        words_loaded(m, base, ws) is Ok,
    ensures
        words_loaded(m, base, ws)->Ok_0.len() == m.len(),
    decreases ws.len(),
{
    if ws.len() > 0 {
        lemma_words_len(m, base, ws.drop_last());
    }
}

/// After a program's data bytes are loaded, the byte loaded at `base + k`
/// is byte `k` of the data (for at most 2^32 bytes; more would wrap around
/// onto the first ones).
pub proof fn lemma_bytes_read_back(m: Seq<u8>, base: u32, bs: Seq<u8>, k: int)
    requires
        bytes_loaded(m, base, bs) is Ok,
        bs.len() <= 0x1_0000_0000,
        0 <= k < bs.len(),
    ensures
        memory::load8_spec(bytes_loaded(m, base, bs)->Ok_0, machine::wrap32(base + k)) == Ok::<
            u8,
            FalconError,
        >(bs[k]),
    decreases bs.len(),
{
    let pre = bs.drop_last();
    let m2 = bytes_loaded(m, base, pre)->Ok_0;
    let l = bs.len() - 1;
    let al = machine::wrap32(base + l);
    memory::lemma_store8_load8(m2, al, bs.last());
    if k < l {
        lemma_bytes_read_back(m, base, pre, k);
        let x = base + k;
        let y = base + l;
        assert(x == 0x1_0000_0000 * (x / 0x1_0000_0000) + x % 0x1_0000_0000);
        assert(y == 0x1_0000_0000 * (y / 0x1_0000_0000) + y % 0x1_0000_0000);
        assert(machine::wrap32(base + k) != al);
        assert(pre[k] == bs[k]);
    }
}

} // verus!
