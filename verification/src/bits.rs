use vstd::prelude::*;

verus! {

/// Big-endian byte decomposition of a 64-bit word.
pub open spec fn u64_be_bytes(v: u64) -> Seq<u8> {
    seq![
        (v >> 56) as u8,
        (v >> 48) as u8,
        (v >> 40) as u8,
        (v >> 32) as u8,
        (v >> 24) as u8,
        (v >> 16) as u8,
        (v >> 8) as u8,
        v as u8,
    ]
}

/// Little-endian byte decomposition of a 64-bit word.
pub open spec fn u64_le_bytes(v: u64) -> Seq<u8> {
    seq![
        v as u8,
        (v >> 8) as u8,
        (v >> 16) as u8,
        (v >> 24) as u8,
        (v >> 32) as u8,
        (v >> 40) as u8,
        (v >> 48) as u8,
        (v >> 56) as u8,
    ]
}

/// Little-endian byte decomposition of a 32-bit word.
pub open spec fn u32_le_bytes(v: u32) -> Seq<u8> {
    seq![
        v as u8,
        (v >> 8) as u8,
        (v >> 16) as u8,
        (v >> 24) as u8,
    ]
}

/// The word read from a byte sequence in big-endian order, folding each byte
/// into the low end of the accumulator.
pub open spec fn be_u64_of(s: Seq<u8>) -> u64
    decreases s.len(),
{
    if s.len() == 0 {
        0u64
    } else {
        (be_u64_of(s.drop_last()) << 8) | (s.last() as u64)
    }
}

/// The word read from an 8-byte sequence in little-endian order.
pub open spec fn le_u64_of(s: Seq<u8>) -> u64
    recommends
        s.len() == 8,
{
    (s[0] as u64) | ((s[1] as u64) << 8) | ((s[2] as u64) << 16) | ((s[3] as u64) << 24)
        | ((s[4] as u64) << 32) | ((s[5] as u64) << 40) | ((s[6] as u64) << 48)
        | ((s[7] as u64) << 56)
}

/// Splits a 64-bit word into its eight bytes, most significant first.
pub fn u64_to_bytes(val: u64) -> (r: [u8; 8])
    ensures
        r@ == u64_be_bytes(val),
{
    let r: [u8; 8] = [
        (val >> 56) as u8,
        (val >> 48) as u8,
        (val >> 40) as u8,
        (val >> 32) as u8,
        (val >> 24) as u8,
        (val >> 16) as u8,
        (val >> 8) as u8,
        val as u8,
    ];
    proof {
        assert(r@ =~= u64_be_bytes(val));
    }
    r
}

/// Appends the eight big-endian bytes of a word to a byte buffer.
pub fn push_u64_be(dest: &mut Vec<u8>, val: u64)
    ensures
        final(dest)@ == old(dest)@ + u64_be_bytes(val),
{
    dest.push((val >> 56) as u8);
    dest.push((val >> 48) as u8);
    dest.push((val >> 40) as u8);
    dest.push((val >> 32) as u8);
    dest.push((val >> 24) as u8);
    dest.push((val >> 16) as u8);
    dest.push((val >> 8) as u8);
    dest.push(val as u8);
    proof {
        assert(dest@ =~= old(dest)@ + u64_be_bytes(val));
    }
}

/// Appends one byte buffer to another.
pub fn append_bytes(dest: &mut Vec<u8>, src: &Vec<u8>)
    ensures
        final(dest)@ == old(dest)@ + src@,
{
    let mut j: usize = 0;
    while j < src.len()
        invariant
            j <= src@.len(),
            dest@ == old(dest)@ + src@.take(j as int),
        decreases src@.len() - j,
    {
        proof {
            assert(old(dest)@ + src@.take(j + 1) =~= (old(dest)@ + src@.take(j as int)).push(
                src@[j as int],
            ));
        }
        dest.push(src[j]);
        j = j + 1;
    }
    proof {
        assert(src@.take(src@.len() as int) =~= src@);
    }
}

/// Reads a big-endian 64-bit word from a byte buffer; anything but exactly
/// eight bytes is refused.
pub fn vec_u8_to_u64(bytes: &Vec<u8>) -> (r: Option<u64>)
    ensures
        bytes@.len() == 8 ==> r == Some(be_u64_of(bytes@)),
        bytes@.len() != 8 ==> r is None,
{
    if bytes.len() != 8 {
        return None;
    }

    let mut result: u64 = 0;
    let mut i: usize = 0;
    while i < bytes.len()
        invariant
            bytes@.len() == 8,
            i <= 8,
            result == be_u64_of(bytes@.take(i as int)),
        decreases 8 - i,
    {
        proof {
            assert(bytes@.take(i + 1).drop_last() =~= bytes@.take(i as int));
            assert(bytes@.take(i + 1).last() == bytes@[i as int]);
        }
        result = (result << 8) | (bytes[i] as u64);
        i = i + 1;
    }
    proof {
        assert(bytes@.take(8) =~= bytes@);
    }
    Some(result)
}

/// Reads a little-endian 64-bit word from an 8-byte buffer.
pub fn u64_from_le_bytes(bytes: &Vec<u8>) -> (r: u64)
    requires
        bytes@.len() == 8,
    ensures
        r == le_u64_of(bytes@),
{
    (bytes[0] as u64) | ((bytes[1] as u64) << 8) | ((bytes[2] as u64) << 16)
        | ((bytes[3] as u64) << 24) | ((bytes[4] as u64) << 32) | ((bytes[5] as u64) << 40)
        | ((bytes[6] as u64) << 48) | ((bytes[7] as u64) << 56)
}

/// Reading the little-endian bytes of a word back gives the word: the
/// decomposition loses nothing, so it is injective.
pub proof fn lemma_u64_le_bytes_inverse(v: u64)
    ensures
        le_u64_of(u64_le_bytes(v)) == v,
{
    assert((v as u64) & 0xff == ((v as u8) as u64)) by (bit_vector);
    assert(((v as u8) as u64) | ((((v >> 8) as u8) as u64) << 8) | ((((v >> 16) as u8) as u64)
        << 16) | ((((v >> 24) as u8) as u64) << 24) | ((((v >> 32) as u8) as u64) << 32) | ((((v
        >> 40) as u8) as u64) << 40) | ((((v >> 48) as u8) as u64) << 48) | ((((v >> 56) as u8)
        as u64) << 56) == v) by (bit_vector);
}

/// Reading the little-endian bytes of a 32-bit word back gives the word.
pub proof fn lemma_u32_le_bytes_injective(a: u32, b: u32)
    requires
        u32_le_bytes(a) == u32_le_bytes(b),
    ensures
        a == b,
{
    assert(u32_le_bytes(a)[0] == a as u8 && u32_le_bytes(a)[1] == (a >> 8) as u8 && u32_le_bytes(
        a,
    )[2] == (a >> 16) as u8 && u32_le_bytes(a)[3] == (a >> 24) as u8);
    assert((a as u8) == (b as u8) && ((a >> 8) as u8) == ((b >> 8) as u8) && ((a >> 16) as u8) == ((
    b >> 16) as u8) && ((a >> 24) as u8) == ((b >> 24) as u8) ==> a == b) by (bit_vector);
}

/// A growing vector of timing-comparison bits, assembled into a 64-bit word
/// once 64 bits have been collected.
pub struct BitVector {
    bits: Vec<bool>,
}

/// The word assembled from a bit sequence, least significant bit first.
pub open spec fn bits_u64_of(s: Seq<bool>) -> u64
    decreases s.len(),
{
    if s.len() == 0 {
        0u64
    } else {
        bits_u64_of(s.drop_last()) | (if s.last() {
            1u64 << (s.len() - 1)
        } else {
            0u64
        })
    }
}

impl View for BitVector {
    type V = Seq<bool>;

    closed spec fn view(&self) -> Seq<bool> {
        self.bits@
    }
}

impl BitVector {
    pub fn new() -> (r: Self)
        ensures
            r@.len() == 0,
    {
        BitVector { bits: Vec::new() }
    }

    pub fn add_bit(&mut self, bit: bool)
        ensures
            final(self)@ == old(self)@.push(bit),
    {
        self.bits.push(bit);
    }

    pub fn is_full(&self) -> (r: bool)
        ensures
            r == (self@.len() == 64),
    {
        self.bits.len() == 64
    }

    pub fn to_u64(&self) -> (r: u64)
        requires
            self@.len() <= 64,
        ensures
            r == bits_u64_of(self@),
    {
        let mut result: u64 = 0;
        let mut i: usize = 0;
        while i < self.bits.len()
            invariant
                self@.len() <= 64,
                i <= self@.len(),
                result == bits_u64_of(self@.take(i as int)),
            decreases self@.len() - i,
        {
            proof {
                assert(self@.take(i + 1).drop_last() =~= self@.take(i as int));
                assert(self@.take(i + 1).last() == self@[i as int]);
                assert(result | 0u64 == result) by (bit_vector);
            }
            if self.bits[i] {
                result = result | (1u64 << i);
            }
            i = i + 1;
        }
        proof {
            assert(self@.take(self@.len() as int) =~= self@);
        }
        result
    }
}

} // verus!
