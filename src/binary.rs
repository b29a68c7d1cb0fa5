//! Packing of coils into bytes and of 16-bit registers into big-endian pairs.
use crate::error::{Error, Reason};
use crate::function::Coil;
use vstd::prelude::*;

verus! {

/// Bit `m` (0 is the least significant) of byte `b`.
pub open spec fn bit_of(b: u8, m: u8) -> bool {
    (b >> m) & 1u8 == 1u8
}

/// Bit `i` of a little-endian bit stream: bit `i % 8` of byte `i / 8`.
pub open spec fn stream_bit(bytes: Seq<u8>, i: int) -> bool {
    bit_of(bytes[i / 8], (i % 8) as u8)
}

/// The number of bytes that hold `n` bits.
pub open spec fn packed_len(n: nat) -> nat {
    if n % 8 == 0 { n / 8 } else { n / 8 + 1 }
}

/// The first `count` bits of `bytes`, as coils.
pub open spec fn coils_of(bytes: Seq<u8>, count: nat) -> Seq<Coil> {
    Seq::new(count, |i: int| Coil::from_bool(stream_bit(bytes, i)))
}

/// The 16-bit value of the big-endian pair `hi`, `lo`.
pub open spec fn word(hi: u8, lo: u8) -> u16 {
    (hi as int * 256 + lo as int) as u16
}

/// Consecutive big-endian pairs of `bytes`, as 16-bit values.
pub open spec fn words_of(bytes: Seq<u8>) -> Seq<u16> {
    Seq::new(bytes.len() / 2, |i: int| word(bytes[2 * i], bytes[2 * i + 1]))
}

/// Each value of `values` as two big-endian bytes.
pub open spec fn bytes_of(values: Seq<u16>) -> Seq<u8> {
    Seq::new(
        2 * values.len(),
        |i: int|
            if i % 2 == 0 {
                (values[i / 2] / 256) as u8
            } else {
                (values[i / 2] % 256) as u8
            },
    )
}

proof fn lemma_set_bit(b: u8, k: u8, m: u8)
    requires
        k < 8,
        m < 8,
    ensures
        bit_of(b | (1u8 << k), m) == (m == k || bit_of(b, m)),
{
    assert(((b | (1u8 << k)) >> m) & 1u8 == 1u8 <==> (m == k || (b >> m) & 1u8 == 1u8))
        by (bit_vector)
        requires
            k < 8,
            m < 8,
    ;
}

proof fn lemma_zero_bits(m: u8)
    requires
        m < 8,
    ensures
        !bit_of(0u8, m),
{
    assert((0u8 >> m) & 1u8 != 1u8) by (bit_vector);
}

/// Reads the first `count` bits of `bytes`, bit 0 of byte 0 first, as coils.
pub fn unpack_bits(bytes: &[u8], count: u16) -> (r: Vec<Coil>)
    requires
        count as int <= 8 * bytes@.len(),
    ensures
        r@ == coils_of(bytes@, count as nat),
{
    let mut res: Vec<Coil> = Vec::with_capacity(count as usize);
    let mut i: u16 = 0;
    while i < count
        invariant
            i <= count,
            count as int <= 8 * bytes@.len(),
            res@ == coils_of(bytes@, i as nat),
        decreases count - i,
    {
        let byte = bytes[(i / 8) as usize];
        let m: u8 = (i % 8) as u8;
        let c = if (byte >> m) & 1u8 == 1u8 { Coil::On } else { Coil::Off };
        res.push(c);
        i = i + 1;
        assert(res@ =~= coils_of(bytes@, i as nat));
    }
    res
}

/// `bytes` holds `bits` packed: bit `i` of the stream is set exactly when
/// coil `i` exists and is on, and there is no byte beyond the last coil's.
pub open spec fn packs(bytes: Seq<u8>, bits: Seq<Coil>) -> bool {
    &&& bytes.len() == packed_len(bits.len())
    &&& forall|i: int|
        0 <= i < 8 * bytes.len() ==> stream_bit(bytes, i) == (i < bits.len() && bits[i].is_on())
}

/// Packs coils into bytes, the first coil into bit 0 of byte 0; the bits of
/// the last byte past the last coil are zero.
pub fn pack_bits(bits: &[Coil]) -> (r: Vec<u8>)
    ensures
        packs(r@, bits@),
{
    let n = bits.len();
    let size: usize = if n % 8 == 0 { n / 8 } else { n / 8 + 1 };
    let mut res: Vec<u8> = Vec::with_capacity(size);
    let mut j: usize = 0;
    while j < size
        invariant
            n == bits@.len(),
            size == packed_len(n as nat),
            j <= size,
            res@.len() == j,
            forall|i: int|
                0 <= i < 8 * j ==> stream_bit(res@, i) == (i < n && bits@[i].is_on()),
        decreases size - j,
    {
        let mut b: u8 = 0;
        let mut k: u8 = 0;
        proof {
            assert forall|m: u8| m < 8 implies !bit_of(0u8, m) by {
                lemma_zero_bits(m);
            }
        }
        while k < 8
            invariant
                j < size,
                size == packed_len(n as nat),
                n == bits@.len(),
                k <= 8,
                forall|m: u8|
                    m < k ==> bit_of(b, m) == (8 * j + m < n && bits@[8 * j + m].is_on()),
                forall|m: u8| k <= m < 8 ==> !bit_of(b, m),
            decreases 8 - k,
        {
            let idx: usize = 8 * j + k as usize;
            let ghost b0 = b;
            if idx < n {
                if let Coil::On = bits[idx] {
                    b = b | (1u8 << k);
                }
            }
            proof {
                assert forall|m: u8| m < 8 implies bit_of(b, m) == (if m == k {
                    idx < n && bits@[idx as int].is_on()
                } else {
                    bit_of(b0, m)
                }) by {
                    lemma_set_bit(b0, k, m);
                }
            }
            k = k + 1;
        }
        let ghost old_res = res@;
        res.push(b);
        proof {
            assert forall|i: int|
                0 <= i < 8 * (j + 1) implies stream_bit(res@, i) == (i < n
                && bits@[i].is_on()) by {
                if i < 8 * j {
                    assert(i / 8 < j);
                    assert(res@[i / 8] == old_res[i / 8]);
                    assert(stream_bit(old_res, i) == (i < n && bits@[i].is_on()));
                } else {
                    let m = (i % 8) as u8;
                    assert(i / 8 == j);
                    assert(8 * j + m == i);
                    assert(res@[i / 8] == b);
                    assert(bit_of(b, m) == (8 * j + m < n && bits@[8 * j + m].is_on()));
                }
            }
        }
        j = j + 1;
    }
    res
}

/// Groups `bytes` into big-endian pairs; an odd count is an error.
pub fn pack_bytes(bytes: &[u8]) -> (r: Result<Vec<u16>, Error>)
    ensures
        bytes@.len() % 2 == 0 <==> r is Ok,
        r matches Ok(v) ==> v@ == words_of(bytes@),
        r matches Err(e) ==> e == Error::InvalidData(Reason::BytecountNotEven),
{
    let n = bytes.len();
    if n % 2 != 0 {
        return Err(Error::InvalidData(Reason::BytecountNotEven));
    }
    let mut res: Vec<u16> = Vec::with_capacity(n / 2);
    let mut i: usize = 0;
    while i < n / 2
        invariant
            n == bytes@.len(),
            i <= n / 2,
            res@ == words_of(bytes@).take(i as int),
        decreases n / 2 - i,
    {
        let v: u16 = bytes[2 * i] as u16 * 256 + bytes[2 * i + 1] as u16;
        res.push(v);
        i = i + 1;
        assert(res@ =~= words_of(bytes@).take(i as int));
    }
    assert(res@ =~= words_of(bytes@));
    Ok(res)
}

/// Writes each value as two big-endian bytes.
pub fn unpack_bytes(data: &[u16]) -> (r: Vec<u8>)
    requires
        2 * data@.len() <= usize::MAX,
    ensures
        r@ == bytes_of(data@),
{
    let n = data.len();
    let mut res: Vec<u8> = Vec::with_capacity(2 * n);
    let mut i: usize = 0;
    while i < n
        invariant
            n == data@.len(),
            2 * n <= usize::MAX,
            i <= n,
            res@ == bytes_of(data@).take(2 * i as int),
        decreases n - i,
    {
        let v = data[i];
        res.push((v / 256) as u8);
        res.push((v % 256) as u8);
        i = i + 1;
        assert(res@ =~= bytes_of(data@).take(2 * i as int));
    }
    assert(res@ =~= bytes_of(data@));
    res
}

/// Unpacking the packed form of a sequence of coils, as many as there are,
/// gives the coils back; the packed form is long enough to be read that far.
pub proof fn lemma_bits_round_trip(bytes: Seq<u8>, bits: Seq<Coil>)
    requires
        packs(bytes, bits),
    ensures
        bits.len() <= 8 * bytes.len(),
        coils_of(bytes, bits.len()) == bits,
{
    assert(coils_of(bytes, bits.len()) =~= bits) by {
        assert forall|i: int| 0 <= i < bits.len() implies coils_of(bytes, bits.len())[i]
            == bits[i] by {
            assert(i < 8 * bytes.len());
        }
    }
}

proof fn lemma_word_split(hi: u8, lo: u8)
    ensures
        (word(hi, lo) / 256) as u8 == hi,
        (word(hi, lo) % 256) as u8 == lo,
{
    let w = hi as int * 256 + lo as int;
    assert(w < 65536);
    assert(w / 256 == hi as int && w % 256 == lo as int) by (nonlinear_arith)
        requires
            w == hi as int * 256 + lo as int,
            0 <= lo < 256,
    ;
}

/// Grouping an even number of bytes into big-endian words and writing the
/// words out again gives the same bytes.
pub proof fn lemma_bytes_round_trip(bytes: Seq<u8>)
    requires
        bytes.len() % 2 == 0,
    ensures
        bytes_of(words_of(bytes)) == bytes,
{
    let w = words_of(bytes);
    assert(bytes_of(w) =~= bytes) by {
        assert forall|i: int| 0 <= i < bytes.len() implies bytes_of(w)[i] == bytes[i] by {
            let k = i / 2;
            lemma_word_split(bytes[2 * k], bytes[2 * k + 1]);
            if i % 2 == 0 {
                assert(i == 2 * k);
            } else {
                assert(i == 2 * k + 1);
            }
        }
    }
}

} // verus!
