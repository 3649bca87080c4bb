//! CRC-16/XMODEM checksum: polynomial 0x1021, initial value 0x0000, no input
//! or output reflection and no final xor.  The inverter firmware computes
//! exactly this variant over frame payloads, so the definition below is the
//! reference the rest of the codec is proved against.

use vstd::prelude::*;

verus! {

/// One shift of the checksum register: shift left one bit, folding the
/// polynomial 0x1021 back in when the top bit falls out.
pub open spec fn crc_shift(c: u16) -> u16 {
    if c & 0x8000 != 0 {
        (c << 1u16) ^ 0x1021
    } else {
        c << 1u16
    }
}

/// The checksum register after absorbing one input byte: the byte is xored
/// into the high half of the register, then the register is shifted once for
/// each of its eight bits.
pub open spec fn crc_step(c: u16, b: u8) -> u16 {
    crc_shift(crc_shift(crc_shift(crc_shift(crc_shift(crc_shift(crc_shift(crc_shift(
        c ^ ((b as u16) << 8u16),
    ))))))))
}

/// The checksum register after absorbing every byte of `s` in order,
/// starting from the register value `c`.
pub open spec fn crc16_from(c: u16, s: Seq<u8>) -> u16
    decreases s.len(),
{
    if s.len() == 0 {
        c
    } else {
        crc16_from(crc_step(c, s[0]), s.drop_first())
    }
}

/// CRC-16/XMODEM of a byte sequence, starting from the zero register.
pub open spec fn crc16(s: Seq<u8>) -> u16 {
    crc16_from(0, s)
}

/// Absorbing one more byte at the end of a sequence steps the register once.
pub proof fn lemma_crc16_from_push(c: u16, s: Seq<u8>, b: u8)
    ensures
        crc16_from(c, s.push(b)) == crc_step(crc16_from(c, s), b),
    decreases s.len(),
{
    reveal_with_fuel(crc16_from, 2);
    if s.len() == 0 {
        assert(s.push(b)[0] == b);
        assert(s.push(b).drop_first() =~= Seq::<u8>::empty());
    } else {
        assert(s.push(b)[0] == s[0]);
        assert(s.push(b).drop_first() =~= s.drop_first().push(b));
        lemma_crc16_from_push(crc_step(c, s[0]), s.drop_first(), b);
    }
}

/// Absorbing a concatenation is absorbing the two parts in turn.
pub proof fn lemma_crc16_from_concat(c: u16, s1: Seq<u8>, s2: Seq<u8>)
    ensures
        crc16_from(c, s1 + s2) == crc16_from(crc16_from(c, s1), s2),
    decreases s1.len(),
{
    if s1.len() == 0 {
        assert(s1 + s2 =~= s2);
    } else {
        assert((s1 + s2).drop_first() =~= s1.drop_first() + s2);
        lemma_crc16_from_concat(crc_step(c, s1[0]), s1.drop_first(), s2);
    }
}

/// Absorbing the same byte from distinct register values leaves the register
/// values distinct: one step of the checksum is injective in the register.
pub proof fn lemma_crc_step_injective_register(c1: u16, c2: u16, b: u8)
    requires
        c1 != c2,
    ensures
        crc_step(c1, b) != crc_step(c2, b),
{
    assert(c1 != c2 ==> crc_step(c1, b) != crc_step(c2, b)) by (bit_vector);
}

/// Absorbing distinct bytes from the same register value yields distinct
/// register values: one step of the checksum is injective in the byte.
pub proof fn lemma_crc_step_injective_byte(c: u16, b1: u8, b2: u8)
    requires
        b1 != b2,
    ensures
        crc_step(c, b1) != crc_step(c, b2),
{
    assert(b1 != b2 ==> crc_step(c, b1) != crc_step(c, b2)) by (bit_vector);
}

/// Distinct register values stay distinct under any common suffix of input
/// bytes.
pub proof fn lemma_crc16_from_distinct(c1: u16, c2: u16, s: Seq<u8>)
    requires
        c1 != c2,
    ensures
        crc16_from(c1, s) != crc16_from(c2, s),
    decreases s.len(),
{
    if s.len() != 0 {
        lemma_crc_step_injective_register(c1, c2, s[0]);
        lemma_crc16_from_distinct(crc_step(c1, s[0]), crc_step(c2, s[0]), s.drop_first());
    }
}

/// Changing a single byte of a sequence always changes its checksum.
pub proof fn lemma_crc16_detects_byte_change(s: Seq<u8>, i: int, b: u8)
    requires
        0 <= i < s.len(),
        b != s[i],
    ensures
        crc16(s.update(i, b)) != crc16(s),
{
    let s2 = s.update(i, b);
    let prefix = s.take(i);
    let suffix = s.skip(i + 1);
    assert(s =~= prefix + (seq![s[i]] + suffix));
    assert(s2 =~= prefix + (seq![b] + suffix));
    lemma_crc16_from_concat(0, prefix, seq![s[i]] + suffix);
    lemma_crc16_from_concat(0, prefix, seq![b] + suffix);
    let c0 = crc16_from(0, prefix);
    assert((seq![s[i]] + suffix).drop_first() =~= suffix);
    assert((seq![b] + suffix).drop_first() =~= suffix);
    lemma_crc_step_injective_byte(c0, s[i], b);
    lemma_crc16_from_distinct(crc_step(c0, s[i]), crc_step(c0, b), suffix);
}

/// The checksum is a pure function of the input bytes: equal byte sequences
/// always carry equal checksums, across any number of calls.
pub proof fn lemma_crc16_deterministic(s1: Seq<u8>, s2: Seq<u8>)
    requires
        s1 == s2,
    ensures
        crc16(s1) == crc16(s2),
{
}

/// One shift of the checksum register.
fn digest_shift(c: u16) -> (r: u16)
    ensures
        r == crc_shift(c),
{
    if c & 0x8000 != 0 {
        (c << 1u16) ^ 0x1021
    } else {
        c << 1u16
    }
}

/// CRC-16/XMODEM of `data`.
pub fn digest_crc(data: &[u8]) -> (r: u16)
    ensures
        r == crc16(data@),
{
    let mut crc: u16 = 0;
    let mut i: usize = 0;
    while i < data.len()
        invariant
            0 <= i <= data@.len(),
            crc == crc16_from(0, data@.take(i as int)),
        decreases data@.len() - i,
    {
        let b = data[i];
        crc = crc ^ ((b as u16) << 8u16);
        crc = digest_shift(crc);
        crc = digest_shift(crc);
        crc = digest_shift(crc);
        crc = digest_shift(crc);
        crc = digest_shift(crc);
        crc = digest_shift(crc);
        crc = digest_shift(crc);
        crc = digest_shift(crc);
        proof {
            lemma_crc16_from_push(0, data@.take(i as int), b);
            assert(data@.take(i as int).push(b) =~= data@.take(i + 1 as int));
        }
        i = i + 1;
    }
    proof {
        assert(data@.take(data@.len() as int) =~= data@);
    }
    crc
}

} // verus!
