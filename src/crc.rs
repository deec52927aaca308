use vstd::prelude::*;

verus! {

/// The CRC-16/CCITT generator polynomial, MSB-first.
pub const CRC_POLY: u16 = 0x1021;

/// The register value before any byte is absorbed.
pub const CRC_INIT: u16 = 0xFFFF;

/// One step of the shift register: shift left by one bit and, when a one
/// falls out of the top, fold the polynomial back in.
pub open spec fn crc_shift(c: u16) -> u16 {
    if c & 0x8000u16 != 0 {
        ((c << 1u16) ^ 0x1021u16) as u16
    } else {
        (c << 1u16) as u16
    }
}

/// `n` register steps.
pub open spec fn crc_bits(c: u16, n: nat) -> u16
    decreases n,
{
    if n == 0 {
        c
    } else {
        crc_shift(crc_bits(c, (n - 1) as nat))
    }
}

/// Absorbing one byte: xor it into the high half, then eight steps.
pub open spec fn crc_byte(c: u16, b: u8) -> u16 {
    crc_shift(crc_shift(crc_shift(crc_shift(crc_shift(crc_shift(crc_shift(crc_shift(
        (c ^ ((b as u16) << 8u16)) as u16))))))))
}

/// The register after absorbing every byte of `s`, in order, from `init`.
pub open spec fn crc_from(init: u16, s: Seq<u8>) -> u16
    decreases s.len(),
{
    if s.len() == 0 {
        init
    } else {
        crc_byte(crc_from(init, s.drop_last()), s.last())
    }
}

/// CRC-16/CCITT (initial register 0xFFFF, no reflection, no final xor).
pub open spec fn crc16_spec(s: Seq<u8>) -> u16 {
    crc_from(CRC_INIT, s)
}

proof fn lemma_crc_bits_eight(c: u16)
    ensures
        crc_bits(c, 8) == crc_shift(crc_shift(crc_shift(crc_shift(crc_shift(crc_shift(
            crc_shift(crc_shift(c)))))))),
{
    reveal_with_fuel(crc_bits, 9);
}

/// Computes CRC-16/CCITT over `data`.
pub fn crc16_ccitt(data: &[u8]) -> (r: u16)
    ensures
        r == crc16_spec(data@),
{
    let mut crc: u16 = CRC_INIT;
    let mut i: usize = 0;
    while i < data.len()
        invariant
            i <= data.len(),
            crc == crc16_spec(data@.subrange(0, i as int)),
        decreases data.len() - i,
    {
        let ghost before = crc;
        let byte = data[i];
        crc = crc ^ ((byte as u16) << 8u16);
        let ghost start = crc;
        let mut k: u32 = 0;
        while k < 8
            invariant
                k <= 8,
                crc == crc_bits(start, k as nat),
            decreases 8 - k,
        {
            if (crc & 0x8000u16) != 0 {
                crc = (crc << 1u16) ^ CRC_POLY;
            } else {
                crc = crc << 1u16;
            }
            k += 1;
        }
        proof {
            lemma_crc_bits_eight(start);
            assert(data@.subrange(0, i + 1).drop_last() =~= data@.subrange(0, i as int));
            assert(crc == crc_byte(before, byte));
        }
        i += 1;
    }
    proof {
        assert(data@.subrange(0, data.len() as int) =~= data@);
    }
    crc
}

proof fn lemma_byte_change_changes_register(c: u16, x: u8, mask: u8)
    requires
        mask != 0,
    ensures
        crc_byte(c, x) != crc_byte(c, x ^ mask),
{
    assert(mask != 0 ==> crc_byte(c, x) != crc_byte(c, x ^ mask)) by (bit_vector);
}

proof fn lemma_register_change_persists(c1: u16, c2: u16, x: u8)
    requires
        c1 != c2,
    ensures
        crc_byte(c1, x) != crc_byte(c2, x),
{
    assert(c1 != c2 ==> crc_byte(c1, x) != crc_byte(c2, x)) by (bit_vector);
}

/// Changing bits within any one byte of `s` changes its CRC.
pub proof fn lemma_crc_detects_byte_change(init: u16, s: Seq<u8>, k: int, mask: u8)
    requires
        0 <= k < s.len(),
        mask != 0,
    ensures
        crc_from(init, s) != crc_from(init, s.update(k, s[k] ^ mask)),
    decreases s.len(),
{
    let t = s.update(k, s[k] ^ mask);
    if k == s.len() - 1 {
        assert(t.drop_last() =~= s.drop_last());
        lemma_byte_change_changes_register(crc_from(init, s.drop_last()), s.last(), mask);
    } else {
        assert(t.drop_last() =~= s.drop_last().update(k, s[k] ^ mask));
        lemma_crc_detects_byte_change(init, s.drop_last(), k, mask);
        lemma_register_change_persists(
            crc_from(init, s.drop_last()),
            crc_from(init, t.drop_last()),
            s.last(),
        );
    }
}

} // verus!
