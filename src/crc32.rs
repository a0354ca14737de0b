use vstd::prelude::*;

use crate::chunk_type::ChunkType;

verus! {

/// The reflected CRC-32 (ISO-HDLC) polynomial.
pub const POLY: u32 = 0xEDB88320;

/// The number of entries in the lookup table: one per byte value.
pub const SIZE: usize = 256;

/// One step of the bitwise CRC-32 shift register.
pub open spec fn crc_shift(c: u32) -> u32 {
    if c & 1 == 1 {
        POLY ^ (c >> 1)
    } else {
        c >> 1
    }
}

/// `n` steps of the shift register.
pub open spec fn crc_shifts(c: u32, n: nat) -> u32
    decreases n,
{
    if n == 0 {
        c
    } else {
        crc_shift(crc_shifts(c, (n - 1) as nat))
    }
}

/// Eight steps of the shift register: what one byte does to the register.
pub open spec fn crc_byte(c: u32) -> u32 {
    crc_shift(crc_shift(crc_shift(crc_shift(crc_shift(crc_shift(crc_shift(crc_shift(c))))))))
}

/// The register after feeding `s` to it, starting from all ones.
pub open spec fn crc_register(s: Seq<u8>) -> u32
    decreases s.len(),
{
    if s.len() == 0 {
        0xFFFF_FFFF
    } else {
        crc_byte(crc_register(s.drop_last()) ^ (s.last() as u32))
    }
}

/// The CRC-32 (ISO-HDLC) checksum of `s`, bit by bit.
pub open spec fn crc32_spec(s: Seq<u8>) -> u32 {
    crc_register(s) ^ 0xFFFF_FFFF
}

/// True when `t` holds, at each index, what one byte of that value does to
/// a cleared register.
pub open spec fn is_crc_table(t: Seq<u32>) -> bool {
    &&& t.len() == SIZE
    &&& forall|i: int| 0 <= i < SIZE ==> #[trigger] t[i] == crc_byte(i as u32)
}

proof fn lemma_shifts_eight(c: u32)
    ensures
        crc_shifts(c, 8) == crc_byte(c),
{
    reveal_with_fuel(crc_shifts, 9);
}

/// The register is linear: the low byte goes through the table, the rest
/// is shifted down by a byte.
proof fn lemma_byte_split(x: u32)
    ensures
        crc_byte(x) == crc_byte(x & 0xFF) ^ (x >> 8),
{
    assert(crc_byte(x) == crc_byte(x & 0xFF) ^ (x >> 8)) by (bit_vector);
}

fn init_crc() -> (r: [u32; SIZE])
    ensures
        is_crc_table(r@),
{
    let mut crc_table: [u32; SIZE] = [0; SIZE];
    let mut byte: usize = 0;
    while byte < SIZE
        invariant
            byte <= SIZE,
            crc_table@.len() == SIZE,
            forall|i: int| 0 <= i < byte ==> #[trigger] crc_table@[i] == crc_byte(i as u32),
        decreases SIZE - byte,
    {
        let mut c: u32 = byte as u32;
        let mut k: usize = 0;
        while k < 8
            invariant
                k <= 8,
                c == crc_shifts(byte as u32, k as nat),
            decreases 8 - k,
        {
            if c & 1 == 1 {
                c = POLY ^ (c >> 1);
            } else {
                c = c >> 1;
            }
            k = k + 1;
        }
        proof {
            lemma_shifts_eight(byte as u32);
        }
        crc_table[byte] = c;
        byte = byte + 1;
    }
    crc_table
}

fn update_crc(buf: &[u8], crc_table: &[u32; SIZE]) -> (r: u32)
    requires
        is_crc_table(crc_table@),
    ensures
        r == crc_register(buf@),
{
    let mut crc: u32 = 0xFFFF_FFFF;
    let mut i: usize = 0;
    while i < buf.len()
        invariant
            i <= buf@.len(),
            is_crc_table(crc_table@),
            crc == crc_register(buf@.subrange(0, i as int)),
        decreases buf@.len() - i,
    {
        let byte = buf[i];
        let index = (crc ^ (byte as u32)) & 0xFF;
        proof {
            let prefix = buf@.subrange(0, i as int + 1);
            assert(prefix.drop_last() =~= buf@.subrange(0, i as int));
            lemma_byte_split(crc ^ (byte as u32));
            assert((crc ^ (byte as u32)) >> 8 == crc >> 8) by (bit_vector)
                requires
                    byte < 256,
            ;
            assert(index < 256) by (bit_vector)
                requires
                    index == (crc ^ (byte as u32)) & 0xFF,
            ;
        }
        crc = crc_table[index as usize] ^ (crc >> 8);
        i = i + 1;
    }
    assert(buf@.subrange(0, i as int) =~= buf@);
    crc
}

/// The CRC-32 of a type code followed by chunk data, computed with this
/// crate's own lookup table.
pub fn calculate_crc(ctype: &ChunkType, data: &[u8]) -> (r: u32)
    requires
        data@.len() + 4 <= usize::MAX,
    ensures
        r == crc32_spec(ctype@ + data@),
{
    let crc_table = init_crc();
    let bytes = ctype.bytes();
    let mut buf: Vec<u8> = Vec::new();
    buf.push(bytes[0]);
    buf.push(bytes[1]);
    buf.push(bytes[2]);
    buf.push(bytes[3]);
    buf.extend_from_slice(data);
    assert(buf@ =~= ctype@ + data@);
    let crc = update_crc(buf.as_slice(), &crc_table);
    crc ^ 0xFFFF_FFFF
}

} // verus!
