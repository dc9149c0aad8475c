use vstd::prelude::*;

verus! {

/// Byte-level facts used across the machine: masking bounds a value, a byte
/// shifted into the high half of a word is that byte times 256, and joining a
/// high and a low byte is their weighted sum.
pub proof fn lemma_byte_facts(x: u8, y: u8)
    by (bit_vector)
    ensures
        (x as u16) << 8u16 == (x as u16) * 256,
        ((x as u16) << 8u16) | (y as u16) == (x as u16) * 256 + (y as u16),
        (y as u16) | ((x as u16) << 8u16) == (x as u16) * 256 + (y as u16),
        0xFF00u16 | (y as u16) == 0xFF00u16 + (y as u16),
        x & 0x01 <= 0x01,
        x & 0x03 <= 0x03,
        x & 0x07 <= 0x07,
        x & 0x0F <= 0x0F,
        x & 0x1F <= 0x1F,
        x & 0x3F <= 0x3F,
        x & 0x7F <= 0x7F,
        ((x & 0x01) << 1u8) | (y & 0x01) <= 3,
        (x >> 3u8) & 0x01 <= 0x01,
{
}

/// A word split into its high and low bytes and joined again is unchanged.
pub proof fn lemma_word_split(w: u16)
    by (bit_vector)
    ensures
        (w >> 8u16) as u8 as u16 * 256 + (w as u8 as u16) == w,
        (w >> 8u16) as u8 as u16 == w / 256,
        w as u8 as u16 == w % 256,
{
}

/// The single-bit masks, and where the lowest set bit of a 5-bit value is.
pub proof fn lemma_bit_masks(p: u8)
    by (bit_vector)
    ensures
        1u8 << 0u8 == 0x01,
        1u8 << 1u8 == 0x02,
        1u8 << 2u8 == 0x04,
        1u8 << 3u8 == 0x08,
        1u8 << 4u8 == 0x10,
        1u8 << 5u8 == 0x20,
        1u8 << 6u8 == 0x40,
        1u8 << 7u8 == 0x80,
        (p & 0x1F) != 0 ==> (p & 0x1F) & 0x01 != 0 || (p & 0x1F) & 0x02 != 0 || (p & 0x1F) & 0x04
            != 0 || (p & 0x1F) & 0x08 != 0 || (p & 0x1F) & 0x10 != 0,
{
}

/// A word's low byte is the word modulo 256.
pub broadcast proof fn lemma_u16_low_byte(x: u16)
    by (bit_vector)
    ensures
        #[trigger] (x as u8) == x % 256,
{
}

/// A 32-bit value's low word is the value modulo 65536.
pub broadcast proof fn lemma_u32_low_word(x: u32)
    by (bit_vector)
    ensures
        #[trigger] (x as u16) == x % 65536,
{
}

/// A byte's low nibble is the byte modulo 16.
pub broadcast proof fn lemma_u8_low_nibble(x: u8)
    by (bit_vector)
    ensures
        #[trigger] (x & 0x0F) == x % 16,
{
}

/// A word's high byte is the word divided by 256.
pub broadcast proof fn lemma_u16_high_byte(x: u16)
    by (bit_vector)
    ensures
        #[trigger] ((x >> 8u16) as u8) == x / 256,
{
}

/// A word's low nibble is the word modulo 16.
pub broadcast proof fn lemma_u16_low_nibble(x: u16)
    by (bit_vector)
    ensures
        #[trigger] (x & 0x0F) == x % 16,
{
}

} // verus!
