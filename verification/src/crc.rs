//! MS/TP header CRC-8 and data CRC-16 (ASHRAE 135 Annex G).
use vstd::prelude::*;

verus! {

/// One byte of the header CRC register update (polynomial X^8 + X^7 + 1,
/// parallel form of Annex G.1).
pub open spec fn header_crc_step(crc: u8, byte: u8) -> u8 {
    let t: u16 = (crc ^ byte) as u16;
    let t2: u16 = t ^ (t << 1u16) ^ (t << 2u16) ^ (t << 3u16) ^ (t << 4u16) ^ (t << 5u16) ^ (t
        << 6u16) ^ (t << 7u16);
    ((t2 & 0xfeu16) ^ ((t2 >> 8u16) & 1u16)) as u8
}

/// The header CRC register after processing `data`, starting from 0xFF.
pub open spec fn header_crc_register_of(data: Seq<u8>) -> u8
    decreases data.len(),
{
    if data.len() == 0 {
        0xFFu8
    } else {
        header_crc_step(header_crc_register_of(data.drop_last()), data.last())
    }
}

/// One bit of the data CRC register update (reflected CRC-CCITT, 0x8408).
pub open spec fn data_crc_bit(crc: u16) -> u16 {
    if crc & 1u16 != 0u16 {
        (crc >> 1u16) ^ 0x8408u16
    } else {
        crc >> 1u16
    }
}

/// Eight bit steps: the register update for one byte after the XOR.
pub open spec fn data_crc_bits8(crc: u16) -> u16 {
    data_crc_bit(
        data_crc_bit(
            data_crc_bit(
                data_crc_bit(data_crc_bit(data_crc_bit(data_crc_bit(data_crc_bit(crc))))),
            ),
        ),
    )
}

/// One byte of the data CRC register update (Annex G.2).
pub open spec fn data_crc_step(crc: u16, byte: u8) -> u16 {
    data_crc_bits8(crc ^ (byte as u16))
}

/// The data CRC register after processing `data`, starting from 0xFFFF.
pub open spec fn data_crc_register_of(data: Seq<u8>) -> u16
    decreases data.len(),
{
    if data.len() == 0 {
        0xFFFFu16
    } else {
        data_crc_step(data_crc_register_of(data.drop_last()), data.last())
    }
}

fn header_step(crc: u8, byte: u8) -> (r: u8)
    ensures
        r == header_crc_step(crc, byte),
{
    let t: u16 = (crc ^ byte) as u16;
    let t2: u16 = t ^ (t << 1u16) ^ (t << 2u16) ^ (t << 3u16) ^ (t << 4u16) ^ (t << 5u16) ^ (t
        << 6u16) ^ (t << 7u16);
    ((t2 & 0xfeu16) ^ ((t2 >> 8u16) & 1u16)) as u8
}

fn data_step(crc: u16, byte: u8) -> (r: u16)
    ensures
        r == data_crc_step(crc, byte),
{
    let mut c: u16 = crc ^ (byte as u16);
    let ghost c0 = c;
    let mut k: u8 = 0;
    while k < 8
        invariant
            k <= 8,
            c == (if k == 0 {
                c0
            } else if k == 1 {
                data_crc_bit(c0)
            } else if k == 2 {
                data_crc_bit(data_crc_bit(c0))
            } else if k == 3 {
                data_crc_bit(data_crc_bit(data_crc_bit(c0)))
            } else if k == 4 {
                data_crc_bit(data_crc_bit(data_crc_bit(data_crc_bit(c0))))
            } else if k == 5 {
                data_crc_bit(data_crc_bit(data_crc_bit(data_crc_bit(data_crc_bit(c0)))))
            } else if k == 6 {
                data_crc_bit(
                    data_crc_bit(data_crc_bit(data_crc_bit(data_crc_bit(data_crc_bit(c0))))),
                )
            } else if k == 7 {
                data_crc_bit(
                    data_crc_bit(
                        data_crc_bit(data_crc_bit(data_crc_bit(data_crc_bit(data_crc_bit(c0))))),
                    ),
                )
            } else {
                data_crc_bits8(c0)
            }),
        decreases 8 - k,
    {
        if c & 0x0001u16 != 0 {
            c = (c >> 1u16) ^ 0x8408u16;
        } else {
            c = c >> 1u16;
        }
        k = k + 1;
    }
    c
}

/// Header CRC register value (before the ones complement) over `header`.
pub fn calculate_header_crc_register(header: &[u8]) -> (r: u8)
    ensures
        r == header_crc_register_of(header@),
{
    let mut crc: u8 = 0xFF;
    let mut i: usize = 0;
    while i < header.len()
        invariant
            i <= header@.len(),
            crc == header_crc_register_of(header@.take(i as int)),
        decreases header@.len() - i,
    {
        assert(header@.take(i + 1).drop_last() =~= header@.take(i as int));
        crc = header_step(crc, header[i]);
        i = i + 1;
    }
    assert(header@.take(i as int) =~= header@);
    crc
}

/// Header CRC as transmitted: the ones complement of the register.
pub fn calculate_header_crc(header: &[u8]) -> (r: u8)
    ensures
        r == !header_crc_register_of(header@),
{
    let reg = calculate_header_crc_register(header);
    !reg
}

/// Data CRC register value (before the ones complement) over `data`.
pub fn calculate_data_crc_register(data: &[u8]) -> (r: u16)
    ensures
        r == data_crc_register_of(data@),
{
    let mut crc: u16 = 0xFFFF;
    let mut i: usize = 0;
    while i < data.len()
        invariant
            i <= data@.len(),
            crc == data_crc_register_of(data@.take(i as int)),
        decreases data@.len() - i,
    {
        assert(data@.take(i + 1).drop_last() =~= data@.take(i as int));
        crc = data_step(crc, data[i]);
        i = i + 1;
    }
    assert(data@.take(i as int) =~= data@);
    crc
}

/// Data CRC as transmitted: the ones complement of the register.
pub fn calculate_data_crc(data: &[u8]) -> (r: u16)
    ensures
        r == !data_crc_register_of(data@),
{
    let reg = calculate_data_crc_register(data);
    !reg
}

proof fn lemma_header_step_complement(r: u8)
    ensures
        header_crc_step(r, !r) == 0x55u8,
{
    assert(header_crc_step(r, !r) == 0x55u8) by (bit_vector);
}

/// Receiver check of the header CRC: running the register over a header followed
/// by its transmitted CRC always ends at 0x55.
pub proof fn lemma_header_crc_receiver_check(header: Seq<u8>)
    ensures
        header_crc_register_of(header.push(!header_crc_register_of(header))) == 0x55u8,
{
    let h2 = header.push(!header_crc_register_of(header));
    assert(h2.drop_last() =~= header);
    lemma_header_step_complement(header_crc_register_of(header));
}

proof fn lemma_data_steps_complement(r: u16)
    ensures
        data_crc_step(data_crc_step(r, (!r & 0xFFu16) as u8), (!r >> 8u16) as u8) == 0xF0B8u16,
{
    let x: u16 = r ^ (((!r & 0xFFu16) as u8) as u16);
    let c1 = data_crc_bit(x);
    let c2 = data_crc_bit(c1);
    let c3 = data_crc_bit(c2);
    let c4 = data_crc_bit(c3);
    let c5 = data_crc_bit(c4);
    let c6 = data_crc_bit(c5);
    let c7 = data_crc_bit(c6);
    let c8 = data_crc_bit(c7);
    let y: u16 = c8 ^ (((!r >> 8u16) as u8) as u16);
    let d1 = data_crc_bit(y);
    let d2 = data_crc_bit(d1);
    let d3 = data_crc_bit(d2);
    let d4 = data_crc_bit(d3);
    let d5 = data_crc_bit(d4);
    let d6 = data_crc_bit(d5);
    let d7 = data_crc_bit(d6);
    let d8 = data_crc_bit(d7);
    assert(d8 == 0xF0B8u16) by (bit_vector)
        requires
            x == r ^ (((!r & 0xFFu16) as u8) as u16),
            c1 == data_crc_bit(x),
            c2 == data_crc_bit(c1),
            c3 == data_crc_bit(c2),
            c4 == data_crc_bit(c3),
            c5 == data_crc_bit(c4),
            c6 == data_crc_bit(c5),
            c7 == data_crc_bit(c6),
            c8 == data_crc_bit(c7),
            y == c8 ^ (((!r >> 8u16) as u8) as u16),
            d1 == data_crc_bit(y),
            d2 == data_crc_bit(d1),
            d3 == data_crc_bit(d2),
            d4 == data_crc_bit(d3),
            d5 == data_crc_bit(d4),
            d6 == data_crc_bit(d5),
            d7 == data_crc_bit(d6),
            d8 == data_crc_bit(d7),
    ;
}

/// Receiver check of the data CRC: running the register over data followed by its
/// transmitted CRC (low byte first) always ends at 0xF0B8.
pub proof fn lemma_data_crc_receiver_check(data: Seq<u8>)
    ensures
        ({
            let crc = !data_crc_register_of(data);
            data_crc_register_of(data.push((crc & 0xFFu16) as u8).push((crc >> 8u16) as u8))
                == 0xF0B8u16
        }),
{
    let r = data_crc_register_of(data);
    let crc = !r;
    let d1 = data.push((crc & 0xFFu16) as u8);
    let d2 = d1.push((crc >> 8u16) as u8);
    assert(d2.drop_last() =~= d1);
    assert(d1.drop_last() =~= data);
    assert(data_crc_register_of(d1) == data_crc_step(r, (crc & 0xFFu16) as u8));
    assert(data_crc_register_of(d2) == data_crc_step(
        data_crc_register_of(d1),
        (crc >> 8u16) as u8,
    ));
    lemma_data_steps_complement(r);
}

} // verus!
