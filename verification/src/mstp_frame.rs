//! MS/TP frame encoding and the step that extracts the next frame from a
//! receive buffer (ASHRAE 135 Clause 9, Annex G).
use vstd::prelude::*;
use crate::crc::{
    calculate_data_crc, calculate_header_crc, data_crc_register_of, header_crc_register_of,
};
use crate::text::{copy_range, extend_bytes};

verus! {

/// Largest data field accepted in a received frame.
pub const MSTP_MAX_DATA_LENGTH: usize = 501;

/// Size of preamble plus header plus header CRC.
pub const MSTP_HEADER_SIZE: usize = 8;

/// Bytes of an MS/TP frame: preamble, header, header CRC, and for a non-empty
/// data field the data and its CRC (low byte first). The length field holds the
/// low 16 bits of the data length.
pub open spec fn frame_spec(frame_type: u8, dest: u8, source: u8, data: Seq<u8>) -> Seq<u8> {
    let len = data.len() % 65536;
    let header = seq![frame_type, dest, source, (len / 256) as u8, (len % 256) as u8];
    let hcrc = !header_crc_register_of(header);
    let dcrc = !data_crc_register_of(data);
    seq![0x55u8, 0xFFu8] + header + seq![hcrc] + if data.len() == 0 {
        Seq::empty()
    } else {
        data + seq![(dcrc % 256) as u8, (dcrc / 256) as u8]
    }
}

/// Encode an MS/TP frame.
pub fn build_frame(frame_type: u8, dest: u8, source: u8, data: &[u8]) -> (r: Vec<u8>)
    ensures
        r@ == frame_spec(frame_type, dest, source, data@),
{
    let len = data.len() % 65536;
    let mut frame: Vec<u8> = Vec::new();
    frame.push(0x55);
    frame.push(0xFF);
    frame.push(frame_type);
    frame.push(dest);
    frame.push(source);
    frame.push((len / 256) as u8);
    frame.push((len % 256) as u8);
    let header = copy_range(frame.as_slice(), 2, 7);
    let hcrc = calculate_header_crc(header.as_slice());
    frame.push(hcrc);
    if data.len() > 0 {
        extend_bytes(&mut frame, data);
        let dcrc = calculate_data_crc(data);
        frame.push((dcrc % 256) as u8);
        frame.push((dcrc / 256) as u8);
    }
    assert(header@ =~= seq![frame_type, dest, source, (len / 256) as u8, (len % 256) as u8]);
    assert(frame@ =~= frame_spec(frame_type, dest, source, data@));
    frame
}

/// What the receiver finds at the front of its buffer.
pub enum RxStep {
    /// Not enough bytes for a frame; the buffer becomes the given one.
    NeedMore(Seq<u8>),
    /// Header CRC mismatch; the preamble is dropped.
    HeaderCrcError(Seq<u8>),
    /// Data length above the maximum; the preamble is dropped.
    Oversized(Seq<u8>),
    /// Data CRC mismatch; the frame is dropped.
    DataCrcError(Seq<u8>),
    /// A valid frame: type, destination, source, data, and the rest of the buffer.
    Frame(u8, u8, u8, Seq<u8>, Seq<u8>),
}

/// Index of the first preamble (0x55 0xFF) in `b`.
pub open spec fn preamble_at(b: Seq<u8>, i: int) -> bool {
    0 <= i && i + 1 < b.len() && b[i] == 0x55u8 && b[i + 1] == 0xFFu8
}

/// Index of the first preamble at or after `i`.
pub open spec fn first_preamble_from(b: Seq<u8>, i: int) -> Option<int>
    decreases b.len() - i,
{
    if i < 0 || i + 1 >= b.len() {
        None
    } else if preamble_at(b, i) {
        Some(i)
    } else {
        first_preamble_from(b, i + 1)
    }
}

/// Index of the first preamble in `b`.
pub open spec fn first_preamble(b: Seq<u8>) -> Option<int> {
    first_preamble_from(b, 0)
}

/// A preamble found from `i` on lies in the buffer at or after `i`.
pub proof fn lemma_first_preamble_bounds(b: Seq<u8>, i: int)
    requires
        0 <= i,
    ensures
        first_preamble_from(b, i) matches Some(p) ==> i <= p && p + 1 < b.len() && preamble_at(b, p),
    decreases b.len() - i,
{
    if i + 1 < b.len() && !preamble_at(b, i) {
        lemma_first_preamble_bounds(b, i + 1);
    }
}

/// Length of the data field given in a header starting at the preamble.
pub open spec fn header_data_len(b: Seq<u8>) -> int {
    (b[5] as int) * 256 + (b[6] as int)
}

/// The receive step on buffer `buf`, after bytes before the first preamble are
/// dropped (`aligned` is that buffer).
pub open spec fn rx_step_aligned(b: Seq<u8>) -> RxStep {
    if b.len() < 8 {
        RxStep::NeedMore(b)
    } else if !header_crc_register_of(b.subrange(2, 7)) != b[7] {
        RxStep::HeaderCrcError(b.subrange(2, b.len() as int))
    } else if header_data_len(b) > 501 {
        RxStep::Oversized(b.subrange(2, b.len() as int))
    } else {
        let dlen = header_data_len(b);
        let size = if dlen > 0 {
            8 + dlen + 2
        } else {
            8
        };
        if b.len() < size {
            RxStep::NeedMore(b)
        } else if dlen > 0 && (b[8 + dlen + 1] as int) * 256 + (b[8 + dlen] as int)
            != !data_crc_register_of(b.subrange(8, 8 + dlen)) as int {
            RxStep::DataCrcError(b.subrange(size, b.len() as int))
        } else {
            RxStep::Frame(
                b[2],
                b[3],
                b[4],
                if dlen > 0 {
                    b.subrange(8, 8 + dlen)
                } else {
                    Seq::empty()
                },
                b.subrange(size, b.len() as int),
            )
        }
    }
}

/// The receive step on `buf`: without a preamble only the last byte is kept.
pub open spec fn rx_step(buf: Seq<u8>) -> RxStep {
    match first_preamble(buf) {
        None => RxStep::NeedMore(
            if buf.len() > 1 {
                buf.subrange(buf.len() - 1, buf.len() as int)
            } else {
                buf
            },
        ),
        Some(p) => rx_step_aligned(buf.subrange(p, buf.len() as int)),
    }
}

/// Whether a step counts as a frame whose header was valid.
pub open spec fn step_counts_valid_header(b: Seq<u8>) -> bool {
    b.len() >= 8 && !header_crc_register_of(b.subrange(2, 7)) == b[7] && header_data_len(b) <= 501
}

/// Whether the buffer, aligned at a preamble, starts with a header whose CRC
/// checks out and whose data length is acceptable.
pub fn header_counts(b: &[u8]) -> (r: bool)
    requires
        b@.len() >= 8,
    ensures
        r == step_counts_valid_header(b@),
{
    let header = copy_range(b, 2, 7);
    let hcrc = calculate_header_crc(header.as_slice());
    let dlen: usize = (b[5] as usize) * 256 + (b[6] as usize);
    hcrc == b[7] && dlen <= MSTP_MAX_DATA_LENGTH
}

/// Position of the first preamble in `buf`.
pub fn find_preamble(buf: &[u8]) -> (r: Option<usize>)
    ensures
        match r {
            Some(i) => first_preamble(buf@) == Some(i as int) && i + 1 < buf@.len(),
            None => first_preamble(buf@) is None,
        },
{
    let mut i: usize = 0;
    while buf.len() > 1 && i < buf.len() - 1
        invariant
            first_preamble_from(buf@, 0) == first_preamble_from(buf@, i as int),
        decreases buf@.len() - i,
    {
        if buf[i] == 0x55 && buf[i + 1] == 0xFF {
            return Some(i);
        }
        i = i + 1;
    }
    None
}

/// Whether the data CRC bytes of the frame at the front of `b` (data length
/// `dlen`) match its data.
fn data_crc_ok(b: &[u8], dlen: usize) -> (r: bool)
    requires
        dlen > 0,
        8 + dlen + 2 <= b.len(),
    ensures
        r == ((b@[8 + dlen + 1] as int) * 256 + (b@[8 + dlen] as int) == !data_crc_register_of(
            b@.subrange(8, 8 + dlen as int),
        ) as int),
{
    let data = copy_range(b, 8, 8 + dlen);
    let crc = calculate_data_crc(data.as_slice());
    let received: u16 = (b[8 + dlen + 1] as u16) * 256 + (b[8 + dlen] as u16);
    received == crc
}

fn rx_next_aligned(b: Vec<u8>) -> (r: (u8, Option<(u8, u8, u8, Vec<u8>)>, Vec<u8>))
    ensures
        ({
            let (kind, frame, rest) = r;
            match rx_step_aligned(b@) {
                RxStep::NeedMore(x) => kind == 0 && frame is None && rest@ == x,
                RxStep::HeaderCrcError(x) => kind == 1 && frame is None && rest@ == x,
                RxStep::Oversized(x) => kind == 2 && frame is None && rest@ == x,
                RxStep::DataCrcError(x) => kind == 3 && frame is None && rest@ == x,
                RxStep::Frame(t, d, s, data, x) => kind == 4 && rest@ == x && (frame matches Some(
                    (t2, d2, s2, data2),
                ) && t2 == t && d2 == d && s2 == s && data2@ == data),
            }
        }),
{
    if b.len() < 8 {
        return (0, None, b);
    }
    let header = copy_range(b.as_slice(), 2, 7);
    let hcrc = calculate_header_crc(header.as_slice());
    if hcrc != b[7] {
        return (1, None, copy_range(b.as_slice(), 2, b.len()));
    }
    let dlen: usize = (b[5] as usize) * 256 + (b[6] as usize);
    if dlen > MSTP_MAX_DATA_LENGTH {
        return (2, None, copy_range(b.as_slice(), 2, b.len()));
    }
    let size = if dlen > 0 {
        8 + dlen + 2
    } else {
        8
    };
    if b.len() < size {
        return (0, None, b);
    }
    if dlen > 0 && !data_crc_ok(b.as_slice(), dlen) {
        return (3, None, copy_range(b.as_slice(), size, b.len()));
    }
    let data = if dlen > 0 {
        copy_range(b.as_slice(), 8, 8 + dlen)
    } else {
        Vec::new()
    };
    assert(dlen == 0 ==> data@ =~= Seq::<u8>::empty());
    (4, Some((b[2], b[3], b[4], data)), copy_range(b.as_slice(), size, b.len()))
}

/// Take the next receive step on `buf`: returns the step's kind (0 need more,
/// 1 header CRC error, 2 oversized, 3 data CRC error, 4 frame), the frame's
/// type, destination, source and data for kind 4, and the remaining buffer.
pub fn rx_next(buf: &[u8]) -> (r: (u8, Option<(u8, u8, u8, Vec<u8>)>, Vec<u8>))
    ensures
        ({
            let (kind, frame, rest) = r;
            match rx_step(buf@) {
                RxStep::NeedMore(b) => kind == 0 && frame is None && rest@ == b,
                RxStep::HeaderCrcError(b) => kind == 1 && frame is None && rest@ == b,
                RxStep::Oversized(b) => kind == 2 && frame is None && rest@ == b,
                RxStep::DataCrcError(b) => kind == 3 && frame is None && rest@ == b,
                RxStep::Frame(t, d, s, data, b) => kind == 4 && rest@ == b && (frame matches Some(
                    (t2, d2, s2, data2),
                ) && t2 == t && d2 == d && s2 == s && data2@ == data),
            }
        }),
{
    match find_preamble(buf) {
        None => {
            if buf.len() > 1 {
                (0, None, copy_range(buf, buf.len() - 1, buf.len()))
            } else {
                (0, None, copy_range(buf, 0, buf.len()))
            }
        },
        Some(p) => {
            let b = copy_range(buf, p, buf.len());
            assert(buf@.len() <= 1 ==> buf@.subrange(0, buf@.len() as int) =~= buf@);
            rx_next_aligned(b)
        },
    }
}

/// Every step but `NeedMore` consumes bytes from the buffer.
pub proof fn lemma_rx_step_shrinks(buf: Seq<u8>)
    ensures
        match rx_step(buf) {
            RxStep::NeedMore(_) => true,
            RxStep::HeaderCrcError(b) => b.len() < buf.len(),
            RxStep::Oversized(b) => b.len() < buf.len(),
            RxStep::DataCrcError(b) => b.len() < buf.len(),
            RxStep::Frame(_, _, _, _, b) => b.len() < buf.len(),
        },
{
    lemma_first_preamble_bounds(buf, 0);
}

/// A frame built by `build_frame` with at most 501 data bytes is received back
/// whole: the receive step yields its type, destination, source and data, and
/// nothing is left over.
pub proof fn lemma_frame_roundtrip(frame_type: u8, dest: u8, source: u8, data: Seq<u8>)
    requires
        data.len() <= 501,
    ensures
        rx_step(frame_spec(frame_type, dest, source, data)) == RxStep::Frame(
            frame_type,
            dest,
            source,
            data,
            Seq::empty(),
        ),
{
    let f = frame_spec(frame_type, dest, source, data);
    let len = data.len() % 65536;
    let header = seq![frame_type, dest, source, (len / 256) as u8, (len % 256) as u8];
    assert(preamble_at(f, 0));
    assert(first_preamble(f) == Some(0int));
    assert(f.subrange(0, f.len() as int) =~= f);
    assert(f.subrange(2, 7) =~= header);
    assert(header_data_len(f) == data.len());
    let dlen = data.len() as int;
    let size = if dlen > 0 {
        8 + dlen + 2
    } else {
        8
    };
    assert(f.len() == size);
    if dlen > 0 {
        assert(f.subrange(8, 8 + dlen) =~= data);
        let dcrc = !data_crc_register_of(data);
        assert(f[8 + dlen] == (dcrc % 256) as u8);
        assert(f[8 + dlen + 1] == (dcrc / 256) as u8);
        assert((f[8 + dlen + 1] as int) * 256 + (f[8 + dlen] as int) == dcrc as int);
    } else {
        assert(data =~= Seq::<u8>::empty());
    }
    assert(f[7] == !header_crc_register_of(header));
    assert(f[2] == frame_type && f[3] == dest && f[4] == source);
    assert(f.subrange(size, f.len() as int) =~= Seq::<u8>::empty());
    assert(rx_step_aligned(f) == RxStep::Frame(frame_type, dest, source, data, Seq::empty()));
}

} // verus!
