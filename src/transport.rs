//! The arithmetic of MPEG-TS packetizing: the 90 kHz clock, PES lengths and
//! how a PES packet is cut into 188-byte transport packets.
use vstd::prelude::*;

verus! {

/// Payload bytes of one transport packet.
pub const TS_PAYLOAD_SIZE: usize = 184;

/// A PES header with a presentation time stamp.
pub const PES_HEADER_SIZE: usize = 14;

/// An adaptation field that carries a program clock reference.
pub const PCR_FIELD_SIZE: usize = 8;

/// PTS and PCR base values have 33 bits.
pub const CLOCK_MODULUS: u64 = 0x2_0000_0000;

/// Milliseconds on the 90 kHz clock, wrapping at 33 bits.
pub fn ts_clock(ms: u64) -> (r: u64)
    ensures
        r == (ms as int * 90) % (CLOCK_MODULUS as int),
{
    let m = ms % CLOCK_MODULUS;
    let t = m * 90;
    assert((ms as int * 90) % (CLOCK_MODULUS as int) == (m as int * 90) % (CLOCK_MODULUS as int)) by (nonlinear_arith)
        requires
            m as int == ms as int % (CLOCK_MODULUS as int),
            CLOCK_MODULUS == 0x2_0000_0000u64,
    {
        vstd::arithmetic::div_mod::lemma_mul_mod_noop_left(ms as int, 90, CLOCK_MODULUS as int);
    }
    t % CLOCK_MODULUS
}

/// The PES length field for `data_len` bytes of data: the bytes after the
/// field, or 0 (unbounded) where they do not fit in 16 bits.
pub fn pes_packet_len(data_len: usize) -> (r: u16)
    ensures
        data_len + 8 <= 0xFFFF ==> r == data_len + 8,
        data_len + 8 > 0xFFFF ==> r == 0,
{
    if data_len <= 0xFFFF - 8 {
        (data_len + 8) as u16
    } else {
        0
    }
}

/// How much data goes into the first transport packet of a PES packet,
/// after its header and, with a clock reference, the adaptation field.
pub fn first_chunk_len(data_len: usize, with_pcr: bool) -> (r: usize)
    ensures
        r == if data_len <= TS_PAYLOAD_SIZE - PES_HEADER_SIZE - (if with_pcr { PCR_FIELD_SIZE } else { 0usize }) {
            data_len as int
        } else {
            TS_PAYLOAD_SIZE - PES_HEADER_SIZE - (if with_pcr { PCR_FIELD_SIZE } else { 0usize })
        },
        r <= data_len,
{
    let room = TS_PAYLOAD_SIZE - PES_HEADER_SIZE - if with_pcr { PCR_FIELD_SIZE } else { 0 };
    if data_len <= room {
        data_len
    } else {
        room
    }
}

} // verus!
