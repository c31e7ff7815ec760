//! Parsing and writing of TCP segments.
//!
//! A segment interprets a byte buffer according to the fixed TCP header
//! layout: source port (offset 0, 2 bytes), destination port (2, 2),
//! sequence number (4, 4), acknowledgement number (8, 4), data offset /
//! reserved bits / `NS` flag (12, 1), remaining flags (13, 1), window size
//! (14, 2), checksum (16, 2), urgent pointer (18, 2), then options up to the
//! header length and the payload after it.  All multi-byte fields are
//! big-endian.

use vstd::prelude::*;
use vstd::slice::slice_subrange;
use crate::bytes::{be16_at, be32_at, be16_put, be32_put, read_be16, read_be32, write_be16,
    write_be32, lemma_be16_put_at, lemma_be32_put_at};
use crate::checksum::{Ipv4Addr, ChecksumProto, checksum_of, checksum_valid, compute_checksum};

verus! {

/// The TCP header flags, with the exception of `NS`.
///
/// These values describe the header byte at offset 13, which carries every
/// flag besides `NS` (`NS` sits in the low bit of the data-offset byte).
#[derive(Clone, Copy, Debug, PartialEq, Eq, Structural)]
pub struct Flags {
    bits: u8,
}

impl View for Flags {
    type V = u8;

    closed spec fn view(&self) -> u8 {
        self.bits
    }
}

impl Flags {
    /// Congestion window reduced.
    pub fn cwr() -> (r: Flags)
        ensures
            r@ == 0x80u8,
    {
        Flags { bits: 0x80 }
    }

    /// ECN-echo.
    pub fn ece() -> (r: Flags)
        ensures
            r@ == 0x40u8,
    {
        Flags { bits: 0x40 }
    }

    /// Urgent pointer.
    pub fn urg() -> (r: Flags)
        ensures
            r@ == 0x20u8,
    {
        Flags { bits: 0x20 }
    }

    /// The acknowledgement number field is valid.
    pub fn ack() -> (r: Flags)
        ensures
            r@ == 0x10u8,
    {
        Flags { bits: 0x10 }
    }

    /// Push flag.
    pub fn psh() -> (r: Flags)
        ensures
            r@ == 0x08u8,
    {
        Flags { bits: 0x08 }
    }

    /// Reset the connection.
    pub fn rst() -> (r: Flags)
        ensures
            r@ == 0x04u8,
    {
        Flags { bits: 0x04 }
    }

    /// SYN flag.
    pub fn syn() -> (r: Flags)
        ensures
            r@ == 0x02u8,
    {
        Flags { bits: 0x02 }
    }

    /// FIN flag.
    pub fn fin() -> (r: Flags)
        ensures
            r@ == 0x01u8,
    {
        Flags { bits: 0x01 }
    }

    /// The empty flag set.
    pub fn empty() -> (r: Flags)
        ensures
            r@ == 0u8,
    {
        Flags { bits: 0 }
    }

    /// Builds a flag set from a raw header byte.  Every bit of the byte is a
    /// defined flag, so nothing is truncated away.
    pub fn from_bits_truncate(bits: u8) -> (r: Flags)
        ensures
            r@ == bits,
    {
        Flags { bits }
    }

    /// The raw header byte this flag set stands for.
    pub fn bits(&self) -> (r: u8)
        ensures
            r == self@,
    {
        self.bits
    }

    /// The union of two flag sets.
    pub fn union(self, other: Flags) -> (r: Flags)
        ensures
            r@ == (self@ | other@),
    {
        Flags { bits: self.bits | other.bits }
    }
}

/// Describes the errors which may occur while handling TCP segments.
#[derive(Clone, Copy, Debug, PartialEq, Eq, Structural)]
pub enum TcpError {
    /// Checksum verification over the received bytes did not yield zero.
    Checksum,
    /// A payload was specified for the segment, but no room is left for even
    /// one payload byte.
    EmptyPayload,
    /// The data-offset field implies a header shorter than 20 bytes or longer
    /// than the segment.
    HeaderLen,
    /// The MSS option carries a value below the sanity floor.
    MssOption,
    /// The remaining segment length cannot accommodate the MSS option.
    MssRemaining,
    /// The given buffer is shorter than the length the segment needs.
    SliceTooShort,
}

/// The source port: bytes 0 and 1.
pub open spec fn spec_source_port(b: Seq<u8>) -> u16 {
    be16_at(b, 0)
}

/// The destination port: bytes 2 and 3.
pub open spec fn spec_destination_port(b: Seq<u8>) -> u16 {
    be16_at(b, 2)
}

/// The sequence number: bytes 4 through 7.
pub open spec fn spec_sequence_number(b: Seq<u8>) -> u32 {
    be32_at(b, 4)
}

/// The acknowledgement number: bytes 8 through 11.
pub open spec fn spec_ack_number(b: Seq<u8>) -> u32 {
    be32_at(b, 8)
}

/// The header length in bytes: the high four bits of byte 12, times four.
pub open spec fn spec_header_len(b: Seq<u8>) -> u8 {
    (b[12] as int / 16 * 4) as u8
}

/// The reserved bits of byte 12 (bits 1 through 3, in place).
pub open spec fn spec_rsvd(b: Seq<u8>) -> u8 {
    (b[12] as int % 16 - b[12] as int % 2) as u8
}

/// The `NS` flag: the low bit of byte 12.
pub open spec fn spec_ns(b: Seq<u8>) -> bool {
    b[12] as int % 2 == 1
}

/// The flags byte at offset 13 (all flags except `NS`).
pub open spec fn spec_flags_after_ns(b: Seq<u8>) -> u8 {
    b[13]
}

/// The window size: bytes 14 and 15.
pub open spec fn spec_window_size(b: Seq<u8>) -> u16 {
    be16_at(b, 14)
}

/// The checksum field: bytes 16 and 17.
pub open spec fn spec_checksum(b: Seq<u8>) -> u16 {
    be16_at(b, 16)
}

/// The urgent pointer: bytes 18 and 19.
pub open spec fn spec_urgent_pointer(b: Seq<u8>) -> u16 {
    be16_at(b, 18)
}

/// The segment length as a 16-bit value, saturating at 0xffff.
pub open spec fn spec_len(b: Seq<u8>) -> u16 {
    if b.len() > 0xffff {
        0xffff
    } else {
        b.len() as u16
    }
}

/// Whether the header length that byte 12 declares is acceptable: at least
/// the 20 fixed bytes, and no longer than either 60 bytes or the segment.
pub open spec fn spec_header_len_ok(b: Seq<u8>) -> bool {
    &&& spec_header_len(b) >= 20
    &&& spec_header_len(b) as int <= if spec_len(b) > 60 {
        60
    } else {
        spec_len(b) as int
    }
}

/// The sanity floor for a Maximum Segment Size option value.
pub open spec fn spec_mss_min() -> u16 {
    100
}

/// One-pass scan of the options bytes `o` from index `i` for a Maximum
/// Segment Size option.
///
/// Option kind 0 (end of list) stops the scan with nothing found; kind 1
/// (no-op) advances one byte; kind 2 is the MSS option, whose 16-bit value
/// two bytes later is the result — unless it is under the sanity floor,
/// which is an error.  Any other kind is skipped over by its declared total
/// length, without validating it; a declared length of zero, which could
/// never advance the scan, stops it with nothing found.  The scan also stops
/// once fewer than the four bytes of an MSS option remain.
pub open spec fn spec_parse_mss(o: Seq<u8>, i: int) -> Result<Option<u16>, TcpError>
    decreases o.len() - i,
{
    if i < 0 || i + 3 >= o.len() {
        Result::<Option<u16>, TcpError>::Ok(None)
    } else if o[i] == 0 {
        Result::<Option<u16>, TcpError>::Ok(None)
    } else if o[i] == 1 {
        spec_parse_mss(o, i + 1)
    } else if o[i] == 2 {
        if be16_at(o, i + 2) < spec_mss_min() {
            Result::<Option<u16>, TcpError>::Err(TcpError::MssOption)
        } else {
            Result::<Option<u16>, TcpError>::Ok(Some(be16_at(o, i + 2)))
        }
    } else if o[i + 1] == 0 {
        Result::<Option<u16>, TcpError>::Ok(None)
    } else if i + o[i + 1] as int > o.len() {
        Result::<Option<u16>, TcpError>::Ok(None)
    } else {
        spec_parse_mss(o, i + o[i + 1] as int)
    }
}

/// A found MSS value is never below the sanity floor.
pub proof fn lemma_parse_mss_floor(o: Seq<u8>, i: int)
    ensures
        forall|v: u16| spec_parse_mss(o, i) == Result::<Option<u16>, TcpError>::Ok(Some(v))
            ==> v >= spec_mss_min(),
    decreases o.len() - i,
{
    if 0 <= i && i + 3 < o.len() {
        if o[i] == 1 {
            lemma_parse_mss_floor(o, i + 1);
        } else if o[i] != 0 && o[i] != 2 && o[i + 1] != 0 && i + o[i + 1] as int <= o.len() {
            lemma_parse_mss_floor(o, i + o[i + 1] as int);
        }
    }
}

/// Whether `b` parses as a TCP segment: long enough for the fixed header,
/// an acceptable declared header length, and — when verification addresses
/// are supplied — a checksum over the bytes as received that comes out zero.
pub open spec fn spec_from_bytes_ok(b: Seq<u8>, verify: Option<(u32, u32)>) -> bool {
    &&& b.len() >= 20
    &&& spec_header_len_ok(b)
    &&& match verify {
        Some((src, dst)) => checksum_valid(b, src, dst, 6),
        None => true,
    }
}

/// How many option bytes the write path emits: the 4-byte MSS option when
/// one is requested, nothing otherwise.
pub open spec fn spec_options_len(mss_option: Option<u16>) -> int {
    if mss_option is Some {
        4
    } else {
        0
    }
}

/// The header length the write path produces: the 20 fixed bytes plus the
/// options.
pub open spec fn spec_base_len(mss_option: Option<u16>) -> int {
    20 + spec_options_len(mss_option)
}

/// How many payload bytes are available to read: the smaller of the payload
/// buffer's length and the caller-declared maximum.
pub open spec fn spec_avail(p_len: int, max_read: int) -> int {
    if p_len > max_read {
        max_read
    } else {
        p_len
    }
}

/// How many payload bytes the write path copies: the smallest of the room
/// left in the (16-bit-saturated) buffer after the header, the MSS budget
/// left after the option's own cost, and the available payload bytes.
pub open spec fn spec_room(buf_len: int, mss_option: Option<u16>, mss_remaining: u16, avail: int) -> int {
    let base = spec_base_len(mss_option);
    let cap16: int = if buf_len > 0xffff {
        0xffff
    } else {
        buf_len
    };
    let mss_left = mss_remaining - spec_options_len(mss_option);
    let room1 = cap16 - base;
    let room2 = if room1 > mss_left {
        mss_left
    } else {
        room1
    };
    if room2 > avail {
        avail
    } else {
        room2
    }
}

/// What the write path promises of segment bytes `v` regardless of staging:
/// every field it writes reads back, the declared header length is
/// acceptable, the MSS option bytes (when requested) follow the fixed
/// header, and the payload bytes `pay` (when any) sit right after them.
pub open spec fn spec_segment_core(
    seq: u32,
    ack: u32,
    flags: u8,
    win: u16,
    mss_option: Option<u16>,
    pay: Option<Seq<u8>>,
    v: Seq<u8>,
) -> bool {
    let base = spec_base_len(mss_option);
    let plen: int = match pay {
        Some(s) => s.len() as int,
        None => 0,
    };
    &&& v.len() == base + plen
    &&& v.len() <= 0xffff
    &&& spec_sequence_number(v) == seq
    &&& spec_ack_number(v) == ack
    &&& spec_header_len(v) == base
    &&& spec_rsvd(v) == 0
    &&& !spec_ns(v)
    &&& spec_header_len_ok(v)
    &&& spec_flags_after_ns(v) == flags
    &&& spec_window_size(v) == win
    &&& spec_urgent_pointer(v) == 0
    &&& match mss_option {
        Some(m) => v[20] == 2 && v[21] == 4 && be16_at(v, 22) == m,
        None => true,
    }
    &&& match pay {
        Some(s) => v.subrange(base, v.len() as int) == s,
        None => true,
    }
}

/// What the staged write promises of the bytes `v` it builds over original
/// buffer bytes `orig`: the written fields read back, and the ports and the
/// checksum field keep whatever `orig` held, awaiting `finalize`.
pub open spec fn spec_incomplete_written(
    orig: Seq<u8>,
    seq: u32,
    ack: u32,
    flags: u8,
    win: u16,
    mss_option: Option<u16>,
    pay: Option<Seq<u8>>,
    v: Seq<u8>,
) -> bool {
    &&& spec_segment_core(seq, ack, flags, win, mss_option, pay, v)
    &&& v.len() <= orig.len()
    &&& spec_source_port(v) == spec_source_port(orig)
    &&& spec_destination_port(v) == spec_destination_port(orig)
    &&& spec_checksum(v) == spec_checksum(orig)
}

/// A staged TCP segment, written but for the source port, destination port,
/// and checksum fields, which only a layer holding addressing information
/// can fill in, through [`Incomplete::finalize`].  The distinct type keeps a
/// half-written segment from being used as a finished one.
#[derive(Debug)]
pub struct Incomplete {
    inner: TcpSegment,
}

impl View for Incomplete {
    type V = Seq<u8>;

    closed spec fn view(&self) -> Seq<u8> {
        self.inner@
    }
}

/// Interprets the bytes it owns as a TCP segment.
#[derive(Debug)]
pub struct TcpSegment {
    bytes: Vec<u8>,
}

impl View for TcpSegment {
    type V = Seq<u8>;

    closed spec fn view(&self) -> Seq<u8> {
        self.bytes@
    }
}

impl TcpSegment {
    /// Interprets `bytes` as a TCP segment without any validity checks.
    /// Field accessors demand in their preconditions whatever length the
    /// accessed offsets need.
    pub fn from_bytes_unchecked(bytes: Vec<u8>) -> (r: Self)
        ensures
            r@ == bytes@,
    {
        TcpSegment { bytes }
    }

    /// Consumes the segment and hands back its backing bytes.
    pub fn into_bytes(self) -> (r: Vec<u8>)
        ensures
            r@ == self@,
    {
        self.bytes
    }

    /// Returns the source port.
    pub fn source_port(&self) -> (r: u16)
        requires
            self@.len() >= 2,
        ensures
            r == spec_source_port(self@),
    {
        read_be16(&self.bytes, 0)
    }

    /// Returns the destination port.
    pub fn destination_port(&self) -> (r: u16)
        requires
            self@.len() >= 4,
        ensures
            r == spec_destination_port(self@),
    {
        read_be16(&self.bytes, 2)
    }

    /// Returns the sequence number.
    pub fn sequence_number(&self) -> (r: u32)
        requires
            self@.len() >= 8,
        ensures
            r == spec_sequence_number(self@),
    {
        read_be32(&self.bytes, 4)
    }

    /// Returns the acknowledgement number (meaningful only when the `ACK`
    /// flag is set).
    pub fn ack_number(&self) -> (r: u32)
        requires
            self@.len() >= 12,
        ensures
            r == spec_ack_number(self@),
    {
        read_be32(&self.bytes, 8)
    }

    /// Returns the header length, the value of the reserved bits, and
    /// whether the `NS` flag is set.
    pub fn header_len_rsvd_ns(&self) -> (r: (u8, u8, bool))
        requires
            self@.len() >= 13,
        ensures
            r.0 == spec_header_len(self@),
            r.1 == spec_rsvd(self@),
            r.2 == spec_ns(self@),
    {
        let value = self.bytes[12];
        let data_offset = value / 16;
        let header_len = data_offset * 4;
        let rsvd = value % 16 - value % 2;
        let ns = value % 2 == 1;
        (header_len, rsvd, ns)
    }

    /// Returns the length of the header.
    pub fn header_len(&self) -> (r: u8)
        requires
            self@.len() >= 13,
        ensures
            r == spec_header_len(self@),
    {
        self.header_len_rsvd_ns().0
    }

    /// Returns the TCP header flags, with the exception of `NS`.
    pub fn flags_after_ns(&self) -> (r: Flags)
        requires
            self@.len() >= 14,
        ensures
            r@ == spec_flags_after_ns(self@),
    {
        Flags::from_bits_truncate(self.bytes[13])
    }

    /// Returns the value of the `window size` header field.
    pub fn window_size(&self) -> (r: u16)
        requires
            self@.len() >= 16,
        ensures
            r == spec_window_size(self@),
    {
        read_be16(&self.bytes, 14)
    }

    /// Returns the value of the `checksum` header field.
    pub fn checksum(&self) -> (r: u16)
        requires
            self@.len() >= 18,
        ensures
            r == spec_checksum(self@),
    {
        read_be16(&self.bytes, 16)
    }

    /// Returns the value of the `urgent pointer` header field (meaningful
    /// only when the `URG` flag is set).
    pub fn urgent_pointer(&self) -> (r: u16)
        requires
            self@.len() >= 20,
        ensures
            r == spec_urgent_pointer(self@),
    {
        read_be16(&self.bytes, 18)
    }

    /// Returns the length of the segment, saturating at 0xffff.
    pub fn len(&self) -> (r: u16)
        ensures
            r == spec_len(self@),
    {
        if self.bytes.len() > 0xffff {
            0xffff
        } else {
            self.bytes.len() as u16
        }
    }

    /// Returns the TCP header options bytes, between the fixed header and
    /// the caller-supplied header length, which the caller must have
    /// validated.
    pub fn options_unchecked(&self, header_len: usize) -> (r: &[u8])
        requires
            20 <= header_len <= self@.len(),
        ensures
            r@ == self@.subrange(20, header_len as int),
    {
        slice_subrange(self.bytes.as_slice(), 20, header_len)
    }

    /// Returns the payload: the bytes after the caller-supplied header
    /// length, which the caller must have validated.
    pub fn payload_unchecked(&self, header_len: usize) -> (r: &[u8])
        requires
            header_len <= self@.len(),
        ensures
            r@ == self@.subrange(header_len as int, self@.len() as int),
    {
        slice_subrange(self.bytes.as_slice(), header_len, self.bytes.len())
    }

    /// Returns the payload of the segment.
    pub fn payload(&self) -> (r: &[u8])
        requires
            self@.len() >= 13,
            spec_header_len(self@) as int <= self@.len(),
        ensures
            r@ == self@.subrange(spec_header_len(self@) as int, self@.len() as int),
    {
        let header_len = self.header_len();
        self.payload_unchecked(header_len as usize)
    }

    /// Returns the length of the payload: the saturating segment length
    /// minus the header length.
    pub fn payload_len(&self) -> (r: u16)
        requires
            self@.len() >= 13,
            spec_header_len(self@) <= spec_len(self@),
        ensures
            r == spec_len(self@) - spec_header_len(self@),
    {
        self.len() - self.header_len() as u16
    }

    /// Computes the TCP checksum of the segment between the given addresses.
    pub fn compute_checksum(&self, src_addr: Ipv4Addr, dst_addr: Ipv4Addr) -> (r: u16)
        requires
            self@.len() <= 0xffff,
        ensures
            r == checksum_of(self@, src_addr@, dst_addr@, 6),
    {
        compute_checksum(&self.bytes, src_addr, dst_addr, ChecksumProto::Tcp)
    }

    /// Parses the TCP header options (only MSS is supported).
    ///
    /// Returns the MSS value if the option is present, `None` if it is not,
    /// and an error if it carries a value below the sanity floor.  The
    /// caller must have validated `header_len`.
    pub fn parse_mss_option_unchecked(&self, header_len: usize) -> (r: Result<
        Option<u16>,
        TcpError,
    >)
        requires
            20 <= header_len <= self@.len(),
        ensures
            r == spec_parse_mss(self@.subrange(20, header_len as int), 0),
            forall|v: u16| r == Result::<Option<u16>, TcpError>::Ok(Some(v)) ==> v
                >= spec_mss_min(),
    {
        proof {
            lemma_parse_mss_floor(self@.subrange(20, header_len as int), 0);
        }
        let o = self.options_unchecked(header_len);
        let o_len: usize = o.len();
        let mut i: usize = 0;
        while i < o_len && o_len - i > 3
            invariant
                o@ == self@.subrange(20, header_len as int),
                o_len == o@.len(),
                spec_parse_mss(o@, 0) == spec_parse_mss(o@, i as int),
            decreases o_len - i,
        {
            let kind = *vstd::slice::slice_index_get(o, i);
            if kind == 0 {
                return Ok(None);
            } else if kind == 1 {
                i = i + 1;
            } else if kind == 2 {
                let hi = *vstd::slice::slice_index_get(o, i + 2);
                let lo = *vstd::slice::slice_index_get(o, i + 3);
                let mss: u16 = hi as u16 * 256 + lo as u16;
                proof {
                    assert(mss == be16_at(o@, i as int + 2));
                }
                if mss < 100 {
                    return Err(TcpError::MssOption);
                }
                return Ok(Some(mss));
            } else {
                let l = *vstd::slice::slice_index_get(o, i + 1);
                if l == 0 {
                    return Ok(None);
                }
                if l as usize >= o_len - i {
                    proof {
                        assert(spec_parse_mss(o@, i as int + l as int)
                            == Result::<Option<u16>, TcpError>::Ok(None));
                    }
                    return Ok(None);
                }
                i = i + l as usize;
            }
        }
        Ok(None)
    }

    /// Attempts to interpret `bytes` as a TCP segment, checking the
    /// validity of the header fields.
    ///
    /// `verify_checksum` must carry the source and destination addresses of
    /// the enclosing IPv4 packet if the TCP checksum is to be validated.
    pub fn from_bytes(bytes: Vec<u8>, verify_checksum: Option<(Ipv4Addr, Ipv4Addr)>) -> (r:
        Result<TcpSegment, TcpError>)
        requires
            verify_checksum is Some ==> bytes@.len() <= 0xffff,
        ensures
            bytes@.len() < 20 ==> r == Result::<TcpSegment, TcpError>::Err(
                TcpError::SliceTooShort,
            ),
            bytes@.len() >= 20 && !spec_header_len_ok(bytes@) ==> r == Result::<
                TcpSegment,
                TcpError,
            >::Err(TcpError::HeaderLen),
            bytes@.len() >= 20 && spec_header_len_ok(bytes@) && (match verify_checksum {
                Some((src, dst)) => !checksum_valid(bytes@, src@, dst@, 6),
                None => false,
            }) ==> r == Result::<TcpSegment, TcpError>::Err(TcpError::Checksum),
            spec_from_bytes_ok(
                bytes@,
                match verify_checksum {
                    Some((src, dst)) => Some((src@, dst@)),
                    None => None,
                },
            ) <==> r is Ok,
            r is Ok ==> r.unwrap()@ == bytes@,
    {
        if bytes.len() < 20 {
            return Err(TcpError::SliceTooShort);
        }
        let segment = Self::from_bytes_unchecked(bytes);
        let header_len = segment.header_len();
        let len16 = segment.len();
        let limit: u16 = if len16 > 60 {
            60
        } else {
            len16
        };
        if header_len < 20 || header_len as u16 > limit {
            return Err(TcpError::HeaderLen);
        }
        if let Some((src_addr, dst_addr)) = verify_checksum {
            if segment.compute_checksum(src_addr, dst_addr) != 0 {
                return Err(TcpError::Checksum);
            }
        }
        Ok(segment)
    }
}

impl TcpSegment {
    /// Sets the source port.
    pub fn set_source_port(&mut self, value: u16)
        requires
            old(self)@.len() >= 2,
        ensures
            final(self)@ == be16_put(old(self)@, 0, value),
            final(self)@.len() == old(self)@.len(),
            spec_source_port(final(self)@) == value,
    {
        write_be16(&mut self.bytes, 0, value);
        proof {
            lemma_be16_put_at(old(self)@, 0, value);
        }
    }

    /// Sets the destination port.
    pub fn set_destination_port(&mut self, value: u16)
        requires
            old(self)@.len() >= 4,
        ensures
            final(self)@ == be16_put(old(self)@, 2, value),
            final(self)@.len() == old(self)@.len(),
            spec_destination_port(final(self)@) == value,
    {
        write_be16(&mut self.bytes, 2, value);
        proof {
            lemma_be16_put_at(old(self)@, 2, value);
        }
    }

    /// Sets the value of the sequence number field.
    pub fn set_sequence_number(&mut self, value: u32)
        requires
            old(self)@.len() >= 8,
        ensures
            final(self)@ == be32_put(old(self)@, 4, value),
            final(self)@.len() == old(self)@.len(),
            spec_sequence_number(final(self)@) == value,
    {
        write_be32(&mut self.bytes, 4, value);
        proof {
            lemma_be32_put_at(old(self)@, 4, value);
        }
    }

    /// Sets the value of the acknowledgement number field.
    pub fn set_ack_number(&mut self, value: u32)
        requires
            old(self)@.len() >= 12,
        ensures
            final(self)@ == be32_put(old(self)@, 8, value),
            final(self)@.len() == old(self)@.len(),
            spec_ack_number(final(self)@) == value,
    {
        write_be32(&mut self.bytes, 8, value);
        proof {
            lemma_be32_put_at(old(self)@, 8, value);
        }
    }

    /// Writes byte 12: the data-offset field from `header_len` (which should
    /// be a multiple of four no larger than 60), cleared reserved bits, and
    /// the `NS` flag.  A `header_len` beyond 63 is truncated to the byte, as
    /// the wire format forces.
    pub fn set_header_len_rsvd_ns(&mut self, header_len: u8, ns: bool)
        requires
            old(self)@.len() >= 13,
        ensures
            final(self)@ == old(self)@.update(
                12,
                ((header_len as int * 4) % 256 + if ns {
                    1int
                } else {
                    0int
                }) as u8,
            ),
            final(self)@.len() == old(self)@.len(),
            header_len % 4 == 0 && header_len <= 60 ==> {
                &&& spec_header_len(final(self)@) == header_len
                &&& spec_rsvd(final(self)@) == 0
                &&& spec_ns(final(self)@) == ns
            },
    {
        let mut value: u8 = ((header_len as u16 * 4) % 256) as u8;
        if ns {
            proof {
                assert(header_len as int * 4 % 256 % 2 == 0) by (nonlinear_arith);
            }
            value = value + 1;
        }
        self.bytes[12] = value;
        proof {
            if header_len % 4 == 0 && header_len <= 60 {
                let m = header_len as int / 4;
                assert(header_len as int == 4 * m);
                assert(header_len as int * 4 == 16 * m);
                assert(16 * m < 256);
                assert((16 * m) % 256 == 16 * m) by (nonlinear_arith)
                    requires
                        0 <= 16 * m < 256,
                ;
                let e: int = if ns {
                    1
                } else {
                    0
                };
                assert((16 * m + e) / 16 == m && (16 * m + e) % 16 == e) by (nonlinear_arith)
                    requires
                        0 <= e < 16,
                        0 <= m,
                ;
                assert(spec_header_len(final(self)@) == 4 * m);
            }
        }
    }

    /// Sets the header byte containing every TCP flag except `NS`.
    pub fn set_flags_after_ns(&mut self, flags: Flags)
        requires
            old(self)@.len() >= 14,
        ensures
            final(self)@ == old(self)@.update(13, flags@),
            final(self)@.len() == old(self)@.len(),
            spec_flags_after_ns(final(self)@) == flags@,
    {
        self.bytes[13] = flags.bits();
    }

    /// Sets the value of the `window size` field.
    pub fn set_window_size(&mut self, value: u16)
        requires
            old(self)@.len() >= 16,
        ensures
            final(self)@ == be16_put(old(self)@, 14, value),
            final(self)@.len() == old(self)@.len(),
            spec_window_size(final(self)@) == value,
    {
        write_be16(&mut self.bytes, 14, value);
        proof {
            lemma_be16_put_at(old(self)@, 14, value);
        }
    }

    /// Sets the value of the `checksum` field.
    pub fn set_checksum(&mut self, value: u16)
        requires
            old(self)@.len() >= 18,
        ensures
            final(self)@ == be16_put(old(self)@, 16, value),
            final(self)@.len() == old(self)@.len(),
            spec_checksum(final(self)@) == value,
    {
        write_be16(&mut self.bytes, 16, value);
        proof {
            lemma_be16_put_at(old(self)@, 16, value);
        }
    }

    /// Sets the value of the `urgent pointer` field.
    pub fn set_urgent_pointer(&mut self, value: u16)
        requires
            old(self)@.len() >= 20,
        ensures
            final(self)@ == be16_put(old(self)@, 18, value),
            final(self)@.len() == old(self)@.len(),
            spec_urgent_pointer(final(self)@) == value,
    {
        write_be16(&mut self.bytes, 18, value);
        proof {
            lemma_be16_put_at(old(self)@, 18, value);
        }
    }

    /// Returns a mutable view of the bytes after the caller-supplied header
    /// length, which the caller must have validated.
    pub fn payload_mut_unchecked(&mut self, header_len: usize) -> (r: &mut [u8])
        requires
            header_len <= old(self)@.len(),
        ensures
            r@ == old(self)@.subrange(header_len as int, old(self)@.len() as int),
            final(self)@ == old(self)@.subrange(0, header_len as int) + final(r)@,
    {
        self.bytes.as_mut_slice().split_at_mut(header_len).1
    }

    /// Returns a mutable view of the segment payload.
    pub fn payload_mut(&mut self) -> (r: &mut [u8])
        requires
            old(self)@.len() >= 13,
            spec_header_len(old(self)@) as int <= old(self)@.len(),
        ensures
            r@ == old(self)@.subrange(spec_header_len(old(self)@) as int, old(self)@.len() as int),
            final(self)@ == old(self)@.subrange(0, spec_header_len(old(self)@) as int) + final(r)@,
    {
        let header_len = self.header_len();
        self.payload_mut_unchecked(header_len as usize)
    }
}

impl TcpSegment {
    /// Writes an incomplete TCP segment into `buf`: everything but the
    /// source port, destination port, and checksum fields, which keep
    /// whatever `buf` held.  The `NS` flag, reserved bits, and urgent
    /// pointer are set to zero.  When `mss_option` is given, a 4-byte MSS
    /// option is emitted, and its cost is taken out of `mss_remaining`
    /// first.  When a payload buffer and a maximum readable length are
    /// given, as many payload bytes as buffer capacity and MSS budget leave
    /// room for are copied in after the header; that a payload was asked
    /// for but no room or bytes at all remain is an error.  The segment is
    /// narrowed to exactly the bytes produced.
    #[verifier::rlimit(100)]
    pub fn write_incomplete_segment(
        buf: Vec<u8>,
        seq_number: u32,
        ack_number: u32,
        flags_after_ns: Flags,
        window_size: u16,
        mss_option: Option<u16>,
        mss_remaining: u16,
        payload: Option<(&Vec<u8>, usize)>,
    ) -> (r: Result<Incomplete, TcpError>)
        ensures
            (r == Result::<Incomplete, TcpError>::Err(TcpError::MssRemaining) <==> (
            mss_option is Some && mss_remaining < 4)),
            (r == Result::<Incomplete, TcpError>::Err(TcpError::SliceTooShort) <==> (!(
            mss_option is Some && mss_remaining < 4) && (buf@.len() as int) < spec_base_len(
                mss_option,
            ))),
            (r == Result::<Incomplete, TcpError>::Err(TcpError::EmptyPayload) <==> (!(
            mss_option is Some && mss_remaining < 4) && (buf@.len() as int) >= spec_base_len(
                mss_option,
            ) && (match payload {
                Some((p, m)) => spec_room(
                    buf@.len() as int,
                    mss_option,
                    mss_remaining,
                    spec_avail(p@.len() as int, m as int),
                ) == 0,
                None => false,
            }))),
            (r is Ok <==> (!(mss_option is Some && mss_remaining < 4) && (buf@.len() as int)
                >= spec_base_len(mss_option) && (match payload {
                Some((p, m)) => spec_room(
                    buf@.len() as int,
                    mss_option,
                    mss_remaining,
                    spec_avail(p@.len() as int, m as int),
                ) != 0,
                None => true,
            }))),
            r is Ok ==> spec_incomplete_written(
                buf@,
                seq_number,
                ack_number,
                flags_after_ns@,
                window_size,
                mss_option,
                match payload {
                    Some((p, m)) => Some(
                        p@.subrange(
                            0,
                            spec_room(
                                buf@.len() as int,
                                mss_option,
                                mss_remaining,
                                spec_avail(p@.len() as int, m as int),
                            ),
                        ),
                    ),
                    None => None,
                },
                r.unwrap()@,
            ),
    {
        let ghost obuf = buf@;
        let mut mss_left = mss_remaining;
        let options_len: u8 = if mss_option.is_some() {
            if mss_remaining < 4 {
                return Err(TcpError::MssRemaining);
            }
            mss_left = mss_remaining - 4;
            4
        } else {
            0
        };
        let segment_len: u16 = 20 + options_len as u16;
        let ghost base = spec_base_len(mss_option);
        assert(segment_len == base);
        if buf.len() < segment_len as usize {
            return Err(TcpError::SliceTooShort);
        }
        let mut segment = Self::from_bytes_unchecked(buf);
        segment.set_sequence_number(seq_number);
        segment.set_ack_number(ack_number);
        segment.set_header_len_rsvd_ns(20 + options_len, false);
        segment.set_flags_after_ns(flags_after_ns);
        segment.set_window_size(window_size);
        segment.set_urgent_pointer(0);
        if let Some(value) = mss_option {
            segment.bytes[20] = 2;
            segment.bytes[21] = 4;
            write_be16(&mut segment.bytes, 22, value);
            proof {
                lemma_be16_put_at(segment@.update(20, 2u8).update(21, 4u8), 22, value);
            }
        }
        let ghost vh = segment@;
        proof {
            assert(vh.len() == obuf.len());
            assert(spec_sequence_number(vh) == seq_number);
            assert(spec_ack_number(vh) == ack_number);
            assert(spec_header_len(vh) == base);
            assert(spec_rsvd(vh) == 0);
            assert(!spec_ns(vh));
            assert(spec_flags_after_ns(vh) == flags_after_ns@);
            assert(spec_window_size(vh) == window_size);
            assert(spec_urgent_pointer(vh) == 0);
            assert(spec_source_port(vh) == spec_source_port(obuf));
            assert(spec_destination_port(vh) == spec_destination_port(obuf));
            assert(spec_checksum(vh) == spec_checksum(obuf));
            if mss_option is Some {
                assert(vh[20] == 2 && vh[21] == 4);
                assert(be16_at(vh, 22) == mss_option.unwrap());
            }
        }
        let room: u16 = if let Some((payload_buf, max_payload_bytes)) = payload {
            let left_to_read: usize = if payload_buf.len() < max_payload_bytes {
                payload_buf.len()
            } else {
                max_payload_bytes
            };
            let seg_len16: u16 = segment.len();
            assert(seg_len16 >= segment_len);
            let room1: u16 = seg_len16 - segment_len;
            let room2: u16 = if room1 > mss_left {
                mss_left
            } else {
                room1
            };
            let room3: u16 = if room2 as usize > left_to_read {
                left_to_read as u16
            } else {
                room2
            };
            assert(room3 == spec_room(
                obuf.len() as int,
                mss_option,
                mss_remaining,
                spec_avail(payload_buf@.len() as int, max_payload_bytes as int),
            ));
            if room3 == 0 {
                return Err(TcpError::EmptyPayload);
            }
            let mut j: usize = 0;
            while j < room3 as usize
                invariant
                    j <= room3 as usize,
                    segment_len + room3 <= vh.len(),
                    room3 as int <= payload_buf@.len(),
                    segment@.len() == vh.len(),
                    forall|k: int|
                        0 <= k < vh.len() && !(segment_len <= k < segment_len + j)
                            ==> segment@[k] == vh[k],
                    forall|k: int| 0 <= k < j ==> segment@[segment_len + k] == payload_buf@[k],
                decreases room3 as int - j,
            {
                segment.bytes[segment_len as usize + j] = payload_buf[j];
                j = j + 1;
            }
            room3
        } else {
            0
        };
        assert(segment_len + room <= 0xffff);
        let final_len: u16 = segment_len + room;
        proof {
            assert(final_len <= vh.len());
            assert(forall|k: int|
                0 <= k < vh.len() && !(segment_len <= k < segment_len + room) ==> segment@[k]
                    == vh[k]);
        }
        segment.bytes.truncate(final_len as usize);
        proof {
            let v = segment@;
            assert(v.len() == final_len);
            assert(spec_sequence_number(v) == seq_number);
            assert(spec_ack_number(v) == ack_number);
            assert(spec_header_len(v) == base);
            assert(spec_rsvd(v) == 0);
            assert(!spec_ns(v));
            assert(spec_flags_after_ns(v) == flags_after_ns@);
            assert(spec_window_size(v) == window_size);
            assert(spec_urgent_pointer(v) == 0);
            assert(spec_source_port(v) == spec_source_port(obuf));
            assert(spec_destination_port(v) == spec_destination_port(obuf));
            assert(spec_checksum(v) == spec_checksum(obuf));
            assert(spec_len(v) == final_len);
            assert(spec_header_len_ok(v));
            if mss_option is Some {
                assert(v[20] == 2 && v[21] == 4);
                assert(be16_at(v, 22) == mss_option.unwrap());
            }
            if payload is Some {
                let (p, m) = payload.unwrap();
                let rm = spec_room(
                    obuf.len() as int,
                    mss_option,
                    mss_remaining,
                    spec_avail(p@.len() as int, m as int),
                );
                assert(room == rm);
                assert(v.subrange(base, v.len() as int) =~= p@.subrange(0, rm));
            }
        }
        Ok(Incomplete { inner: segment })
    }
}

impl Incomplete {
    /// Turns the staged segment into a finished one by writing the source
    /// and destination ports and — when the enclosing packet's addresses
    /// are supplied — zeroing the checksum field, computing the checksum
    /// over the completed bytes, and writing it back, after which the
    /// segment verifies as wire-valid.  Every other byte stays as it was.
    pub fn finalize(
        self,
        src_port: u16,
        dst_port: u16,
        compute_checksum: Option<(Ipv4Addr, Ipv4Addr)>,
    ) -> (r: TcpSegment)
        requires
            20 <= self@.len() <= 0xffff,
        ensures
            r@.len() == self@.len(),
            spec_source_port(r@) == src_port,
            spec_destination_port(r@) == dst_port,
            spec_sequence_number(r@) == spec_sequence_number(self@),
            spec_ack_number(r@) == spec_ack_number(self@),
            spec_header_len(r@) == spec_header_len(self@),
            spec_rsvd(r@) == spec_rsvd(self@),
            spec_ns(r@) == spec_ns(self@),
            spec_flags_after_ns(r@) == spec_flags_after_ns(self@),
            spec_window_size(r@) == spec_window_size(self@),
            spec_urgent_pointer(r@) == spec_urgent_pointer(self@),
            forall|i: int| 20 <= i < self@.len() ==> r@[i] == self@[i],
            match compute_checksum {
                Some((src_addr, dst_addr)) => checksum_valid(r@, src_addr@, dst_addr@, 6),
                None => spec_checksum(r@) == spec_checksum(self@),
            },
    {
        let Incomplete { inner } = self;
        let mut inner = inner;
        inner.set_source_port(src_port);
        inner.set_destination_port(dst_port);
        if let Some((src_addr, dst_addr)) = compute_checksum {
            inner.set_checksum(0);
            let ghost zeroed = inner@;
            let checksum = inner.compute_checksum(src_addr, dst_addr);
            inner.set_checksum(checksum);
            proof {
                crate::checksum::lemma_written_checksum_verifies(
                    zeroed,
                    16,
                    src_addr@,
                    dst_addr@,
                    6,
                );
            }
        }
        inner
    }
}

impl TcpSegment {
    /// Writes a complete TCP segment into `buf`: the staged write of
    /// [`TcpSegment::write_incomplete_segment`] followed by the port and
    /// checksum completion of [`Incomplete::finalize`], for callers that
    /// have everything up front.
    pub fn write_segment(
        buf: Vec<u8>,
        src_port: u16,
        dst_port: u16,
        seq_number: u32,
        ack_number: u32,
        flags_after_ns: Flags,
        window_size: u16,
        mss_option: Option<u16>,
        mss_remaining: u16,
        payload: Option<(&Vec<u8>, usize)>,
        compute_checksum: Option<(Ipv4Addr, Ipv4Addr)>,
    ) -> (r: Result<TcpSegment, TcpError>)
        ensures
            (r == Result::<TcpSegment, TcpError>::Err(TcpError::MssRemaining) <==> (
            mss_option is Some && mss_remaining < 4)),
            (r == Result::<TcpSegment, TcpError>::Err(TcpError::SliceTooShort) <==> (!(
            mss_option is Some && mss_remaining < 4) && (buf@.len() as int) < spec_base_len(
                mss_option,
            ))),
            (r == Result::<TcpSegment, TcpError>::Err(TcpError::EmptyPayload) <==> (!(
            mss_option is Some && mss_remaining < 4) && (buf@.len() as int) >= spec_base_len(
                mss_option,
            ) && (match payload {
                Some((p, m)) => spec_room(
                    buf@.len() as int,
                    mss_option,
                    mss_remaining,
                    spec_avail(p@.len() as int, m as int),
                ) == 0,
                None => false,
            }))),
            (r is Ok <==> (!(mss_option is Some && mss_remaining < 4) && (buf@.len() as int)
                >= spec_base_len(mss_option) && (match payload {
                Some((p, m)) => spec_room(
                    buf@.len() as int,
                    mss_option,
                    mss_remaining,
                    spec_avail(p@.len() as int, m as int),
                ) != 0,
                None => true,
            }))),
            r is Ok ==> ({
                let v = r.unwrap()@;
                &&& spec_segment_core(
                    seq_number,
                    ack_number,
                    flags_after_ns@,
                    window_size,
                    mss_option,
                    match payload {
                        Some((p, m)) => Some(
                            p@.subrange(
                                0,
                                spec_room(
                                    buf@.len() as int,
                                    mss_option,
                                    mss_remaining,
                                    spec_avail(p@.len() as int, m as int),
                                ),
                            ),
                        ),
                        None => None,
                    },
                    v,
                )
                &&& v.len() <= buf@.len()
                &&& spec_source_port(v) == src_port
                &&& spec_destination_port(v) == dst_port
                &&& match compute_checksum {
                    Some((src_addr, dst_addr)) => checksum_valid(v, src_addr@, dst_addr@, 6),
                    None => spec_checksum(v) == spec_checksum(buf@),
                }
            }),
    {
        match Self::write_incomplete_segment(
            buf,
            seq_number,
            ack_number,
            flags_after_ns,
            window_size,
            mss_option,
            mss_remaining,
            payload,
        ) {
            Err(e) => Err(e),
            Ok(incomplete) => {
                let ghost vi = incomplete@;
                let segment = incomplete.finalize(src_port, dst_port, compute_checksum);
                proof {
                    let base = spec_base_len(mss_option);
                    assert(segment@.subrange(base, segment@.len() as int) =~= vi.subrange(
                        base,
                        vi.len() as int,
                    ));
                    if mss_option is Some {
                        assert(segment@[20] == vi[20]);
                        assert(segment@[21] == vi[21]);
                        assert(be16_at(segment@, 22) == be16_at(vi, 22));
                    }
                }
                Ok(segment)
            },
        }
    }
}

/// The round trip holds: bytes carrying a written-out segment — any bytes
/// satisfying what the write path promises, wire-valid for the addresses —
/// parse back successfully under checksum verification, and every accessor
/// of the parsed segment reads exactly the value that was written.  In
/// particular, scanning the options finds exactly the written MSS value
/// (or nothing, when none was written).
pub proof fn lemma_round_trip(
    v: Seq<u8>,
    src_addr: u32,
    dst_addr: u32,
    src_port: u16,
    dst_port: u16,
    seq: u32,
    ack: u32,
    flags: u8,
    win: u16,
    mss_option: Option<u16>,
    pay: Option<Seq<u8>>,
)
    requires
        spec_segment_core(seq, ack, flags, win, mss_option, pay, v),
        spec_source_port(v) == src_port,
        spec_destination_port(v) == dst_port,
        checksum_valid(v, src_addr, dst_addr, 6),
    ensures
        spec_from_bytes_ok(v, Some((src_addr, dst_addr))),
        spec_source_port(v) == src_port,
        spec_destination_port(v) == dst_port,
        spec_sequence_number(v) == seq,
        spec_ack_number(v) == ack,
        spec_header_len(v) == spec_base_len(mss_option),
        spec_rsvd(v) == 0,
        !spec_ns(v),
        spec_flags_after_ns(v) == flags,
        spec_window_size(v) == win,
        spec_urgent_pointer(v) == 0,
        match pay {
            Some(s) => v.subrange(spec_base_len(mss_option), v.len() as int) == s,
            None => v.len() == spec_base_len(mss_option),
        },
        spec_parse_mss(v.subrange(20, spec_base_len(mss_option)), 0) == (match mss_option {
            Some(m) => if m < spec_mss_min() {
                Result::<Option<u16>, TcpError>::Err(TcpError::MssOption)
            } else {
                Result::<Option<u16>, TcpError>::Ok(Some(m))
            },
            None => Result::<Option<u16>, TcpError>::Ok(None),
        }),
{
    let base = spec_base_len(mss_option);
    let o = v.subrange(20, base);
    match mss_option {
        Some(m) => {
            assert(o.len() == 4);
            assert(o[0] == 2);
            assert(be16_at(o, 2) == be16_at(v, 22));
        },
        None => {
            assert(o.len() == 0);
        },
    }
}

} // verus!
