use vstd::prelude::*;
use vstd::utf8::{decode_utf8, valid_utf8};
use crate::errors::{Error, io_error, io_error_with_number};
use super::utils::bit_stream::{
    BitStream, bit_at, bits_value, bytes_for_bits, lemma_bits_value_bound, pow2_8,
};
use super::utils::box_stream::{BoxStream, be16, be32, be_value};
use super::utils::text::utf8_to_string;

verus! {

/// Tag of an elementary stream descriptor.
pub const TAG_ES: u8 = 0x03;

/// Tag of a decoder configuration descriptor.
pub const TAG_DECODER_CONFIG: u8 = 0x04;

/// Tag of a decoder specific information descriptor.
pub const TAG_DECODER_SPECIFIC: u8 = 0x05;

/// Tag of a sync layer configuration descriptor.
pub const TAG_SL_CONFIG: u8 = 0x06;

// ---------------------------------------------------------------------------------------
// Descriptor header
// ---------------------------------------------------------------------------------------

/// Number of bytes of the expandable size field that starts at `q`, counting from the
/// `i`-th: a byte below `0x80` ends the field, and the field has at most four bytes.
pub open spec fn size_field_len(s: Seq<u8>, q: int, i: nat) -> Option<nat>
    decreases 3 - i,
{
    if i > 3 || q + i < 0 || q + i >= s.len() {
        None
    } else if s[q + i] < 0x80 || i == 3 {
        Some(i + 1)
    } else {
        size_field_len(s, q, i + 1)
    }
}

/// The value of the first `k` bytes of an expandable size field: seven bits per byte, most
/// significant first.
pub open spec fn size_field_value(s: Seq<u8>, q: int, k: nat) -> nat
    decreases k,
{
    if k == 0 {
        0
    } else {
        size_field_value(s, q, (k - 1) as nat) * 128 + (s[q + k - 1] % 128) as nat
    }
}

/// The descriptor header at `p`: tag, payload size and header size.
pub open spec fn spec_descriptor_header(s: Seq<u8>, p: int) -> Option<(u8, nat, nat)> {
    if p < 0 || p >= s.len() {
        None
    } else {
        match size_field_len(s, p + 1, 0) {
            Some(k) => Some((s[p], size_field_value(s, p + 1, k), 1 + k)),
            None => None,
        }
    }
}

/// A descriptor header is its tag byte and a size field of one to four bytes: each byte
/// with its top bit set is followed by another, the first byte without it ends the field,
/// and the fourth ends it in any case. The size is the low seven bits of the field's bytes,
/// most significant first, and the header's length counts the tag and the field.
pub proof fn lemma_descriptor_header_layout(s: Seq<u8>, p: int)
    requires
        0 <= p,
    ensures
        p + 2 <= s.len() && s[p + 1] < 0x80 ==> spec_descriptor_header(s, p) == Some(
            (s[p], s[p + 1] as nat, 2nat),
        ),
        p + 3 <= s.len() && s[p + 1] >= 0x80 && s[p + 2] < 0x80 ==> spec_descriptor_header(s, p)
            == Some((s[p], ((s[p + 1] % 128) * 128 + s[p + 2]) as nat, 3nat)),
        p + 4 <= s.len() && s[p + 1] >= 0x80 && s[p + 2] >= 0x80 && s[p + 3] < 0x80
            ==> spec_descriptor_header(s, p) == Some(
            (s[p], ((s[p + 1] % 128) * 16384 + (s[p + 2] % 128) * 128 + s[p + 3]) as nat, 4nat),
        ),
        p + 5 <= s.len() && s[p + 1] >= 0x80 && s[p + 2] >= 0x80 && s[p + 3] >= 0x80
            ==> spec_descriptor_header(s, p) == Some(
            (
                s[p],
                ((s[p + 1] % 128) * 2097152 + (s[p + 2] % 128) * 16384 + (s[p + 3] % 128) * 128
                    + s[p + 4] % 128) as nat,
                5nat,
            ),
        ),
{
    reveal_with_fuel(size_field_len, 5);
    reveal_with_fuel(size_field_value, 5);
}

proof fn lemma_size_field_value_bound(s: Seq<u8>, q: int, k: nat)
    requires
        k <= 4,
    ensures
        size_field_value(s, q, k) < pow2_8(7 * k as int),
    decreases k,
{
    if k > 0 {
        lemma_size_field_value_bound(s, q, (k - 1) as nat);
        lemma_pow2_8_add(7 * (k - 1) as int, 7);
        reveal_with_fuel(pow2_8, 8);
    }
}

proof fn lemma_pow2_8_add(a: int, b: int)
    requires
        a >= 0,
        b >= 0,
    ensures
        pow2_8(a + b) == pow2_8(a) * pow2_8(b),
    decreases b,
{
    if b > 0 {
        lemma_pow2_8_add(a, b - 1);
        assert(pow2_8(a) * (2 * pow2_8(b - 1)) == 2 * (pow2_8(a) * pow2_8(b - 1))) by (nonlinear_arith);
    }
}

/// Reads a descriptor header: the tag and the payload size, stored in one to four bytes of
/// seven bits each. Returns the tag, the payload size and the size of the header.
pub fn parse_descriptor_header(stream: &mut BoxStream) -> (r: Result<(u8, usize, usize), Error>)
    requires
        old(stream).wf(),
    ensures
        old(stream).same_bytes(*final(stream)),
        r is Ok <==> spec_descriptor_header(old(stream).bytes(), old(stream).position()) is Some,
        r matches Ok(h) ==> spec_descriptor_header(old(stream).bytes(), old(stream).position())
            == Some((h.0, h.1 as nat, h.2 as nat)) && final(stream).position() == old(
            stream,
        ).position() + h.2,
        r matches Err(e) ==> e.is_io(),
{
    let ghost s = old(stream).bytes();
    let ghost p = old(stream).position();
    let tag = stream.read_u8()?;
    let mut size: usize = 0;
    let mut n: usize = 0;
    loop
        invariant_except_break
            size_field_len(s, p + 1, 0) == size_field_len(s, p + 1, n as nat),
            n <= 3,
        invariant
            old(stream).same_bytes(*stream),
            s == old(stream).bytes(),
            p == old(stream).position(),
            0 <= p < s.len(),
            n <= 4,
            stream.position() == p + 1 + n,
            size == size_field_value(s, p + 1, n as nat),
        ensures
            1 <= n <= 4,
            size_field_len(s, p + 1, 0) == Some(n as nat),
            stream.position() == p + 1 + n,
            size == size_field_value(s, p + 1, n as nat),
        decreases 4 - n,
    {
        let b = stream.read_u8()?;
        proof {
            lemma_size_field_value_bound(s, p + 1, n as nat);
            reveal_with_fuel(pow2_8, 22);
            assert(pow2_8(7 * n as int) <= 0x200000);
        }
        size = size * 128 + (b % 128) as usize;
        n = n + 1;
        if b < 0x80 || n == 4 {
            break;
        }
    }
    Ok((tag, size, 1 + n))
}

// ---------------------------------------------------------------------------------------
// Decoder specific information (AudioSpecificConfig)
// ---------------------------------------------------------------------------------------

/// The start of an AudioSpecificConfig: audio object type, sampling frequency index and
/// channel configuration.
#[derive(Clone, Copy, Debug, PartialEq, Eq, Structural)]
pub struct DecoderSpecificInfo {
    pub object_type: u8,
    pub sampling_frequency_index: u32,
    pub channel_configuration: u8,
}

impl DecoderSpecificInfo {
    /// The fields stored from byte `p` on, and the number of bytes they touch.
    /// An object type of 31 is followed by six more bits (the type minus 32); a frequency
    /// index of 15 is followed by a 24-bit frequency.
    pub open spec fn spec_parse(s: Seq<u8>, p: int) -> Option<(Self, int)> {
        let g0 = p * 8;
        let ot5 = bits_value(s, g0, 5);
        let ot = if ot5 == 31 {
            32 + bits_value(s, g0 + 5, 6)
        } else {
            ot5
        };
        let g2 = if ot5 == 31 {
            g0 + 11
        } else {
            g0 + 5
        };
        let f4 = bits_value(s, g2, 4);
        let f = if f4 == 15 {
            bits_value(s, g2 + 4, 24)
        } else {
            f4
        };
        let g4 = if f4 == 15 {
            g2 + 28
        } else {
            g2 + 4
        };
        let g5 = g4 + 4;
        if p < 0 || g5 > s.len() * 8 {
            None
        } else {
            Some(
                (
                    DecoderSpecificInfo {
                        object_type: ot as u8,
                        sampling_frequency_index: f as u32,
                        channel_configuration: bits_value(s, g4, 4) as u8,
                    },
                    bytes_for_bits(g5 - g0),
                ),
            )
        }
    }

    /// Parses the bit fields of a decoder specific information descriptor. Returns the
    /// fields and the number of bytes they touch.
    #[verifier::rlimit(40)]
    pub fn parse(stream: &mut BoxStream) -> (r: Result<(Self, usize), Error>)
        requires
            old(stream).wf(),
        ensures
            old(stream).same_bytes(*final(stream)),
            r is Ok <==> Self::spec_parse(old(stream).bytes(), old(stream).position()) is Some,
            r matches Ok(v) ==> Self::spec_parse(old(stream).bytes(), old(stream).position())
                == Some((v.0, v.1 as int)) && final(stream).position() == old(stream).position()
                + v.1,
            r matches Err(e) ==> e.is_io(),
    {
        let ghost s = old(stream).bytes();
        let start = stream.get_position();
        let ghost g0 = start * 8;
        let mut bits = BitStream::new();
        assert(bits.inv(*stream, start as int));
        proof {
            lemma_bits_value_bound(s, g0, 5);
            lemma_bits_value_bound(s, g0 + 5, 6);
            lemma_bits_value_bound(s, g0 + 5, 4);
            lemma_bits_value_bound(s, g0 + 11, 4);
            lemma_bits_value_bound(s, g0 + 9, 24);
            lemma_bits_value_bound(s, g0 + 15, 24);
            reveal_with_fuel(pow2_8, 25);
        }
        let mut object_type = bits.read_u8(stream, 5, Ghost(start as int))?;
        if object_type == 31 {
            let ext = bits.read_u8(stream, 6, Ghost(start as int))?;
            object_type = 32 + ext;
        }
        let mut sampling_frequency_index = bits.read_u32(stream, 4, Ghost(start as int))?;
        if sampling_frequency_index == 0x0f {
            sampling_frequency_index = bits.read_u32(stream, 24, Ghost(start as int))?;
        }
        proof {
            lemma_bits_value_bound(s, g0 + bits.bit_pos(), 4);
        }
        let channel_configuration = bits.read_u8(stream, 4, Ghost(start as int))?;
        proof {
            bits.lemma_inv(*stream, start as int);
        }
        Ok(
            (
                DecoderSpecificInfo { object_type, sampling_frequency_index, channel_configuration },
                bits.get_consumed_bytes(),
            ),
        )
    }

    /// The audio object type.
    pub fn get_object_type(&self) -> (r: u8)
        ensures
            r == self.object_type,
    {
        self.object_type
    }

    /// The sampling frequency index (or the frequency itself after an index of 15).
    pub fn get_sampling_frequency_index(&self) -> (r: u32)
        ensures
            r == self.sampling_frequency_index,
    {
        self.sampling_frequency_index
    }

    /// The channel configuration.
    pub fn get_channel_configuration(&self) -> (r: u8)
        ensures
            r == self.channel_configuration,
    {
        self.channel_configuration
    }
}

/// Bit `j` (0 = most significant) of byte `q` of `s`.
proof fn lemma_bit_of_byte(s: Seq<u8>, q: int, j: int)
    requires
        0 <= q < s.len(),
        0 <= j < 8,
    ensures
        bit_at(s, 8 * q + j) == (s[q] as int / pow2_8(7 - j)) % 2,
{
    assert((8 * q + j) / 8 == q);
    assert((8 * q + j) % 8 == j);
}

/// The two bytes of an AudioSpecificConfig that names its object type and its sampling
/// frequency by index (neither escape value 31 nor 15): the object type is the top five
/// bits of the first byte, the frequency index the low three bits of the first byte and
/// the top bit of the second, the channel configuration the next four bits; two bytes are
/// used.
pub proof fn lemma_short_audio_config(s: Seq<u8>, p: int)
    requires
        0 <= p,
        p + 2 <= s.len(),
        s[p] / 8 != 31,
        (s[p] % 8) * 2 + s[p + 1] / 128 != 15,
    ensures
        DecoderSpecificInfo::spec_parse(s, p) == Some(
            (
                DecoderSpecificInfo {
                    object_type: (s[p] / 8) as u8,
                    sampling_frequency_index: ((s[p] % 8) * 2 + s[p + 1] / 128) as u32,
                    channel_configuration: (s[p + 1] / 8 % 16) as u8,
                },
                2int,
            ),
        ),
{
    let x = s[p];
    let y = s[p + 1];
    reveal_with_fuel(pow2_8, 8);
    reveal_with_fuel(bits_value, 6);
    let g = 8 * p;
    lemma_bit_of_byte(s, p, 0);
    lemma_bit_of_byte(s, p, 1);
    lemma_bit_of_byte(s, p, 2);
    lemma_bit_of_byte(s, p, 3);
    lemma_bit_of_byte(s, p, 4);
    lemma_bit_of_byte(s, p, 5);
    lemma_bit_of_byte(s, p, 6);
    lemma_bit_of_byte(s, p, 7);
    lemma_bit_of_byte(s, p + 1, 0);
    lemma_bit_of_byte(s, p + 1, 1);
    lemma_bit_of_byte(s, p + 1, 2);
    lemma_bit_of_byte(s, p + 1, 3);
    lemma_bit_of_byte(s, p + 1, 4);
    assert(8 * (p + 1) == g + 8);
    assert(x / 8 == ((x / 128) % 2) * 16 + ((x / 64) % 2) * 8 + ((x / 32) % 2) * 4 + ((x / 16) % 2) * 2
        + (x / 8) % 2) by (bit_vector);
    assert((x % 8) * 2 + y / 128 == ((x / 4) % 2) * 8 + ((x / 2) % 2) * 4 + (x % 2) * 2 + (y / 128)
        % 2) by (bit_vector);
    assert(y / 8 % 16 == ((y / 64) % 2) * 8 + ((y / 32) % 2) * 4 + ((y / 16) % 2) * 2 + (y / 8)
        % 2) by (bit_vector);
    assert(bits_value(s, g, 5) == x / 8);
    assert(bits_value(s, g + 5, 4) == (x % 8) * 2 + y / 128);
    assert(bits_value(s, g + 9, 4) == y / 8 % 16);
}

// ---------------------------------------------------------------------------------------
// Decoder configuration
// ---------------------------------------------------------------------------------------

/// The descriptors nested in a decoder configuration, from `q` up to `end`: decoder
/// specific information (the last one is kept) and sync layer configurations (skipped).
/// Each nested descriptor's payload must fit in its declared size, whose unread rest is
/// skipped. Gives where the walk ends and the kept information.
pub open spec fn config_children(
    s: Seq<u8>,
    q: int,
    end: int,
    acc: Option<DecoderSpecificInfo>,
) -> Option<(int, Option<DecoderSpecificInfo>)>
    decreases s.len() - q,
{
    if q >= end {
        Some((q, acc))
    } else {
        match spec_descriptor_header(s, q) {
            None => None,
            Some((tag, sz, h)) => {
                let body = q + h;
                let next = body + sz;
                if next > s.len() || q < 0 {
                    None
                } else if tag == TAG_DECODER_SPECIFIC {
                    match DecoderSpecificInfo::spec_parse(s, body) {
                        Some((info, c)) => if c > sz {
                            None
                        } else {
                            config_children(s, next, end, Some(info))
                        },
                        None => None,
                    }
                } else if tag == TAG_SL_CONFIG {
                    config_children(s, next, end, acc)
                } else {
                    None
                }
            },
        }
    }
}

/// Decoder configuration descriptor: the codec, its buffer and bit rates, and the codec's
/// own configuration.
#[derive(Clone, Copy, Debug, PartialEq, Eq, Structural)]
pub struct DecoderConfigDescriptor {
    pub oti: u8,
    pub stream_type: u8,
    pub up_stream: bool,
    pub buffer_size: u32,
    pub max_bitrate: u32,
    pub avg_bitrate: u32,
    pub decoder_specific: Option<DecoderSpecificInfo>,
}

/// Skips the unread rest of a nested descriptor's payload of `size` bytes, of which
/// `consumed` were read; a payload read past its size is refused.
fn skip_rest(stream: &mut BoxStream, size: usize, consumed: usize) -> (r: Result<(), Error>)
    requires
        old(stream).wf(),
    ensures
        old(stream).same_bytes(*final(stream)),
        r is Ok <==> consumed <= size && old(stream).remaining() >= size - consumed,
        r is Ok ==> final(stream).position() == old(stream).position() + size - consumed,
        r matches Err(e) ==> e.is_io(),
{
    if consumed > size {
        return Err(io_error("descriptor larger than its declared size"));
    }
    stream.skip_bytes(size - consumed)
}

impl DecoderConfigDescriptor {
    /// The fixed fields of the descriptor whose payload starts at `p`: 13 bytes, without
    /// the nested descriptors.
    pub open spec fn spec_fixed(s: Seq<u8>, p: int) -> Option<Self> {
        if p < 0 || p + 13 > s.len() {
            None
        } else {
            Some(
                DecoderConfigDescriptor {
                    oti: s[p],
                    stream_type: s[p + 1] >> 2u8,
                    up_stream: ((s[p + 1] >> 1u8) & 0x01) != 0,
                    buffer_size: be_value(s, p + 2, 3) as u32,
                    max_bitrate: be32(s, p + 5),
                    avg_bitrate: be32(s, p + 9),
                    decoder_specific: None,
                },
            )
        }
    }

    /// The descriptor whose payload of `size` bytes starts at `p`, with its nested
    /// descriptors, and the bytes consumed.
    pub open spec fn spec_parse(s: Seq<u8>, p: int, size: int) -> Option<(Self, int)> {
        match Self::spec_fixed(s, p) {
            Some(d) => match config_children(s, p + 13, p + size, None) {
                Some((q, info)) => Some((DecoderConfigDescriptor { decoder_specific: info, ..d }, q - p)),
                None => None,
            },
            None => None,
        }
    }

    /// Reads the 13 bytes of fixed fields of a decoder configuration descriptor; the nested
    /// descriptors are left unread.
    pub fn parse_fixed(stream: &mut BoxStream) -> (r: Result<Self, Error>)
        requires
            old(stream).wf(),
        ensures
            old(stream).same_bytes(*final(stream)),
            r is Ok <==> Self::spec_fixed(old(stream).bytes(), old(stream).position()) is Some,
            r matches Ok(d) ==> Self::spec_fixed(old(stream).bytes(), old(stream).position())
                == Some(d) && final(stream).position() == old(stream).position() + 13,
            r matches Err(e) ==> e.is_io(),
    {
        let oti = stream.read_u8()?;
        let tmp = stream.read_u8()?;
        let up_stream = ((tmp >> 1u8) & 0x01) != 0;
        let stream_type = tmp >> 2u8;
        let buffer_size = stream.read_u24()?;
        let max_bitrate = stream.read_u32()?;
        let avg_bitrate = stream.read_u32()?;
        Ok(
            DecoderConfigDescriptor {
                oti,
                stream_type,
                up_stream,
                buffer_size,
                max_bitrate,
                avg_bitrate,
                decoder_specific: None,
            },
        )
    }

    /// Parses a decoder configuration descriptor whose payload has `size` bytes. Returns the
    /// descriptor and the bytes consumed.
    pub fn parse(stream: &mut BoxStream, size: usize) -> (r: Result<(Self, usize), Error>)
        requires
            old(stream).wf(),
        ensures
            old(stream).same_bytes(*final(stream)),
            r is Ok <==> Self::spec_parse(old(stream).bytes(), old(stream).position(), size as int)
                is Some,
            r matches Ok(v) ==> Self::spec_parse(
                old(stream).bytes(),
                old(stream).position(),
                size as int,
            ) == Some((v.0, v.1 as int)) && final(stream).position() == old(stream).position()
                + v.1,
            r matches Err(e) ==> e.is_io(),
    {
        let ghost s = old(stream).bytes();
        let start = stream.get_position();
        let fixed = Self::parse_fixed(stream)?;
        let mut decoder_specific: Option<DecoderSpecificInfo> = None;
        while stream.get_position() - start < size
            invariant
                old(stream).same_bytes(*stream),
                s == old(stream).bytes(),
                start == old(stream).position(),
                start + 13 <= stream.position(),
                config_children(s, start + 13, start + size, None) == config_children(
                    s,
                    stream.position(),
                    start + size,
                    decoder_specific,
                ),
            decreases stream.remaining(),
        {
            let (tag, sz, h) = parse_descriptor_header(stream)?;
            if tag == TAG_DECODER_SPECIFIC {
                let (info, c) = DecoderSpecificInfo::parse(stream)?;
                skip_rest(stream, sz, c)?;
                decoder_specific = Some(info);
            } else if tag == TAG_SL_CONFIG {
                stream.skip_bytes(sz)?;
            } else {
                return Err(io_error_with_number("mpeg4 not implemented, tag: ", tag));
            }
        }
        let consumed = stream.get_position() - start;
        Ok((DecoderConfigDescriptor { decoder_specific, ..fixed }, consumed))
    }

    /// The average bit rate of the stream.
    pub fn get_avg_bitrate(&self) -> (r: u32)
        ensures
            r == self.avg_bitrate,
    {
        self.avg_bitrate
    }

    /// The codec's own configuration, if the descriptor holds one.
    pub fn get_decoder_specific(&self) -> (r: Option<DecoderSpecificInfo>)
        ensures
            r == self.decoder_specific,
    {
        self.decoder_specific
    }
}

// ---------------------------------------------------------------------------------------
// Elementary stream descriptor
// ---------------------------------------------------------------------------------------

/// The descriptors nested in an elementary stream descriptor, from `q` up to `end`:
/// decoder configurations (the last one is kept) and sync layer configurations (skipped).
pub open spec fn es_children(
    s: Seq<u8>,
    q: int,
    end: int,
    acc: Option<DecoderConfigDescriptor>,
) -> Option<(int, Option<DecoderConfigDescriptor>)>
    decreases s.len() - q,
{
    if q >= end {
        Some((q, acc))
    } else {
        match spec_descriptor_header(s, q) {
            None => None,
            Some((tag, sz, h)) => {
                let body = q + h;
                let next = body + sz;
                if next > s.len() || q < 0 {
                    None
                } else if tag == TAG_DECODER_CONFIG {
                    match DecoderConfigDescriptor::spec_parse(s, body, sz as int) {
                        Some((cfg, c)) => if c > sz {
                            None
                        } else {
                            es_children(s, next, end, Some(cfg))
                        },
                        None => None,
                    }
                } else if tag == TAG_SL_CONFIG {
                    es_children(s, next, end, acc)
                } else {
                    None
                }
            },
        }
    }
}

/// Where the fixed fields of an elementary stream descriptor at `p` lie: the optional
/// depended-on stream (flag `0x80`), URL (flag `0x40`, a length byte then the bytes) and
/// OCR stream (flag `0x20`).
pub struct EsLayout {
    pub flags: u8,
    pub depends_at: int,
    pub url_at: int,
    pub ocr_at: int,
    pub end: int,
}

/// Elementary stream descriptor.
pub struct ESDescriptor {
    pub es_id: u16,
    pub depends_on_es_id: u16,
    pub url: String,
    pub ocr_es_id: u16,
    pub decoder_config: Option<DecoderConfigDescriptor>,
}

impl ESDescriptor {
    /// The layout of the fixed fields at `p`.
    pub open spec fn layout(s: Seq<u8>, p: int) -> EsLayout {
        let f = s[p + 2];
        let depends_at = p + 3;
        let url_at = depends_at + (if (f & 0x80u8) != 0 {
            2int
        } else {
            0int
        });
        let ocr_at = url_at + (if (f & 0x40u8) != 0 {
            1 + s[url_at] as int
        } else {
            0int
        });
        let end = ocr_at + (if (f & 0x20u8) != 0 {
            2int
        } else {
            0int
        });
        EsLayout { flags: f, depends_at, url_at, ocr_at, end }
    }

    /// The bytes of the URL of the descriptor at `p`.
    pub open spec fn url_bytes(s: Seq<u8>, p: int) -> Seq<u8> {
        let l = Self::layout(s, p);
        s.subrange(l.url_at + 1, l.ocr_at)
    }

    /// Where the fixed fields of the descriptor at `p` end: the identifier, the flags and
    /// the optional fields they announce.
    pub open spec fn fixed_end(s: Seq<u8>, p: int) -> Option<int> {
        if p < 0 || p + 3 > s.len() {
            None
        } else {
            let l = Self::layout(s, p);
            if (l.flags & 0x40u8) != 0 && (l.url_at + 1 > s.len() || l.ocr_at > s.len()
                || !valid_utf8(Self::url_bytes(s, p))) {
                None
            } else if l.end > s.len() {
                None
            } else {
                Some(l.end)
            }
        }
    }

    /// Where parsing the descriptor whose payload of `size` bytes starts at `p`, with its
    /// nested descriptors, ends.
    pub open spec fn spec_end(s: Seq<u8>, p: int, size: int) -> Option<int> {
        match Self::fixed_end(s, p) {
            Some(e) => match es_children(s, e, p + size, None) {
                Some((q, _)) => Some(q),
                None => None,
            },
            None => None,
        }
    }

    /// The descriptor holds the fixed fields stored at `p`.
    pub open spec fn fixed_parsed_from(&self, s: Seq<u8>, p: int) -> bool {
        let l = Self::layout(s, p);
        &&& self.es_id == be16(s, p)
        &&& self.depends_on_es_id == (if (l.flags & 0x80u8) != 0 {
            be16(s, l.depends_at)
        } else {
            0
        })
        &&& self.url@ == (if (l.flags & 0x40u8) != 0 {
            decode_utf8(Self::url_bytes(s, p))
        } else {
            Seq::<char>::empty()
        })
        &&& self.ocr_es_id == (if (l.flags & 0x20u8) != 0 {
            be16(s, l.ocr_at)
        } else {
            0
        })
    }

    /// The descriptor holds the fields stored at `p` and the decoder configuration nested
    /// in its payload of `size` bytes.
    pub open spec fn parsed_from(&self, s: Seq<u8>, p: int, size: int) -> bool {
        &&& self.fixed_parsed_from(s, p)
        &&& es_children(s, Self::layout(s, p).end, p + size, None) matches Some((_, cfg))
            && self.decoder_config == cfg
    }

    /// Reads the fixed fields of an elementary stream descriptor: the identifier, the
    /// flags and the optional fields they announce; the nested descriptors are left unread.
    /// Returns the descriptor, without decoder configuration, and the bytes read.
    pub fn parse_fixed(stream: &mut BoxStream) -> (r: Result<(Self, usize), Error>)
        requires
            old(stream).wf(),
        ensures
            old(stream).same_bytes(*final(stream)),
            r is Ok <==> Self::fixed_end(old(stream).bytes(), old(stream).position()) is Some,
            r matches Ok(v) ==> Self::fixed_end(old(stream).bytes(), old(stream).position())
                == Some(old(stream).position() + v.1) && final(stream).position() == old(
                stream,
            ).position() + v.1 && v.0.fixed_parsed_from(old(stream).bytes(), old(stream).position())
                && v.0.decoder_config is None,
            r matches Err(e) ==> e.is_io(),
    {
        let ghost s = old(stream).bytes();
        let start = stream.get_position();
        let es_id = stream.read_u16()?;
        let flags = stream.read_u8()?;
        let depends_on_es_id = if (flags & 0x80u8) != 0 {
            stream.read_u16()?
        } else {
            0
        };
        let url = if (flags & 0x40u8) != 0 {
            let l = stream.read_u8()? as usize;
            let url_buf = stream.read_exact(l)?;
            match utf8_to_string(url_buf.as_slice()) {
                Ok(u) => u,
                Err(_) => {
                    return Err(io_error("not utf-8"));
                },
            }
        } else {
            String::new()
        };
        let ocr_es_id = if (flags & 0x20u8) != 0 {
            stream.read_u16()?
        } else {
            0
        };
        assert(stream.position() == Self::layout(s, start as int).end);
        let consumed = stream.get_position() - start;
        Ok((ESDescriptor { es_id, depends_on_es_id, url, ocr_es_id, decoder_config: None }, consumed))
    }

    /// Parses an elementary stream descriptor whose payload has `size` bytes. Returns the
    /// descriptor and the bytes consumed.
    pub fn parse(stream: &mut BoxStream, size: usize) -> (r: Result<(Self, usize), Error>)
        requires
            old(stream).wf(),
        ensures
            old(stream).same_bytes(*final(stream)),
            r is Ok <==> Self::spec_end(old(stream).bytes(), old(stream).position(), size as int)
                is Some,
            r matches Ok(v) ==> Self::spec_end(
                old(stream).bytes(),
                old(stream).position(),
                size as int,
            ) == Some(old(stream).position() + v.1) && final(stream).position() == old(
                stream,
            ).position() + v.1 && v.0.parsed_from(
                old(stream).bytes(),
                old(stream).position(),
                size as int,
            ),
            r matches Err(e) ==> e.is_io(),
    {
        let ghost s = old(stream).bytes();
        let start = stream.get_position();
        let (fixed, _) = Self::parse_fixed(stream)?;
        let mut decoder_config: Option<DecoderConfigDescriptor> = None;
        while stream.get_position() - start < size
            invariant
                old(stream).same_bytes(*stream),
                s == old(stream).bytes(),
                start == old(stream).position(),
                Self::layout(s, start as int).end <= stream.position(),
                es_children(s, Self::layout(s, start as int).end, start + size, None)
                    == es_children(s, stream.position(), start + size, decoder_config),
            decreases stream.remaining(),
        {
            let (tag, sz, h) = parse_descriptor_header(stream)?;
            if tag == TAG_DECODER_CONFIG {
                let (cfg, c) = DecoderConfigDescriptor::parse(stream, sz)?;
                skip_rest(stream, sz, c)?;
                decoder_config = Some(cfg);
            } else if tag == TAG_SL_CONFIG {
                stream.skip_bytes(sz)?;
            } else {
                return Err(io_error_with_number("mpeg4 not implemented, tag: ", tag));
            }
        }
        let consumed = stream.get_position() - start;
        let ESDescriptor { es_id, depends_on_es_id, url, ocr_es_id, .. } = fixed;
        Ok((ESDescriptor { es_id, depends_on_es_id, url, ocr_es_id, decoder_config }, consumed))
    }

    /// The decoder configuration, if the descriptor holds one.
    pub fn get_decoder_config(&self) -> (r: Option<DecoderConfigDescriptor>)
        ensures
            r == self.decoder_config,
    {
        self.decoder_config
    }
}

// ---------------------------------------------------------------------------------------
// Any descriptor
// ---------------------------------------------------------------------------------------

/// An MPEG-4 descriptor.
pub enum MPEG4Descriptor {
    ES(ESDescriptor),
    DecoderConfig(DecoderConfigDescriptor),
    DecoderSpecificInfo(DecoderSpecificInfo),
    SLConfig(Vec<u8>),
}

impl MPEG4Descriptor {
    /// Where parsing a descriptor with tag `tag` and a payload of `size` bytes at `p` ends.
    pub open spec fn spec_end(s: Seq<u8>, p: int, tag: u8, size: int) -> Option<int> {
        if tag == TAG_ES {
            ESDescriptor::fixed_end(s, p)
        } else if tag == TAG_DECODER_CONFIG {
            match DecoderConfigDescriptor::spec_fixed(s, p) {
                Some(_) => Some(p + 13),
                None => None,
            }
        } else if tag == TAG_DECODER_SPECIFIC {
            match DecoderSpecificInfo::spec_parse(s, p) {
                Some((_, c)) => Some(p + c),
                None => None,
            }
        } else if tag == TAG_SL_CONFIG {
            if p + size <= s.len() {
                Some(p + size)
            } else {
                None
            }
        } else {
            None
        }
    }

    /// The descriptor holds what is stored at `p` for its tag.
    pub open spec fn parsed_from(&self, s: Seq<u8>, p: int, tag: u8, size: int) -> bool {
        if tag == TAG_ES {
            self matches MPEG4Descriptor::ES(d) && d.fixed_parsed_from(s, p) && d.decoder_config
                is None
        } else if tag == TAG_DECODER_CONFIG {
            self matches MPEG4Descriptor::DecoderConfig(d) && DecoderConfigDescriptor::spec_fixed(
                s,
                p,
            ) == Some(*d)
        } else if tag == TAG_DECODER_SPECIFIC {
            self matches MPEG4Descriptor::DecoderSpecificInfo(d) && DecoderSpecificInfo::spec_parse(
                s,
                p,
            ) matches Some((d2, _)) && d == d2
        } else {
            self matches MPEG4Descriptor::SLConfig(v) && v@ == s.subrange(p, p + size)
        }
    }

    /// Parses a descriptor with tag `tag` whose payload has `size` bytes. Returns the
    /// descriptor and the bytes consumed. Of an elementary stream or decoder configuration
    /// descriptor only the fixed fields are read and counted, not the nested descriptors;
    /// a sync layer configuration is read whole. A tag other than those of elementary
    /// stream, decoder configuration, decoder specific information and sync layer
    /// configuration descriptors is refused.
    pub fn parse(stream: &mut BoxStream, tag: u8, size: usize) -> (r: Result<(Self, usize), Error>)
        requires
            old(stream).wf(),
        ensures
            old(stream).same_bytes(*final(stream)),
            r is Ok <==> Self::spec_end(old(stream).bytes(), old(stream).position(), tag, size as int)
                is Some,
            r matches Ok(v) ==> Self::spec_end(
                old(stream).bytes(),
                old(stream).position(),
                tag,
                size as int,
            ) == Some(old(stream).position() + v.1) && final(stream).position() == old(
                stream,
            ).position() + v.1 && v.0.parsed_from(
                old(stream).bytes(),
                old(stream).position(),
                tag,
                size as int,
            ),
            r matches Err(e) ==> e.is_io(),
    {
        if tag == TAG_ES {
            let (d, c) = ESDescriptor::parse_fixed(stream)?;
            Ok((MPEG4Descriptor::ES(d), c))
        } else if tag == TAG_DECODER_CONFIG {
            let d = DecoderConfigDescriptor::parse_fixed(stream)?;
            Ok((MPEG4Descriptor::DecoderConfig(d), 13))
        } else if tag == TAG_DECODER_SPECIFIC {
            let (d, c) = DecoderSpecificInfo::parse(stream)?;
            Ok((MPEG4Descriptor::DecoderSpecificInfo(d), c))
        } else if tag == TAG_SL_CONFIG {
            let data = stream.read_exact(size)?;
            Ok((MPEG4Descriptor::SLConfig(data), size))
        } else {
            Err(io_error_with_number("mpeg4 not implemented, tag: ", tag))
        }
    }
}

} // verus!
