//! Binary model headers.
//!
//! Every integer field is stored as 4 little-endian bytes:
//!
//! ```text
//! QModelHeader (24 bytes):       "QMOD" | version | vocab | seq | dim | hidden
//! QTransformerHeader (32 bytes): "QTRN" | version | vocab_size | seq_len | dim | heads | layers | hidden
//! ```
//!
//! Only version 1 is accepted.

use vstd::prelude::*;

verus! {

/// Why a model could not be loaded.
#[derive(Debug, Clone, Copy, PartialEq, Eq)]
pub enum ModelLoadError {
    InvalidMagic,
    UnsupportedVersion,
    BufferTooSmall,
    ShapeMismatch,
    InvalidTensorLayout,
}

// ─────────────────────────────────────────────────────────────────────────────
// Little-endian integers
// ─────────────────────────────────────────────────────────────────────────────

/// The `u32` stored little-endian at `s[off..off + 4]`.
pub open spec fn le_u32_at(s: Seq<u8>, off: int) -> u32 {
    (s[off] + 256 * s[off + 1] + 65536 * s[off + 2] + 16777216 * s[off + 3]) as u32
}

/// The 4 little-endian bytes of `x`.
pub open spec fn u32_le_bytes(x: u32) -> Seq<u8> {
    seq![
        (x % 256) as u8,
        ((x / 256) % 256) as u8,
        ((x / 65536) % 256) as u8,
        (x / 16777216) as u8,
    ]
}

/// Decoding the little-endian bytes of `x` gives `x` back.
pub proof fn lemma_le_u32_roundtrip(x: u32)
    ensures
        le_u32_at(u32_le_bytes(x), 0) == x,
{
    assert(x == (x % 256) + 256 * ((x / 256) % 256) + 65536 * ((x / 65536) % 256) + 16777216 * (x
        / 16777216)) by (bit_vector);
}

/// Encoding the decoded `u32` gives the same 4 bytes back.
pub proof fn lemma_u32_le_bytes_of_decoded(s: Seq<u8>, off: int)
    requires
        0 <= off,
        off + 4 <= s.len(),
    ensures
        u32_le_bytes(le_u32_at(s, off)) == s.subrange(off, off + 4),
{
    let b0 = s[off];
    let b1 = s[off + 1];
    let b2 = s[off + 2];
    let b3 = s[off + 3];
    let x = le_u32_at(s, off);
    assert(x == (b0 + 256 * b1 + 65536 * b2 + 16777216 * b3) as u32);
    assert(b0 + 256 * b1 + 65536 * b2 + 16777216 * b3 <= u32::MAX);
    assert((x % 256) as u8 == b0 && ((x / 256) % 256) as u8 == b1 && ((x / 65536) % 256) as u8 == b2
        && (x / 16777216) as u8 == b3) by (bit_vector)
        requires
            x == b0 as u32 + 256 * b1 as u32 + 65536 * b2 as u32 + 16777216 * b3 as u32,
    ;
    assert(u32_le_bytes(x) =~= s.subrange(off, off + 4));
}

/// Read the `u32` stored little-endian at `bytes[off..off + 4]`.
fn read_u32_le(bytes: &[u8], off: usize) -> (x: u32)
    requires
        off + 4 <= bytes@.len(),
    ensures
        x == le_u32_at(bytes@, off as int),
{
    bytes[off] as u32 + 256 * (bytes[off + 1] as u32) + 65536 * (bytes[off + 2] as u32) + 16777216
        * (bytes[off + 3] as u32)
}

/// Write `x` little-endian into `buf[off..off + 4]`; other bytes are kept.
fn write_u32_le<const N: usize>(buf: &mut [u8; N], off: usize, x: u32)
    requires
        off + 4 <= N,
    ensures
        final(buf)@ == old(buf)@.take(off as int) + u32_le_bytes(x) + old(buf)@.skip(off + 4),
{
    buf[off] = (x % 256) as u8;
    buf[off + 1] = ((x / 256) % 256) as u8;
    buf[off + 2] = ((x / 65536) % 256) as u8;
    buf[off + 3] = (x / 16777216) as u8;
    assert(buf@ =~= old(buf)@.take(off as int) + u32_le_bytes(x) + old(buf)@.skip(off + 4));
}

/// `b"QMOD"`.
pub open spec fn qmod_magic() -> Seq<u8> {
    seq![0x51u8, 0x4Du8, 0x4Fu8, 0x44u8]
}

/// `b"QTRN"`.
pub open spec fn qtrn_magic() -> Seq<u8> {
    seq![0x51u8, 0x54u8, 0x52u8, 0x4Eu8]
}

// ─────────────────────────────────────────────────────────────────────────────
// QModelHeader
// ─────────────────────────────────────────────────────────────────────────────

/// Header of a single-block `QMOD` model.
#[derive(Debug, Clone, Copy, PartialEq, Eq)]
pub struct QModelHeader {
    pub magic: [u8; 4],
    pub version: u32,
    pub vocab: u32,
    pub seq: u32,
    pub dim: u32,
    pub hidden: u32,
}

/// What [`QModelHeader::parse`] returns for `b`.
pub open spec fn spec_parse_model_header(b: Seq<u8>) -> Result<QModelHeader, ModelLoadError> {
    if b.len() < 24 {
        Err(ModelLoadError::BufferTooSmall)
    } else if b.take(4) != qmod_magic() {
        Err(ModelLoadError::InvalidMagic)
    } else if le_u32_at(b, 4) != 1 {
        Err(ModelLoadError::UnsupportedVersion)
    } else {
        Ok(
            QModelHeader {
                magic: [b[0], b[1], b[2], b[3]],
                version: le_u32_at(b, 4),
                vocab: le_u32_at(b, 8),
                seq: le_u32_at(b, 12),
                dim: le_u32_at(b, 16),
                hidden: le_u32_at(b, 20),
            },
        )
    }
}

/// The 24 bytes [`QModelHeader::to_bytes`] writes for `h`.
pub open spec fn model_header_bytes(h: QModelHeader) -> Seq<u8> {
    h.magic@ + u32_le_bytes(h.version) + u32_le_bytes(h.vocab) + u32_le_bytes(h.seq)
        + u32_le_bytes(h.dim) + u32_le_bytes(h.hidden)
}

/// Total byte size of a `QMOD` model with these dimensions.
pub open spec fn model_size_for(v: int, d: int, h: int) -> int {
    24 + v * d + d * d + d * d + d * d + d + d * h + h * d + d + d * v
}

impl QModelHeader {
    pub const SIZE: usize = 24;

    /// Parse the first 24 bytes of `bytes`.
    ///
    /// Errors, in this order: fewer than 24 bytes → `BufferTooSmall`; magic
    /// other than `"QMOD"` → `InvalidMagic`; version other than 1 →
    /// `UnsupportedVersion`. Otherwise the fields are decoded little-endian.
    pub fn parse(bytes: &[u8]) -> (r: Result<Self, ModelLoadError>)
        ensures
            r == spec_parse_model_header(bytes@),
    {
        if bytes.len() < Self::SIZE {
            return Err(ModelLoadError::BufferTooSmall);
        }
        let magic = [bytes[0], bytes[1], bytes[2], bytes[3]];
        if !(magic[0] == 0x51 && magic[1] == 0x4D && magic[2] == 0x4F && magic[3] == 0x44) {
            proof {
                assert(bytes@.take(4) != qmod_magic()) by {
                    if bytes@.take(4) == qmod_magic() {
                        assert(bytes@.take(4)[0] == bytes@[0]);
                        assert(bytes@.take(4)[1] == bytes@[1]);
                        assert(bytes@.take(4)[2] == bytes@[2]);
                        assert(bytes@.take(4)[3] == bytes@[3]);
                    }
                }
            }
            return Err(ModelLoadError::InvalidMagic);
        }
        proof {
            assert(bytes@.take(4) =~= qmod_magic());
        }
        let version = read_u32_le(bytes, 4);
        if version != 1 {
            return Err(ModelLoadError::UnsupportedVersion);
        }
        let vocab = read_u32_le(bytes, 8);
        let seq = read_u32_le(bytes, 12);
        let dim = read_u32_le(bytes, 16);
        let hidden = read_u32_le(bytes, 20);
        Ok(QModelHeader { magic, version, vocab, seq, dim, hidden })
    }

    /// Serialize into the 24-byte on-disk layout.
    pub fn to_bytes(&self) -> (buf: [u8; 24])
        ensures
            buf@ == model_header_bytes(*self),
    {
        let mut buf = [0u8; 24];
        buf[0] = self.magic[0];
        buf[1] = self.magic[1];
        buf[2] = self.magic[2];
        buf[3] = self.magic[3];
        write_u32_le(&mut buf, 4, self.version);
        write_u32_le(&mut buf, 8, self.vocab);
        write_u32_le(&mut buf, 12, self.seq);
        write_u32_le(&mut buf, 16, self.dim);
        write_u32_le(&mut buf, 20, self.hidden);
        assert(buf@ =~= model_header_bytes(*self));
        buf
    }

    /// Total byte size of the model this header describes (header,
    /// embedding, Q/K/V projections, two norms, feed-forward, output).
    pub fn expected_model_size(&self) -> (n: usize)
        requires
            model_size_for(self.vocab as int, self.dim as int, self.hidden as int) <= usize::MAX,
        ensures
            n == model_size_for(self.vocab as int, self.dim as int, self.hidden as int),
    {
        let v = self.vocab as usize;
        let d = self.dim as usize;
        let h = self.hidden as usize;
        proof {
            assert(0 <= v * d && 0 <= d * d && 0 <= d * h && 0 <= h * d && 0 <= d * v)
                by (nonlinear_arith)
                requires
                    v >= 0,
                    d >= 0,
                    h >= 0,
            ;
        }
        Self::SIZE + (v * d) + (d * d) + (d * d) + (d * d) + d + (d * h) + (h * d) + d + (d * v)
    }
}

/// Serializing a `QMOD` version-1 header and parsing the bytes gives the
/// header back.
pub proof fn lemma_model_header_roundtrip(h: QModelHeader)
    requires
        h.magic@ == qmod_magic(),
        h.version == 1,
    ensures
        spec_parse_model_header(model_header_bytes(h)) == Ok::<QModelHeader, ModelLoadError>(h),
{
    let b = model_header_bytes(h);
    lemma_le_u32_roundtrip(h.version);
    lemma_le_u32_roundtrip(h.vocab);
    lemma_le_u32_roundtrip(h.seq);
    lemma_le_u32_roundtrip(h.dim);
    lemma_le_u32_roundtrip(h.hidden);
    assert(b.take(4) =~= h.magic@);
    assert(le_u32_at(b, 4) == le_u32_at(u32_le_bytes(h.version), 0));
    assert(le_u32_at(b, 8) == le_u32_at(u32_le_bytes(h.vocab), 0));
    assert(le_u32_at(b, 12) == le_u32_at(u32_le_bytes(h.seq), 0));
    assert(le_u32_at(b, 16) == le_u32_at(u32_le_bytes(h.dim), 0));
    assert(le_u32_at(b, 20) == le_u32_at(u32_le_bytes(h.hidden), 0));
    assert([b[0], b[1], b[2], b[3]] =~= h.magic);
}

/// A header that parses successfully serializes back to exactly the first
/// 24 bytes it was parsed from.
pub proof fn lemma_model_header_bytes_of_parsed(b: Seq<u8>)
    requires
        spec_parse_model_header(b) is Ok,
    ensures
        model_header_bytes(spec_parse_model_header(b)->Ok_0) == b.take(24),
{
    let h = spec_parse_model_header(b)->Ok_0;
    lemma_u32_le_bytes_of_decoded(b, 4);
    lemma_u32_le_bytes_of_decoded(b, 8);
    lemma_u32_le_bytes_of_decoded(b, 12);
    lemma_u32_le_bytes_of_decoded(b, 16);
    lemma_u32_le_bytes_of_decoded(b, 20);
    assert(h.magic@ =~= b.subrange(0, 4));
    assert(model_header_bytes(h) =~= b.take(24));
}

// ─────────────────────────────────────────────────────────────────────────────
// QTransformerHeader
// ─────────────────────────────────────────────────────────────────────────────

/// Header of a multi-layer `QTRN` transformer model.
#[derive(Debug, Clone, Copy, PartialEq, Eq)]
pub struct QTransformerHeader {
    pub magic: [u8; 4],
    pub version: u32,
    pub vocab_size: u32,
    pub seq_len: u32,
    pub dim: u32,
    pub heads: u32,
    pub layers: u32,
    pub hidden: u32,
}

/// What [`QTransformerHeader::parse`] returns for `b`.
pub open spec fn spec_parse_transformer_header(b: Seq<u8>) -> Result<
    QTransformerHeader,
    ModelLoadError,
> {
    if b.len() < 32 {
        Err(ModelLoadError::BufferTooSmall)
    } else if b.take(4) != qtrn_magic() {
        Err(ModelLoadError::InvalidMagic)
    } else if le_u32_at(b, 4) != 1 {
        Err(ModelLoadError::UnsupportedVersion)
    } else {
        Ok(
            QTransformerHeader {
                magic: [b[0], b[1], b[2], b[3]],
                version: le_u32_at(b, 4),
                vocab_size: le_u32_at(b, 8),
                seq_len: le_u32_at(b, 12),
                dim: le_u32_at(b, 16),
                heads: le_u32_at(b, 20),
                layers: le_u32_at(b, 24),
                hidden: le_u32_at(b, 28),
            },
        )
    }
}

/// The 32 bytes [`QTransformerHeader::to_bytes`] writes for `h`.
pub open spec fn transformer_header_bytes(h: QTransformerHeader) -> Seq<u8> {
    h.magic@ + u32_le_bytes(h.version) + u32_le_bytes(h.vocab_size) + u32_le_bytes(h.seq_len)
        + u32_le_bytes(h.dim) + u32_le_bytes(h.heads) + u32_le_bytes(h.layers) + u32_le_bytes(
        h.hidden,
    )
}

impl QTransformerHeader {
    pub const SIZE: usize = 32;

    /// Parse the first 32 bytes of `bytes`.
    ///
    /// Errors, in this order: fewer than 32 bytes → `BufferTooSmall`; magic
    /// other than `"QTRN"` → `InvalidMagic`; version other than 1 →
    /// `UnsupportedVersion`. Otherwise the fields are decoded little-endian.
    pub fn parse(bytes: &[u8]) -> (r: Result<Self, ModelLoadError>)
        ensures
            r == spec_parse_transformer_header(bytes@),
    {
        if bytes.len() < Self::SIZE {
            return Err(ModelLoadError::BufferTooSmall);
        }
        let magic = [bytes[0], bytes[1], bytes[2], bytes[3]];
        if !(magic[0] == 0x51 && magic[1] == 0x54 && magic[2] == 0x52 && magic[3] == 0x4E) {
            proof {
                assert(bytes@.take(4) != qtrn_magic()) by {
                    if bytes@.take(4) == qtrn_magic() {
                        assert(bytes@.take(4)[0] == bytes@[0]);
                        assert(bytes@.take(4)[1] == bytes@[1]);
                        assert(bytes@.take(4)[2] == bytes@[2]);
                        assert(bytes@.take(4)[3] == bytes@[3]);
                    }
                }
            }
            return Err(ModelLoadError::InvalidMagic);
        }
        proof {
            assert(bytes@.take(4) =~= qtrn_magic());
        }
        let version = read_u32_le(bytes, 4);
        if version != 1 {
            return Err(ModelLoadError::UnsupportedVersion);
        }
        let vocab_size = read_u32_le(bytes, 8);
        let seq_len = read_u32_le(bytes, 12);
        let dim = read_u32_le(bytes, 16);
        let heads = read_u32_le(bytes, 20);
        let layers = read_u32_le(bytes, 24);
        let hidden = read_u32_le(bytes, 28);
        Ok(QTransformerHeader { magic, version, vocab_size, seq_len, dim, heads, layers, hidden })
    }

    /// Serialize into the 32-byte on-disk layout.
    pub fn to_bytes(&self) -> (buf: [u8; 32])
        ensures
            buf@ == transformer_header_bytes(*self),
    {
        let mut buf = [0u8; 32];
        buf[0] = self.magic[0];
        buf[1] = self.magic[1];
        buf[2] = self.magic[2];
        buf[3] = self.magic[3];
        write_u32_le(&mut buf, 4, self.version);
        write_u32_le(&mut buf, 8, self.vocab_size);
        write_u32_le(&mut buf, 12, self.seq_len);
        write_u32_le(&mut buf, 16, self.dim);
        write_u32_le(&mut buf, 20, self.heads);
        write_u32_le(&mut buf, 24, self.layers);
        write_u32_le(&mut buf, 28, self.hidden);
        assert(buf@ =~= transformer_header_bytes(*self));
        buf
    }
}

/// Serializing a `QTRN` version-1 header and parsing the bytes gives the
/// header back.
pub proof fn lemma_transformer_header_roundtrip(h: QTransformerHeader)
    requires
        h.magic@ == qtrn_magic(),
        h.version == 1,
    ensures
        spec_parse_transformer_header(transformer_header_bytes(h)) == Ok::<
            QTransformerHeader,
            ModelLoadError,
        >(h),
{
    let b = transformer_header_bytes(h);
    lemma_le_u32_roundtrip(h.version);
    lemma_le_u32_roundtrip(h.vocab_size);
    lemma_le_u32_roundtrip(h.seq_len);
    lemma_le_u32_roundtrip(h.dim);
    lemma_le_u32_roundtrip(h.heads);
    lemma_le_u32_roundtrip(h.layers);
    lemma_le_u32_roundtrip(h.hidden);
    assert(b.take(4) =~= h.magic@);
    assert(le_u32_at(b, 4) == le_u32_at(u32_le_bytes(h.version), 0));
    assert(le_u32_at(b, 8) == le_u32_at(u32_le_bytes(h.vocab_size), 0));
    assert(le_u32_at(b, 12) == le_u32_at(u32_le_bytes(h.seq_len), 0));
    assert(le_u32_at(b, 16) == le_u32_at(u32_le_bytes(h.dim), 0));
    assert(le_u32_at(b, 20) == le_u32_at(u32_le_bytes(h.heads), 0));
    assert(le_u32_at(b, 24) == le_u32_at(u32_le_bytes(h.layers), 0));
    assert(le_u32_at(b, 28) == le_u32_at(u32_le_bytes(h.hidden), 0));
    assert([b[0], b[1], b[2], b[3]] =~= h.magic);
}

/// A `QTRN` header is read from fixed places: after the magic `"QTRN"` and
/// version 1, `vocab_size`, `seq_len`, `dim`, `heads`, `layers` and `hidden`
/// are the little-endian `u32`s at bytes 8, 12, 16, 20, 24 and 28.
pub proof fn lemma_transformer_header_fields(b: Seq<u8>)
    requires
        b.len() >= 32,
        b[0] == 0x51u8,
        b[1] == 0x54u8,
        b[2] == 0x52u8,
        b[3] == 0x4Eu8,
        b[4] + 256 * b[5] + 65536 * b[6] + 16777216 * b[7] == 1,
    ensures
        spec_parse_transformer_header(b) is Ok,
        ({
            let hd = spec_parse_transformer_header(b)->Ok_0;
            &&& hd.version == 1
            &&& hd.vocab_size as int == b[8] + 256 * b[9] + 65536 * b[10] + 16777216 * b[11]
            &&& hd.seq_len as int == b[12] + 256 * b[13] + 65536 * b[14] + 16777216 * b[15]
            &&& hd.dim as int == b[16] + 256 * b[17] + 65536 * b[18] + 16777216 * b[19]
            &&& hd.heads as int == b[20] + 256 * b[21] + 65536 * b[22] + 16777216 * b[23]
            &&& hd.layers as int == b[24] + 256 * b[25] + 65536 * b[26] + 16777216 * b[27]
            &&& hd.hidden as int == b[28] + 256 * b[29] + 65536 * b[30] + 16777216 * b[31]
        }),
{
    assert(b.take(4) =~= seq![0x51u8, 0x54u8, 0x52u8, 0x4Eu8]);
    assert(b[8] + 256 * b[9] + 65536 * b[10] + 16777216 * b[11] <= u32::MAX);
    assert(b[12] + 256 * b[13] + 65536 * b[14] + 16777216 * b[15] <= u32::MAX);
    assert(b[16] + 256 * b[17] + 65536 * b[18] + 16777216 * b[19] <= u32::MAX);
    assert(b[20] + 256 * b[21] + 65536 * b[22] + 16777216 * b[23] <= u32::MAX);
    assert(b[24] + 256 * b[25] + 65536 * b[26] + 16777216 * b[27] <= u32::MAX);
    assert(b[28] + 256 * b[29] + 65536 * b[30] + 16777216 * b[31] <= u32::MAX);
}

/// [`QTransformerHeader::to_bytes`] writes the magic at bytes 0–3 and
/// `version`, `vocab_size`, `seq_len`, `dim`, `heads`, `layers` and
/// `hidden` as little-endian `u32`s at bytes 4, 8, 12, 16, 20, 24 and 28.
pub proof fn lemma_transformer_header_layout(h: QTransformerHeader)
    ensures
        transformer_header_bytes(h).len() == 32,
        forall|k: int| 0 <= k < 4 ==> #[trigger] transformer_header_bytes(h)[k] == h.magic[k],
        ({
            let b = transformer_header_bytes(h);
            &&& b[4] + 256 * b[5] + 65536 * b[6] + 16777216 * b[7] == h.version as int
            &&& b[8] + 256 * b[9] + 65536 * b[10] + 16777216 * b[11] == h.vocab_size as int
            &&& b[12] + 256 * b[13] + 65536 * b[14] + 16777216 * b[15] == h.seq_len as int
            &&& b[16] + 256 * b[17] + 65536 * b[18] + 16777216 * b[19] == h.dim as int
            &&& b[20] + 256 * b[21] + 65536 * b[22] + 16777216 * b[23] == h.heads as int
            &&& b[24] + 256 * b[25] + 65536 * b[26] + 16777216 * b[27] == h.layers as int
            &&& b[28] + 256 * b[29] + 65536 * b[30] + 16777216 * b[31] == h.hidden as int
        }),
{
    let b = transformer_header_bytes(h);
    assert(b.subrange(4, 8) =~= u32_le_bytes(h.version));
    lemma_le_u32_roundtrip(h.version);
    assert(b[4] == u32_le_bytes(h.version)[0] && b[5] == u32_le_bytes(h.version)[1] && b[6] == u32_le_bytes(h.version)[2] && b[7] == u32_le_bytes(h.version)[3]);
    assert(b.subrange(8, 12) =~= u32_le_bytes(h.vocab_size));
    lemma_le_u32_roundtrip(h.vocab_size);
    assert(b[8] == u32_le_bytes(h.vocab_size)[0] && b[9] == u32_le_bytes(h.vocab_size)[1] && b[10] == u32_le_bytes(h.vocab_size)[2] && b[11] == u32_le_bytes(h.vocab_size)[3]);
    assert(b.subrange(12, 16) =~= u32_le_bytes(h.seq_len));
    lemma_le_u32_roundtrip(h.seq_len);
    assert(b[12] == u32_le_bytes(h.seq_len)[0] && b[13] == u32_le_bytes(h.seq_len)[1] && b[14] == u32_le_bytes(h.seq_len)[2] && b[15] == u32_le_bytes(h.seq_len)[3]);
    assert(b.subrange(16, 20) =~= u32_le_bytes(h.dim));
    lemma_le_u32_roundtrip(h.dim);
    assert(b[16] == u32_le_bytes(h.dim)[0] && b[17] == u32_le_bytes(h.dim)[1] && b[18] == u32_le_bytes(h.dim)[2] && b[19] == u32_le_bytes(h.dim)[3]);
    assert(b.subrange(20, 24) =~= u32_le_bytes(h.heads));
    lemma_le_u32_roundtrip(h.heads);
    assert(b[20] == u32_le_bytes(h.heads)[0] && b[21] == u32_le_bytes(h.heads)[1] && b[22] == u32_le_bytes(h.heads)[2] && b[23] == u32_le_bytes(h.heads)[3]);
    assert(b.subrange(24, 28) =~= u32_le_bytes(h.layers));
    lemma_le_u32_roundtrip(h.layers);
    assert(b[24] == u32_le_bytes(h.layers)[0] && b[25] == u32_le_bytes(h.layers)[1] && b[26] == u32_le_bytes(h.layers)[2] && b[27] == u32_le_bytes(h.layers)[3]);
    assert(b.subrange(28, 32) =~= u32_le_bytes(h.hidden));
    lemma_le_u32_roundtrip(h.hidden);
    assert(b[28] == u32_le_bytes(h.hidden)[0] && b[29] == u32_le_bytes(h.hidden)[1] && b[30] == u32_le_bytes(h.hidden)[2] && b[31] == u32_le_bytes(h.hidden)[3]);
}

/// A `QMOD` header is read from fixed places: after the magic `"QMOD"` and
/// version 1, `vocab`, `seq`, `dim` and `hidden` are the little-endian
/// `u32`s at bytes 8, 12, 16 and 20.
pub proof fn lemma_model_header_fields(b: Seq<u8>)
    requires
        b.len() >= 24,
        b[0] == 0x51u8,
        b[1] == 0x4Du8,
        b[2] == 0x4Fu8,
        b[3] == 0x44u8,
        b[4] + 256 * b[5] + 65536 * b[6] + 16777216 * b[7] == 1,
    ensures
        spec_parse_model_header(b) is Ok,
        ({
            let hd = spec_parse_model_header(b)->Ok_0;
            &&& hd.version == 1
            &&& hd.vocab as int == b[8] + 256 * b[9] + 65536 * b[10] + 16777216 * b[11]
            &&& hd.seq as int == b[12] + 256 * b[13] + 65536 * b[14] + 16777216 * b[15]
            &&& hd.dim as int == b[16] + 256 * b[17] + 65536 * b[18] + 16777216 * b[19]
            &&& hd.hidden as int == b[20] + 256 * b[21] + 65536 * b[22] + 16777216 * b[23]
        }),
{
    assert(b.take(4) =~= seq![0x51u8, 0x4Du8, 0x4Fu8, 0x44u8]);
    assert(b[8] + 256 * b[9] + 65536 * b[10] + 16777216 * b[11] <= u32::MAX);
    assert(b[12] + 256 * b[13] + 65536 * b[14] + 16777216 * b[15] <= u32::MAX);
    assert(b[16] + 256 * b[17] + 65536 * b[18] + 16777216 * b[19] <= u32::MAX);
    assert(b[20] + 256 * b[21] + 65536 * b[22] + 16777216 * b[23] <= u32::MAX);
}

/// [`QModelHeader::to_bytes`] writes the magic at bytes 0–3 and `version`,
/// `vocab`, `seq`, `dim` and `hidden` as little-endian `u32`s at bytes 4,
/// 8, 12, 16 and 20.
pub proof fn lemma_model_header_layout(h: QModelHeader)
    ensures
        model_header_bytes(h).len() == 24,
        forall|k: int| 0 <= k < 4 ==> #[trigger] model_header_bytes(h)[k] == h.magic[k],
        ({
            let b = model_header_bytes(h);
            &&& b[4] + 256 * b[5] + 65536 * b[6] + 16777216 * b[7] == h.version as int
            &&& b[8] + 256 * b[9] + 65536 * b[10] + 16777216 * b[11] == h.vocab as int
            &&& b[12] + 256 * b[13] + 65536 * b[14] + 16777216 * b[15] == h.seq as int
            &&& b[16] + 256 * b[17] + 65536 * b[18] + 16777216 * b[19] == h.dim as int
            &&& b[20] + 256 * b[21] + 65536 * b[22] + 16777216 * b[23] == h.hidden as int
        }),
{
    let b = model_header_bytes(h);
    assert(b.subrange(4, 8) =~= u32_le_bytes(h.version));
    lemma_le_u32_roundtrip(h.version);
    assert(b[4] == u32_le_bytes(h.version)[0] && b[5] == u32_le_bytes(h.version)[1] && b[6] == u32_le_bytes(h.version)[2] && b[7] == u32_le_bytes(h.version)[3]);
    assert(b.subrange(8, 12) =~= u32_le_bytes(h.vocab));
    lemma_le_u32_roundtrip(h.vocab);
    assert(b[8] == u32_le_bytes(h.vocab)[0] && b[9] == u32_le_bytes(h.vocab)[1] && b[10] == u32_le_bytes(h.vocab)[2] && b[11] == u32_le_bytes(h.vocab)[3]);
    assert(b.subrange(12, 16) =~= u32_le_bytes(h.seq));
    lemma_le_u32_roundtrip(h.seq);
    assert(b[12] == u32_le_bytes(h.seq)[0] && b[13] == u32_le_bytes(h.seq)[1] && b[14] == u32_le_bytes(h.seq)[2] && b[15] == u32_le_bytes(h.seq)[3]);
    assert(b.subrange(16, 20) =~= u32_le_bytes(h.dim));
    lemma_le_u32_roundtrip(h.dim);
    assert(b[16] == u32_le_bytes(h.dim)[0] && b[17] == u32_le_bytes(h.dim)[1] && b[18] == u32_le_bytes(h.dim)[2] && b[19] == u32_le_bytes(h.dim)[3]);
    assert(b.subrange(20, 24) =~= u32_le_bytes(h.hidden));
    lemma_le_u32_roundtrip(h.hidden);
    assert(b[20] == u32_le_bytes(h.hidden)[0] && b[21] == u32_le_bytes(h.hidden)[1] && b[22] == u32_le_bytes(h.hidden)[2] && b[23] == u32_le_bytes(h.hidden)[3]);
}

} // verus!
