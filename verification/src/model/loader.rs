//! Model loaders.
//!
//! `QMOD` layout after the 24-byte header, one `i8` per weight, row-major:
//!
//! ```text
//! embedding VOCAB×DIM | q_proj DIM×DIM | k_proj DIM×DIM | v_proj DIM×DIM |
//! norm1 DIM | ff1 DIM×HIDDEN | ff2 HIDDEN×DIM | norm2 DIM | output DIM×VOCAB
//! ```
//!
//! Every scale of a `QMOD` model is 1.0 and its RMSNorm epsilon is 1e-5.

use vstd::prelude::*;
use crate::matrix::Matrix;
use crate::nn::embedding::QEmbedding;
use crate::nn::transformer::QTransformerBlock;
use crate::nn::linear::QLinear;
use crate::nn::rmsnorm::QRMSNorm;
use crate::quant::{QTensor, QuantParams, RequantShift};
use crate::quant::requant::{ratio_multiplier, frexp_exponent};
use crate::quant::clip::clamp_int;
use crate::quant::scale::{ONE_F32_BITS, RMS_EPS_F32_BITS, i8_to_f32_bits, f32_bits_of_small_int};
use crate::model::format::{
    QModelHeader,
    QTransformerHeader,
    spec_parse_transformer_header,
    ModelLoadError,
    spec_parse_model_header,
    model_size_for,
    le_u32_at,
};
use crate::model::tensor::BufferReader;

verus! {

/// The single-block model stored in a `QMOD` file.
pub struct QModel<const VOCAB: usize, const SEQ: usize, const DIM: usize, const HIDDEN: usize> {
    pub embedding: QEmbedding<VOCAB, DIM>,
    pub transformer: QTransformerBlock<SEQ, DIM, HIDDEN>,
    pub output: QLinear<DIM, VOCAB>,
}

/// Total byte size of a `QMOD` model with these dimensions.
pub fn expected_model_size<const VOCAB: usize, const SEQ: usize, const DIM: usize, const HIDDEN: usize>() -> (n: usize)
    requires
        model_size_for(VOCAB as int, DIM as int, HIDDEN as int) <= usize::MAX,
    ensures
        n == model_size_for(VOCAB as int, DIM as int, HIDDEN as int),
{
    proof {
        assert(0 <= VOCAB * DIM && 0 <= DIM * DIM && 0 <= DIM * HIDDEN && 0 <= HIDDEN * DIM && 0
            <= DIM * VOCAB) by (nonlinear_arith);
    }
    QModelHeader::SIZE + (VOCAB * DIM) + (DIM * DIM) + (DIM * DIM) + (DIM * DIM) + DIM + (DIM
        * HIDDEN) + (HIDDEN * DIM) + DIM + (DIM * VOCAB)
}

/// `m` holds the `R × C` bytes of `b` starting at `off`, reinterpreted as
/// `i8`.
pub open spec fn matrix_at<const R: usize, const C: usize>(
    m: Matrix<i8, R, C>,
    b: Seq<u8>,
    off: int,
) -> bool {
    forall|i: int, j: int| 0 <= i < R && 0 <= j < C ==> #[trigger] m.data[i][j] == b[off + i * C + j] as i8
}

/// `a[i]` is the `f32` bit pattern stored little-endian at `off + 4 i`.
pub open spec fn f32s_at<const N: usize>(a: [u32; N], b: Seq<u8>, off: int) -> bool {
    forall|i: int| 0 <= i < N ==> #[trigger] a[i] == le_u32_at(b, off + 4 * i)
}

/// The shift pair of a unit scale ratio (`1.0 × 1.0 / 1.0`).
pub open spec fn unit_requant() -> RequantShift {
    RequantShift { multiplier: 0x4000_0000, shift: 30 }
}

/// `l` is a bias-free linear layer with weights `w` whose scales are all
/// 1.0 (so its requantization is the identity).
pub open spec fn is_unit_linear<const I: usize, const O: usize>(
    l: QLinear<I, O>,
    w: Matrix<i8, I, O>,
    relu: bool,
) -> bool {
    &&& l.weights == w
    &&& l.bias is None
    &&& forall|c: int| 0 <= c < O ==> #[trigger] l.weight_scales[c] == ONE_F32_BITS
    &&& forall|c: int| 0 <= c < O ==> #[trigger] l.requant[c] == unit_requant()
    &&& l.out_params == QuantParams { scale: ONE_F32_BITS, zero_point: 0 }
    &&& l.relu == relu
    &&& l.input_scale == ONE_F32_BITS
}

/// `n` is an RMSNorm whose weights are the `DIM` bytes at `off` (as `i8`
/// converted to `f32`) and whose epsilon is 1e-5.
pub open spec fn is_byte_norm<const DIM: usize>(n: QRMSNorm<DIM>, b: Seq<u8>, off: int) -> bool {
    &&& n.eps == RMS_EPS_F32_BITS
    &&& forall|i: int| 0 <= i < DIM ==> #[trigger] n.weight[i] as int == f32_bits_of_small_int(
        (b[off + i] as i8) as int,
    )
}

/// `m` is the model stored in the body `b` (the bytes after the header).
pub open spec fn qmodel_decoded<const VOCAB: usize, const SEQ: usize, const DIM: usize, const HIDDEN: usize>(
    m: QModel<VOCAB, SEQ, DIM, HIDDEN>,
    b: Seq<u8>,
) -> bool {
    let v = VOCAB as int;
    let d = DIM as int;
    let h = HIDDEN as int;
    let o_q = v * d;
    let o_k = o_q + d * d;
    let o_v = o_k + d * d;
    let o_n1 = o_v + d * d;
    let o_ff1 = o_n1 + d;
    let o_ff2 = o_ff1 + d * h;
    let o_n2 = o_ff2 + h * d;
    let o_out = o_n2 + d;
    &&& matrix_at(m.embedding.weights.data, b, 0)
    &&& m.embedding.weights.params == QuantParams { scale: ONE_F32_BITS, zero_point: 0 }
    &&& matrix_at(m.transformer.q_proj.weights, b, o_q)
    &&& is_unit_linear(m.transformer.q_proj, m.transformer.q_proj.weights, false)
    &&& matrix_at(m.transformer.k_proj.weights, b, o_k)
    &&& is_unit_linear(m.transformer.k_proj, m.transformer.k_proj.weights, false)
    &&& matrix_at(m.transformer.v_proj.weights, b, o_v)
    &&& is_unit_linear(m.transformer.v_proj, m.transformer.v_proj.weights, false)
    &&& is_byte_norm(m.transformer.norm1, b, o_n1)
    &&& matrix_at(m.transformer.ff1.weights, b, o_ff1)
    &&& is_unit_linear(m.transformer.ff1, m.transformer.ff1.weights, true)
    &&& matrix_at(m.transformer.ff2.weights, b, o_ff2)
    &&& is_unit_linear(m.transformer.ff2, m.transformer.ff2.weights, false)
    &&& is_byte_norm(m.transformer.norm2, b, o_n2)
    &&& matrix_at(m.output.weights, b, o_out)
    &&& is_unit_linear(m.output, m.output.weights, false)
    &&& m.transformer.attn_requant == unit_requant()
    &&& m.transformer.attn_out_params == QuantParams { scale: ONE_F32_BITS, zero_point: 0 }
}

/// A bias-free linear layer with unit scales.
fn unit_linear<const I: usize, const O: usize>(w: Matrix<i8, I, O>, relu: bool) -> (l: QLinear<I, O>)
    ensures
        is_unit_linear(l, w, relu),
{
    let rs = RequantShift::from_ratio_bits(ONE_F32_BITS);
    proof {
        crate::quant::requant::lemma_unit_ratio_is_identity(0);
        assert(rs == unit_requant());
    }
    QLinear {
        weights: w,
        bias: None,
        weight_scales: [ONE_F32_BITS; O],
        requant: [rs; O],
        out_params: QuantParams::symmetric(ONE_F32_BITS),
        relu,
        input_scale: ONE_F32_BITS,
    }
}

/// RMSNorm weights from `i8` values (converted exactly to `f32`), epsilon
/// 1e-5.
fn byte_norm<const DIM: usize>(w: [i8; DIM]) -> (n: QRMSNorm<DIM>)
    ensures
        n.eps == RMS_EPS_F32_BITS,
        forall|i: int| 0 <= i < DIM ==> #[trigger] n.weight[i] as int == f32_bits_of_small_int(w[i] as int),
{
    let mut bits = [0u32; DIM];
    for i in 0..DIM
        invariant
            forall|j: int| 0 <= j < i ==> #[trigger] bits[j] as int == f32_bits_of_small_int(w[j] as int),
    {
        bits[i] = i8_to_f32_bits(w[i]);
    }
    QRMSNorm::new(bits, RMS_EPS_F32_BITS)
}

/// Load a `QMOD` model whose dimensions are the const parameters.
///
/// - `bytes.len()` other than the expected size → `ShapeMismatch`;
/// - otherwise a header error (`InvalidMagic`, `UnsupportedVersion`) is
///   returned as is;
/// - a header whose dimensions differ from the const parameters →
///   `ShapeMismatch`;
/// - otherwise the model, decoded from the bytes after the header.
pub fn load_from_bytes<const VOCAB: usize, const SEQ: usize, const DIM: usize, const HIDDEN: usize>(
    bytes: &[u8],
) -> (r: Result<QModel<VOCAB, SEQ, DIM, HIDDEN>, ModelLoadError>)
    requires
        model_size_for(VOCAB as int, DIM as int, HIDDEN as int) <= usize::MAX,
    ensures
        bytes@.len() != model_size_for(VOCAB as int, DIM as int, HIDDEN as int) ==> r == Err::<
            QModel<VOCAB, SEQ, DIM, HIDDEN>,
            ModelLoadError,
        >(ModelLoadError::ShapeMismatch),
        bytes@.len() == model_size_for(VOCAB as int, DIM as int, HIDDEN as int) ==> match spec_parse_model_header(bytes@) {
            Err(e) => r == Err::<QModel<VOCAB, SEQ, DIM, HIDDEN>, ModelLoadError>(e),
            Ok(h) => if h.vocab != VOCAB || h.seq != SEQ || h.dim != DIM || h.hidden != HIDDEN {
                r == Err::<QModel<VOCAB, SEQ, DIM, HIDDEN>, ModelLoadError>(
                    ModelLoadError::ShapeMismatch,
                )
            } else {
                r is Ok && qmodel_decoded(r->Ok_0, bytes@.skip(24))
            },
        },
{
    let expected = expected_model_size::<VOCAB, SEQ, DIM, HIDDEN>();
    if bytes.len() != expected {
        return Err(ModelLoadError::ShapeMismatch);
    }
    let header = QModelHeader::parse(bytes)?;
    if header.vocab as usize != VOCAB || header.seq as usize != SEQ || header.dim as usize != DIM
        || header.hidden as usize != HIDDEN {
        return Err(ModelLoadError::ShapeMismatch);
    }

    let ghost body = bytes@.skip(24);
    let ghost v = VOCAB as int;
    let ghost d = DIM as int;
    let ghost h = HIDDEN as int;
    proof {
        assert(0 <= v * d && 0 <= d * d && 0 <= d * h && 0 <= h * d && 0 <= d * v)
            by (nonlinear_arith)
            requires
                v >= 0,
                d >= 0,
                h >= 0,
        ;
        assert(d * v == v * d) by (nonlinear_arith);
        assert(h * d == d * h) by (nonlinear_arith);
    }
    let mut reader = BufferReader::new(&bytes[QModelHeader::SIZE..bytes.len()]);
    proof {
        assert(reader.spec_bytes() =~= body);
    }
    let params = QuantParams::symmetric(ONE_F32_BITS);

    let emb_mat = reader.extract_matrix::<VOCAB, DIM>()?;
    let embedding = QEmbedding::new(QTensor::new(emb_mat, params));

    let q_w = reader.extract_matrix::<DIM, DIM>()?;
    let q_proj = unit_linear(q_w, false);

    let k_w = reader.extract_matrix::<DIM, DIM>()?;
    let k_proj = unit_linear(k_w, false);

    let v_w = reader.extract_matrix::<DIM, DIM>()?;
    let v_proj = unit_linear(v_w, false);

    let norm1_w = reader.extract_array::<DIM>()?;
    let norm1 = byte_norm(norm1_w);

    let ff1_w = reader.extract_matrix::<DIM, HIDDEN>()?;
    let ff1 = unit_linear(ff1_w, true);

    let ff2_w = reader.extract_matrix::<HIDDEN, DIM>()?;
    let ff2 = unit_linear(ff2_w, false);

    let norm2_w = reader.extract_array::<DIM>()?;
    let norm2 = byte_norm(norm2_w);

    let out_w = reader.extract_matrix::<DIM, VOCAB>()?;
    let output = unit_linear(out_w, false);

    let attn_requant = RequantShift::from_ratio_bits(ONE_F32_BITS);
    proof {
        crate::quant::requant::lemma_unit_ratio_is_identity(0);
    }
    let transformer = QTransformerBlock {
        norm1,
        norm2,
        q_proj,
        k_proj,
        v_proj,
        ff1,
        ff2,
        attn_requant,
        attn_out_params: params,
    };
    Ok(QModel { embedding, transformer, output })
}

// ─────────────────────────────────────────────────────────────────────────────
// QMLP header
// ─────────────────────────────────────────────────────────────────────────────

/// Header of a `QMLP` two-layer perceptron file (20 bytes).
pub struct QMLPHeader {
    pub magic: [u8; 4],
    pub version: u32,
    pub input_dim: u32,
    pub hidden_dim: u32,
    pub output_dim: u32,
}

/// `b"QMLP"`.
pub open spec fn qmlp_magic() -> Seq<u8> {
    seq![0x51u8, 0x4Du8, 0x4Cu8, 0x50u8]
}

impl QMLPHeader {
    pub const SIZE: usize = 20;

    /// Parse the first 20 bytes of `bytes`.
    ///
    /// Errors, in this order: fewer than 20 bytes → `ShapeMismatch`; magic
    /// other than `"QMLP"` → `InvalidMagic`; version other than 1 →
    /// `UnsupportedVersion`. Otherwise the fields are decoded little-endian.
    pub fn parse(bytes: &[u8]) -> (r: Result<Self, ModelLoadError>)
        ensures
            bytes@.len() < 20 ==> r is Err && r->Err_0 == ModelLoadError::ShapeMismatch,
            bytes@.len() >= 20 && bytes@.take(4) != qmlp_magic() ==> r is Err && r->Err_0
                == ModelLoadError::InvalidMagic,
            bytes@.len() >= 20 && bytes@.take(4) == qmlp_magic() && le_u32_at(bytes@, 4) != 1 ==> r is Err
                && r->Err_0 == ModelLoadError::UnsupportedVersion,
            bytes@.len() >= 20 && bytes@.take(4) == qmlp_magic() && le_u32_at(bytes@, 4) == 1 ==> {
                &&& r is Ok
                &&& r->Ok_0.magic@ == qmlp_magic()
                &&& r->Ok_0.version == 1
                &&& r->Ok_0.input_dim == le_u32_at(bytes@, 8)
                &&& r->Ok_0.hidden_dim == le_u32_at(bytes@, 12)
                &&& r->Ok_0.output_dim == le_u32_at(bytes@, 16)
            },
    {
        if bytes.len() < Self::SIZE {
            return Err(ModelLoadError::ShapeMismatch);
        }
        let magic = [bytes[0], bytes[1], bytes[2], bytes[3]];
        if !(magic[0] == 0x51 && magic[1] == 0x4D && magic[2] == 0x4C && magic[3] == 0x50) {
            proof {
                assert(bytes@.take(4) != qmlp_magic()) by {
                    if bytes@.take(4) == qmlp_magic() {
                        assert(bytes@.take(4)[0] == bytes@[0]);
                        assert(bytes@.take(4)[1] == bytes@[1]);
                        assert(bytes@.take(4)[2] == bytes@[2]);
                        assert(bytes@.take(4)[3] == bytes@[3]);
                    }
                }
            }
            return Err(ModelLoadError::InvalidMagic);
        }
        proof {
            assert(bytes@.take(4) =~= qmlp_magic());
            assert(magic@ =~= qmlp_magic());
        }
        let mut reader = BufferReader::new(bytes);
        let _ = reader.advance(4);
        let version = read_u32(&mut reader);
        if version != 1 {
            return Err(ModelLoadError::UnsupportedVersion);
        }
        let input_dim = read_u32(&mut reader);
        let hidden_dim = read_u32(&mut reader);
        let output_dim = read_u32(&mut reader);
        Ok(QMLPHeader { magic, version, input_dim, hidden_dim, output_dim })
    }
}

/// Read the next little-endian `u32` (4 bytes are known to remain).
fn read_u32(reader: &mut BufferReader) -> (x: u32)
    requires
        old(reader).spec_offset() + 4 <= old(reader).spec_bytes().len(),
        old(reader).spec_bytes().len() <= usize::MAX,
    ensures
        final(reader).spec_bytes() == old(reader).spec_bytes(),
        final(reader).spec_offset() == old(reader).spec_offset() + 4,
        x == le_u32_at(old(reader).spec_bytes(), old(reader).spec_offset() as int),
{
    match reader.extract_f32() {
        Ok(x) => x,
        Err(_) => 0,
    }
}

/// The contents of a `QMLP` file: both layers' weights, transposed to
/// `in × out`, their stored `i8` biases, and the `f32` scales (bit
/// patterns) of weights, biases and the input image.
pub struct MLPWeights<const IN: usize, const HIDDEN: usize, const OUT: usize> {
    pub fc1_w: Matrix<i8, IN, HIDDEN>,
    pub fc1_w_scale: u32,
    pub fc1_b: [i8; HIDDEN],
    pub fc1_b_scale: u32,
    pub fc2_w: Matrix<i8, HIDDEN, OUT>,
    pub fc2_w_scale: u32,
    pub fc2_b: [i8; OUT],
    pub fc2_b_scale: u32,
    pub img_scale: u32,
}

/// Size of a `QMLP` body (after the 20-byte header): both weight matrices
/// and bias vectors, then five `f32` scales.
pub open spec fn qmlp_body_len(i: int, h: int, o: int) -> int {
    h * i + h + o * h + o + 20
}

/// `m` holds the `QMLP` body `b`.
pub open spec fn qmlp_decoded<const IN: usize, const HIDDEN: usize, const OUT: usize>(
    m: MLPWeights<IN, HIDDEN, OUT>,
    b: Seq<u8>,
) -> bool {
    let i = IN as int;
    let h = HIDDEN as int;
    let o = OUT as int;
    let o_b1 = h * i;
    let o_w2 = o_b1 + h;
    let o_b2 = o_w2 + o * h;
    let o_sc = o_b2 + o;
    &&& forall|r: int, c: int|
        0 <= r < h && 0 <= c < i ==> #[trigger] m.fc1_w.data[c][r] == b[r * i + c] as i8
    &&& forall|k: int| 0 <= k < h ==> #[trigger] m.fc1_b[k] == b[o_b1 + k] as i8
    &&& forall|r: int, c: int|
        0 <= r < o && 0 <= c < h ==> #[trigger] m.fc2_w.data[c][r] == b[o_w2 + r * h + c] as i8
    &&& forall|k: int| 0 <= k < o ==> #[trigger] m.fc2_b[k] == b[o_b2 + k] as i8
    &&& m.fc1_w_scale == le_u32_at(b, o_sc)
    &&& m.fc1_b_scale == le_u32_at(b, o_sc + 4)
    &&& m.fc2_w_scale == le_u32_at(b, o_sc + 8)
    &&& m.fc2_b_scale == le_u32_at(b, o_sc + 12)
    &&& m.img_scale == le_u32_at(b, o_sc + 16)
}

/// Load a `QMLP` two-layer perceptron whose dimensions are the const
/// parameters.
///
/// - a header error is returned as is (see [`QMLPHeader::parse`]);
/// - a header whose dimensions differ → `ShapeMismatch`;
/// - a body shorter than the layout → `BufferTooSmall`;
/// - otherwise the decoded weights.
pub fn load_mlp_from_bytes<const IN: usize, const HIDDEN: usize, const OUT: usize>(bytes: &[u8]) -> (r:
    Result<MLPWeights<IN, HIDDEN, OUT>, ModelLoadError>)
    requires
        20 + qmlp_body_len(IN as int, HIDDEN as int, OUT as int) + 8 <= usize::MAX,
    ensures
        bytes@.len() < 20 ==> r == Err::<MLPWeights<IN, HIDDEN, OUT>, ModelLoadError>(
            ModelLoadError::ShapeMismatch,
        ),
        bytes@.len() >= 20 && bytes@.take(4) != qmlp_magic() ==> r == Err::<
            MLPWeights<IN, HIDDEN, OUT>,
            ModelLoadError,
        >(ModelLoadError::InvalidMagic),
        bytes@.len() >= 20 && bytes@.take(4) == qmlp_magic() && le_u32_at(bytes@, 4) != 1 ==> r
            == Err::<MLPWeights<IN, HIDDEN, OUT>, ModelLoadError>(ModelLoadError::UnsupportedVersion),
        bytes@.len() >= 20 && bytes@.take(4) == qmlp_magic() && le_u32_at(bytes@, 4) == 1 ==> {
            if le_u32_at(bytes@, 8) != IN || le_u32_at(bytes@, 12) != HIDDEN || le_u32_at(bytes@, 16)
                != OUT {
                r == Err::<MLPWeights<IN, HIDDEN, OUT>, ModelLoadError>(
                    ModelLoadError::ShapeMismatch,
                )
            } else if bytes@.len() < 20 + qmlp_body_len(IN as int, HIDDEN as int, OUT as int) {
                r == Err::<MLPWeights<IN, HIDDEN, OUT>, ModelLoadError>(
                    ModelLoadError::BufferTooSmall,
                )
            } else {
                r is Ok && qmlp_decoded(r->Ok_0, bytes@.skip(20))
            }
        },
{
    let header = QMLPHeader::parse(bytes)?;
    if header.input_dim as usize != IN || header.hidden_dim as usize != HIDDEN || header.output_dim
        as usize != OUT {
        return Err(ModelLoadError::ShapeMismatch);
    }
    let ghost body = bytes@.skip(20);
    let ghost i = IN as int;
    let ghost h = HIDDEN as int;
    let ghost o = OUT as int;
    proof {
        assert(0 <= h * i && 0 <= o * h) by (nonlinear_arith)
            requires
                i >= 0,
                h >= 0,
                o >= 0,
        ;
    }
    let mut reader = BufferReader::new(&bytes[QMLPHeader::SIZE..bytes.len()]);
    proof {
        assert(reader.spec_bytes() =~= body);
    }
    let fc1_w_data = reader.extract_matrix::<HIDDEN, IN>()?;
    let fc1_b = reader.extract_array::<HIDDEN>()?;
    let fc2_w_data = reader.extract_matrix::<OUT, HIDDEN>()?;
    let fc2_b = reader.extract_array::<OUT>()?;
    let fc1_w_scale = reader.extract_f32()?;
    let fc1_b_scale = reader.extract_f32()?;
    let fc2_w_scale = reader.extract_f32()?;
    let fc2_b_scale = reader.extract_f32()?;
    let img_scale = reader.extract_f32()?;
    Ok(MLPWeights {
        fc1_w: fc1_w_data.transposed(),
        fc1_w_scale,
        fc1_b,
        fc1_b_scale,
        fc2_w: fc2_w_data.transposed(),
        fc2_w_scale,
        fc2_b,
        fc2_b_scale,
        img_scale,
    })
}

// ─────────────────────────────────────────────────────────────────────────────
// Binary-loadable components of a QTRN model
// ─────────────────────────────────────────────────────────────────────────────

/// A component that reads itself from a [`BufferReader`].
///
/// On success exactly `encoded_len()` bytes are consumed and the value is
/// the one `decoded_from` describes; it fails with `BufferTooSmall` exactly
/// when fewer bytes remain.
pub trait BinaryLoadable: Sized {
    /// Bytes consumed by a successful load.
    spec fn encoded_len() -> int;

    /// Conditions on the component's dimensions for a load to be possible
    /// (without them the load would index an empty array).
    spec fn load_ok() -> bool;

    /// `v` is the component stored in `b` at offset `off`.
    spec fn decoded_from(b: Seq<u8>, off: int, v: Self) -> bool;

    fn load_from_reader(reader: &mut BufferReader) -> (r: Result<Self, ModelLoadError>)
        where Self: Sized
        requires
            Self::load_ok(),
            0 <= Self::encoded_len(),
            old(reader).spec_offset() <= old(reader).spec_bytes().len(),
            old(reader).spec_offset() + Self::encoded_len() + 4 <= usize::MAX,
        ensures
            final(reader).spec_bytes() == old(reader).spec_bytes(),
            old(reader).spec_offset() <= final(reader).spec_offset() <= final(reader).spec_bytes().len(),
            r is Ok <==> old(reader).spec_offset() + Self::encoded_len() <= old(reader).spec_bytes().len(),
            r is Err ==> r->Err_0 == ModelLoadError::BufferTooSmall,
            r is Ok ==> final(reader).spec_offset() == old(reader).spec_offset() + Self::encoded_len()
                && Self::decoded_from(
                    old(reader).spec_bytes(),
                    old(reader).spec_offset() as int,
                    r->Ok_0,
                ),
    ;
}

impl<const VOCAB: usize, const DIM: usize> BinaryLoadable for QEmbedding<VOCAB, DIM> {
    open spec fn encoded_len() -> int {
        VOCAB * DIM + 4 * VOCAB
    }

    open spec fn load_ok() -> bool {
        VOCAB > 0
    }

    /// The `VOCAB × DIM` table, then one `f32` scale per token of which the
    /// first is used (the tensor holds a single scale).
    open spec fn decoded_from(b: Seq<u8>, off: int, v: Self) -> bool {
        &&& matrix_at(v.weights.data, b, off)
        &&& v.weights.params == QuantParams { scale: le_u32_at(b, off + VOCAB * DIM), zero_point: 0 }
    }

    fn load_from_reader(reader: &mut BufferReader) -> (r: Result<Self, ModelLoadError>) {
        proof {
            assert(0 <= VOCAB * DIM) by (nonlinear_arith);
            assert(Self::encoded_len() == VOCAB * DIM + 4 * VOCAB);
            assert(VOCAB * DIM <= usize::MAX);
        }
        let w = reader.extract_matrix::<VOCAB, DIM>()?;
        let scale = reader.extract_f32_array::<VOCAB>()?;
        Ok(Self::new(QTensor::new(w, QuantParams::symmetric(scale[0]))))
    }
}

impl<const DIM: usize> BinaryLoadable for QRMSNorm<DIM> {
    open spec fn encoded_len() -> int {
        4 * DIM
    }

    open spec fn load_ok() -> bool {
        true
    }

    /// `DIM` `f32` weights; epsilon 1e-5.
    open spec fn decoded_from(b: Seq<u8>, off: int, v: Self) -> bool {
        &&& f32s_at(v.weight, b, off)
        &&& v.eps == RMS_EPS_F32_BITS
    }

    fn load_from_reader(reader: &mut BufferReader) -> (r: Result<Self, ModelLoadError>) {
        let w = reader.extract_f32_array::<DIM>()?;
        Ok(Self::new(w, RMS_EPS_F32_BITS))
    }
}

/// The raw weights of one block of a `QTRN` model: matrices as stored
/// (`out × in`), each with per-output-row `f32` scales.
pub struct LoadedBlockWeights<const DIM: usize, const HIDDEN: usize> {
    pub norm1: QRMSNorm<DIM>,
    pub q_w: Matrix<i8, DIM, DIM>,
    pub q_scale: [u32; DIM],
    pub k_w: Matrix<i8, DIM, DIM>,
    pub k_scale: [u32; DIM],
    pub v_w: Matrix<i8, DIM, DIM>,
    pub v_scale: [u32; DIM],
    pub out_w: Matrix<i8, DIM, DIM>,
    pub out_scale: [u32; DIM],
    pub norm2: QRMSNorm<DIM>,
    pub ff1_w: Matrix<i8, HIDDEN, DIM>,
    pub ff1_scale: [u32; HIDDEN],
    pub ff2_w: Matrix<i8, DIM, HIDDEN>,
    pub ff2_scale: [u32; DIM],
}

/// Size in bytes of a `D × D` matrix followed by its `D` scales.
pub open spec fn proj_len(d: int) -> int {
    d * d + 4 * d
}

/// Size in bytes of one stored `QTRN` block.
pub open spec fn block_len(d: int, h: int) -> int {
    4 * d + 4 * proj_len(d) + 4 * d + (h * d + 4 * h) + (d * h + 4 * d)
}

impl<const DIM: usize, const HIDDEN: usize> BinaryLoadable for LoadedBlockWeights<DIM, HIDDEN> {
    open spec fn encoded_len() -> int {
        block_len(DIM as int, HIDDEN as int)
    }

    open spec fn load_ok() -> bool {
        true
    }

    /// norm1, q, k, v, out projections (matrix then scales), norm2, ff1,
    /// ff2, in this order.
    open spec fn decoded_from(b: Seq<u8>, off: int, v: Self) -> bool {
        let d = DIM as int;
        let h = HIDDEN as int;
        let o_q = off + 4 * d;
        let o_k = o_q + proj_len(d);
        let o_v = o_k + proj_len(d);
        let o_o = o_v + proj_len(d);
        let o_n2 = o_o + proj_len(d);
        let o_f1 = o_n2 + 4 * d;
        let o_f2 = o_f1 + h * d + 4 * h;
        &&& f32s_at(v.norm1.weight, b, off)
        &&& v.norm1.eps == RMS_EPS_F32_BITS
        &&& matrix_at(v.q_w, b, o_q)
        &&& f32s_at(v.q_scale, b, o_q + d * d)
        &&& matrix_at(v.k_w, b, o_k)
        &&& f32s_at(v.k_scale, b, o_k + d * d)
        &&& matrix_at(v.v_w, b, o_v)
        &&& f32s_at(v.v_scale, b, o_v + d * d)
        &&& matrix_at(v.out_w, b, o_o)
        &&& f32s_at(v.out_scale, b, o_o + d * d)
        &&& f32s_at(v.norm2.weight, b, o_n2)
        &&& v.norm2.eps == RMS_EPS_F32_BITS
        &&& matrix_at(v.ff1_w, b, o_f1)
        &&& f32s_at(v.ff1_scale, b, o_f1 + h * d)
        &&& matrix_at(v.ff2_w, b, o_f2)
        &&& f32s_at(v.ff2_scale, b, o_f2 + d * h)
    }

    fn load_from_reader(reader: &mut BufferReader) -> (r: Result<Self, ModelLoadError>) {
        proof {
            assert(0 <= DIM * DIM && 0 <= HIDDEN * DIM && 0 <= DIM * HIDDEN) by (nonlinear_arith);
            assert(DIM * DIM <= usize::MAX);
            assert(HIDDEN * DIM <= usize::MAX);
        }
        let norm1 = QRMSNorm::<DIM>::load_from_reader(reader)?;

        let q_w = reader.extract_matrix::<DIM, DIM>()?;
        let q_scale = reader.extract_f32_array::<DIM>()?;

        let k_w = reader.extract_matrix::<DIM, DIM>()?;
        let k_scale = reader.extract_f32_array::<DIM>()?;

        let v_w = reader.extract_matrix::<DIM, DIM>()?;
        let v_scale = reader.extract_f32_array::<DIM>()?;

        let out_w = reader.extract_matrix::<DIM, DIM>()?;
        let out_scale = reader.extract_f32_array::<DIM>()?;

        let norm2 = QRMSNorm::<DIM>::load_from_reader(reader)?;

        let ff1_w = reader.extract_matrix::<HIDDEN, DIM>()?;
        let ff1_scale = reader.extract_f32_array::<HIDDEN>()?;

        let ff2_w = reader.extract_matrix::<DIM, HIDDEN>()?;
        let ff2_scale = reader.extract_f32_array::<DIM>()?;

        Ok(LoadedBlockWeights {
            norm1,
            q_w,
            q_scale,
            k_w,
            k_scale,
            v_w,
            v_scale,
            out_w,
            out_scale,
            norm2,
            ff1_w,
            ff1_scale,
            ff2_w,
            ff2_scale,
        })
    }
}

// ─────────────────────────────────────────────────────────────────────────────
// QTRN multi-layer models
// ─────────────────────────────────────────────────────────────────────────────

/// The per-block calibration scales stored at the end of a `QTRN` file
/// (`f32` bit patterns).
#[derive(Clone, Copy)]
pub struct BlockCalibration {
    pub s_res_in: u32,
    pub s_res_out: u32,
    pub q_scale: u32,
    pub k_scale: u32,
    pub v_scale: u32,
    pub ff1_out_scale: u32,
}

/// Everything a `QTRN` file holds, decoded: the embeddings, the raw block
/// weights, the final norm, the language-model head (transposed to
/// `DIM × VOCAB`) with its per-token scales, and each block's calibration.
pub struct LoadedTransformer<
    const VOCAB: usize,
    const SEQ: usize,
    const DIM: usize,
    const HIDDEN: usize,
    const LAYERS: usize,
> {
    pub token_embeddings: QEmbedding<VOCAB, DIM>,
    pub pos_embeddings: QTensor<i8, SEQ, DIM>,
    pub blocks: Vec<LoadedBlockWeights<DIM, HIDDEN>>,
    pub final_norm: QRMSNorm<DIM>,
    pub lm_head_weights: Matrix<i8, DIM, VOCAB>,
    pub lm_head_scales: [u32; VOCAB],
    pub calibration: Vec<BlockCalibration>,
}

/// Offset of the position embeddings in a `QTRN` body.
pub open spec fn qtrn_pos_off(v: int, d: int) -> int {
    v * d + 4 * v
}

/// Offset of the first block.
pub open spec fn qtrn_blocks_off(v: int, s: int, d: int) -> int {
    qtrn_pos_off(v, d) + s * d + 4 * s
}

/// Offset of the final norm.
pub open spec fn qtrn_norm_off(v: int, s: int, d: int, h: int, l: int) -> int {
    qtrn_blocks_off(v, s, d) + l * block_len(d, h)
}

/// Offset of the language-model head.
pub open spec fn qtrn_head_off(v: int, s: int, d: int, h: int, l: int) -> int {
    qtrn_norm_off(v, s, d, h, l) + 4 * d
}

/// Offset of the calibration table.
pub open spec fn qtrn_calib_off(v: int, s: int, d: int, h: int, l: int) -> int {
    qtrn_head_off(v, s, d, h, l) + v * d + 4 * v
}

/// Size of a `QTRN` body (everything after the 32-byte header).
pub open spec fn qtrn_body_len(v: int, s: int, d: int, h: int, l: int) -> int {
    qtrn_calib_off(v, s, d, h, l) + 24 * l
}

/// The header's dimensions are the const parameters.
pub open spec fn qtrn_dims_match(
    hd: QTransformerHeader,
    v: int,
    s: int,
    d: int,
    h: int,
    heads: int,
    l: int,
) -> bool {
    &&& hd.vocab_size == v
    &&& hd.seq_len == s
    &&& hd.dim == d
    &&& hd.hidden == h
    &&& hd.heads == heads
    &&& hd.layers == l
}

/// `c` is the calibration record stored at `off`.
pub open spec fn calibration_at(c: BlockCalibration, b: Seq<u8>, off: int) -> bool {
    &&& c.s_res_in == le_u32_at(b, off)
    &&& c.s_res_out == le_u32_at(b, off + 4)
    &&& c.q_scale == le_u32_at(b, off + 8)
    &&& c.k_scale == le_u32_at(b, off + 12)
    &&& c.v_scale == le_u32_at(b, off + 16)
    &&& c.ff1_out_scale == le_u32_at(b, off + 20)
}

/// `m` is the model stored in the `QTRN` body `b`.
pub open spec fn qtrn_decoded<
    const VOCAB: usize,
    const SEQ: usize,
    const DIM: usize,
    const HIDDEN: usize,
    const LAYERS: usize,
>(m: LoadedTransformer<VOCAB, SEQ, DIM, HIDDEN, LAYERS>, b: Seq<u8>) -> bool {
    let v = VOCAB as int;
    let s = SEQ as int;
    let d = DIM as int;
    let h = HIDDEN as int;
    let l = LAYERS as int;
    let o_pos = qtrn_pos_off(v, d);
    let o_blocks = qtrn_blocks_off(v, s, d);
    let o_head = qtrn_head_off(v, s, d, h, l);
    let o_cal = qtrn_calib_off(v, s, d, h, l);
    &&& QEmbedding::<VOCAB, DIM>::decoded_from(b, 0, m.token_embeddings)
    &&& matrix_at(m.pos_embeddings.data, b, o_pos)
    &&& m.pos_embeddings.params == QuantParams { scale: le_u32_at(b, o_pos + s * d), zero_point: 0 }
    &&& m.blocks.len() == l
    &&& forall|i: int|
        0 <= i < l ==> LoadedBlockWeights::<DIM, HIDDEN>::decoded_from(
            b,
            o_blocks + i * block_len(d, h),
            #[trigger] m.blocks@[i],
        )
    &&& QRMSNorm::<DIM>::decoded_from(b, qtrn_norm_off(v, s, d, h, l), m.final_norm)
    &&& forall|r: int, c: int|
        0 <= r < v && 0 <= c < d ==> #[trigger] m.lm_head_weights.data[c][r] == b[o_head + r * d + c] as i8
    &&& f32s_at(m.lm_head_scales, b, o_head + v * d)
    &&& m.calibration.len() == l
    &&& forall|i: int| 0 <= i < l ==> calibration_at(#[trigger] m.calibration@[i], b, o_cal + 24 * i)
}

/// Load a multi-layer `QTRN` model whose dimensions are the const
/// parameters.
///
/// - a header error (`BufferTooSmall`, `InvalidMagic`,
///   `UnsupportedVersion`) is returned as is;
/// - a header whose dimensions differ from the const parameters →
///   `ShapeMismatch`;
/// - a body shorter than the layout needs → `BufferTooSmall`, wherever it
///   ends;
/// - otherwise every component, decoded from the bytes after the header.
///
/// For a header of matching dimensions, an empty vocabulary is left out by
/// `requires`, and so is an empty sequence once the token embeddings have
/// been read: the first scale of each table is taken, and an empty table
/// has none.
pub fn load_transformer_from_bytes<
    const VOCAB: usize,
    const SEQ: usize,
    const DIM: usize,
    const HIDDEN: usize,
    const HEADS: usize,
    const LAYERS: usize,
>(bytes: &[u8]) -> (r: Result<LoadedTransformer<VOCAB, SEQ, DIM, HIDDEN, LAYERS>, ModelLoadError>)
    requires
        32 + qtrn_body_len(VOCAB as int, SEQ as int, DIM as int, HIDDEN as int, LAYERS as int) + 8
            <= usize::MAX,
        match spec_parse_transformer_header(bytes@) {
            Ok(hd) => qtrn_dims_match(
                hd,
                VOCAB as int,
                SEQ as int,
                DIM as int,
                HIDDEN as int,
                HEADS as int,
                LAYERS as int,
            ) ==> VOCAB > 0 && (bytes@.len() >= 32 + qtrn_pos_off(VOCAB as int, DIM as int) ==> SEQ
                > 0),
            Err(_) => true,
        },
    ensures
        match spec_parse_transformer_header(bytes@) {
            Err(e) => r == Err::<LoadedTransformer<VOCAB, SEQ, DIM, HIDDEN, LAYERS>, ModelLoadError>(e),
            Ok(hd) => if !qtrn_dims_match(
                hd,
                VOCAB as int,
                SEQ as int,
                DIM as int,
                HIDDEN as int,
                HEADS as int,
                LAYERS as int,
            ) {
                r == Err::<LoadedTransformer<VOCAB, SEQ, DIM, HIDDEN, LAYERS>, ModelLoadError>(
                    ModelLoadError::ShapeMismatch,
                )
            } else if bytes@.len() < 32 + qtrn_body_len(
                VOCAB as int,
                SEQ as int,
                DIM as int,
                HIDDEN as int,
                LAYERS as int,
            ) {
                r == Err::<LoadedTransformer<VOCAB, SEQ, DIM, HIDDEN, LAYERS>, ModelLoadError>(
                    ModelLoadError::BufferTooSmall,
                )
            } else {
                r is Ok && qtrn_decoded(r->Ok_0, bytes@.skip(32))
            },
        },
{
    let header = QTransformerHeader::parse(bytes)?;
    if header.vocab_size as usize != VOCAB || header.seq_len as usize != SEQ || header.dim as usize
        != DIM || header.hidden as usize != HIDDEN || header.heads as usize != HEADS
        || header.layers as usize != LAYERS {
        return Err(ModelLoadError::ShapeMismatch);
    }
    let ghost body = bytes@.skip(32);
    let ghost v = VOCAB as int;
    let ghost s = SEQ as int;
    let ghost d = DIM as int;
    let ghost h = HIDDEN as int;
    let ghost l = LAYERS as int;
    let ghost bl = block_len(d, h);
    proof {
        lemma_qtrn_layout_nonneg(v, s, d, h, l);
    }
    let mut reader = BufferReader::new(&bytes[QTransformerHeader::SIZE..bytes.len()]);
    proof {
        assert(reader.spec_bytes() =~= body);
    }

    let token_embeddings = QEmbedding::<VOCAB, DIM>::load_from_reader(&mut reader)?;

    let pos_w = reader.extract_matrix::<SEQ, DIM>()?;
    let pos_scale = reader.extract_f32_array::<SEQ>()?;
    let pos_embeddings = QTensor::new(pos_w, QuantParams::symmetric(pos_scale[0]));

    let ghost o_blocks = qtrn_blocks_off(v, s, d);
    let mut blocks: Vec<LoadedBlockWeights<DIM, HIDDEN>> = Vec::new();
    proof {
        assert(0 * bl == 0);
        assert(LoadedBlockWeights::<DIM, HIDDEN>::encoded_len() == bl);
    }
    for i in 0..LAYERS
        invariant
            bytes@.len() >= 32,
            body == bytes@.skip(32),
            spec_parse_transformer_header(bytes@) == Ok::<QTransformerHeader, ModelLoadError>(header),
            qtrn_dims_match(header, v, s, d, h, HEADS as int, l),
            v == VOCAB,
            s == SEQ,
            d == DIM,
            h == HIDDEN,
            reader.spec_bytes() == body,
            reader.spec_offset() <= body.len(),
            32 + qtrn_body_len(v, s, d, h, l) + 8 <= usize::MAX,
            0 <= bl,
            l == LAYERS,
            bl == block_len(d, h),
            bl == LoadedBlockWeights::<DIM, HIDDEN>::encoded_len(),
            o_blocks == qtrn_blocks_off(v, s, d),
            0 <= o_blocks,
            o_blocks + l * bl == qtrn_norm_off(v, s, d, h, l),
            qtrn_norm_off(v, s, d, h, l) <= qtrn_body_len(v, s, d, h, l),
            reader.spec_offset() == o_blocks + i * bl,
            blocks.len() == i,
            forall|j: int|
                0 <= j < i ==> LoadedBlockWeights::<DIM, HIDDEN>::decoded_from(
                    body,
                    o_blocks + j * bl,
                    #[trigger] blocks@[j],
                ),
    {
        proof {
            assert((i + 1) * bl == i * bl + bl) by (nonlinear_arith);
            assert((i + 1) * bl <= l * bl) by (nonlinear_arith)
                requires
                    i < l,
                    0 <= bl,
            ;
        }
        match LoadedBlockWeights::<DIM, HIDDEN>::load_from_reader(&mut reader) {
            Ok(w) => {
                blocks.push(w);
            },
            Err(e) => {
                proof {
                    assert(body.len() < qtrn_body_len(v, s, d, h, l));
                }
                return Err(e);
            },
        }
    }

    let final_norm = QRMSNorm::<DIM>::load_from_reader(&mut reader)?;

    let lm_head_raw = reader.extract_matrix::<VOCAB, DIM>()?;
    let lm_head_scales = reader.extract_f32_array::<VOCAB>()?;
    let lm_head_weights = lm_head_raw.transposed();

    let ghost o_cal = qtrn_calib_off(v, s, d, h, l);
    let mut calibration: Vec<BlockCalibration> = Vec::new();
    for i in 0..LAYERS
        invariant
            bytes@.len() >= 32,
            body == bytes@.skip(32),
            spec_parse_transformer_header(bytes@) == Ok::<QTransformerHeader, ModelLoadError>(header),
            qtrn_dims_match(header, v, s, d, h, HEADS as int, l),
            v == VOCAB,
            s == SEQ,
            d == DIM,
            h == HIDDEN,
            reader.spec_bytes() == body,
            32 + qtrn_body_len(v, s, d, h, l) + 8 <= usize::MAX,
            l == LAYERS,
            o_cal == qtrn_calib_off(v, s, d, h, l),
            0 <= o_cal,
            reader.spec_offset() == o_cal + 24 * i,
            reader.spec_offset() <= body.len(),
            calibration.len() == i,
            forall|j: int| 0 <= j < i ==> calibration_at(#[trigger] calibration@[j], body, o_cal + 24 * j),
    {
        let rec = match reader.extract_f32_array::<6>() {
            Ok(a) => a,
            Err(e) => {
                return Err(e);
            },
        };
        calibration.push(
            BlockCalibration {
                s_res_in: rec[0],
                s_res_out: rec[1],
                q_scale: rec[2],
                k_scale: rec[3],
                v_scale: rec[4],
                ff1_out_scale: rec[5],
            },
        );
    }
    Ok(LoadedTransformer {
        token_embeddings,
        pos_embeddings,
        blocks,
        final_norm,
        lm_head_weights,
        lm_head_scales,
        calibration,
    })
}

/// The pieces of a `QTRN` layout are non-negative and its offsets grow.
proof fn lemma_qtrn_layout_nonneg(v: int, s: int, d: int, h: int, l: int)
    requires
        v >= 0,
        s >= 0,
        d >= 0,
        h >= 0,
        l >= 0,
    ensures
        0 <= v * d,
        0 <= s * d,
        0 <= d * d,
        0 <= h * d,
        0 <= d * h,
        0 <= block_len(d, h),
        0 <= l * block_len(d, h),
        0 <= qtrn_pos_off(v, d) <= qtrn_blocks_off(v, s, d) <= qtrn_norm_off(v, s, d, h, l),
        qtrn_norm_off(v, s, d, h, l) <= qtrn_head_off(v, s, d, h, l) <= qtrn_calib_off(v, s, d, h, l),
        qtrn_calib_off(v, s, d, h, l) <= qtrn_body_len(v, s, d, h, l),
{
    assert(0 <= v * d && 0 <= s * d && 0 <= d * d && 0 <= h * d && 0 <= d * h) by (nonlinear_arith)
        requires
            v >= 0,
            s >= 0,
            d >= 0,
            h >= 0,
    ;
    let bl = block_len(d, h);
    assert(0 <= l * bl) by (nonlinear_arith)
        requires
            l >= 0,
            bl >= 0,
    ;
}

// ─────────────────────────────────────────────────────────────────────────────
// Layout laws: where each loaded weight comes from in the file
// ─────────────────────────────────────────────────────────────────────────────

/// Every weight matrix of a loaded `QMOD` model is the row-major matrix of
/// its declared shape at its place in the body, sections following one
/// another: embedding `VOCAB × DIM`, q/k/v `DIM × DIM`, norm1 (`DIM`
/// bytes), ff1 `DIM × HIDDEN`, ff2 `HIDDEN × DIM`, norm2 (`DIM` bytes),
/// output `DIM × VOCAB` — none of them transposed.
pub proof fn lemma_qmod_sections_row_major<
    const VOCAB: usize,
    const SEQ: usize,
    const DIM: usize,
    const HIDDEN: usize,
>(m: QModel<VOCAB, SEQ, DIM, HIDDEN>, b: Seq<u8>)
    requires
        qmodel_decoded(m, b),
    ensures
        forall|t: int, c: int|
            0 <= t < VOCAB && 0 <= c < DIM ==> #[trigger] m.embedding.weights.data.data[t][c]
                == b[t * DIM + c] as i8,
        forall|i: int, j: int|
            0 <= i < DIM && 0 <= j < DIM ==> #[trigger] m.transformer.q_proj.weights.data[i][j]
                == b[VOCAB * DIM + i * DIM + j] as i8,
        forall|i: int, j: int|
            0 <= i < DIM && 0 <= j < DIM ==> #[trigger] m.transformer.k_proj.weights.data[i][j]
                == b[VOCAB * DIM + DIM * DIM + i * DIM + j] as i8,
        forall|i: int, j: int|
            0 <= i < DIM && 0 <= j < DIM ==> #[trigger] m.transformer.v_proj.weights.data[i][j]
                == b[VOCAB * DIM + 2 * (DIM * DIM) + i * DIM + j] as i8,
        forall|i: int, j: int|
            0 <= i < DIM && 0 <= j < HIDDEN ==> #[trigger] m.transformer.ff1.weights.data[i][j]
                == b[VOCAB * DIM + 3 * (DIM * DIM) + DIM + i * HIDDEN + j] as i8,
        forall|i: int, j: int|
            0 <= i < HIDDEN && 0 <= j < DIM ==> #[trigger] m.transformer.ff2.weights.data[i][j]
                == b[VOCAB * DIM + 3 * (DIM * DIM) + DIM + DIM * HIDDEN + i * DIM + j] as i8,
        forall|i: int, j: int|
            0 <= i < DIM && 0 <= j < VOCAB ==> #[trigger] m.output.weights.data[i][j] == b[VOCAB
                * DIM + 3 * (DIM * DIM) + 2 * DIM + 2 * (DIM * HIDDEN) + i * VOCAB + j] as i8,
{
    let v = VOCAB as int;
    let d = DIM as int;
    let h = HIDDEN as int;
    assert(h * d == d * h) by (nonlinear_arith);
    assert(d * v == v * d) by (nonlinear_arith);
    assert forall|i: int, j: int| 0 <= i < DIM && 0 <= j < VOCAB implies #[trigger] m.output.weights.data[i][j]
        == b[v * d + 3 * (d * d) + 2 * d + 2 * (d * h) + i * v + j] as i8 by {
        assert(matrix_at(m.output.weights, b, v * d + 3 * (d * d) + 2 * d + 2 * (d * h)));
    }
}

/// The language-model head of a loaded `QTRN` model is the transpose of the
/// `VOCAB × DIM` matrix the file stores (one row per token) right after the
/// final norm: column `t` of the `DIM × VOCAB` head is token `t`'s row. The
/// token and position embeddings are stored row-major at the start of the
/// body, each followed by its scales.
pub proof fn lemma_qtrn_head_transposed<
    const VOCAB: usize,
    const SEQ: usize,
    const DIM: usize,
    const HIDDEN: usize,
    const LAYERS: usize,
>(m: LoadedTransformer<VOCAB, SEQ, DIM, HIDDEN, LAYERS>, b: Seq<u8>)
    requires
        qtrn_decoded(m, b),
    ensures
        forall|t: int, c: int|
            0 <= t < VOCAB && 0 <= c < DIM ==> #[trigger] m.token_embeddings.weights.data.data[t][c]
                == b[t * DIM + c] as i8,
        forall|p: int, c: int|
            0 <= p < SEQ && 0 <= c < DIM ==> #[trigger] m.pos_embeddings.data.data[p][c] == b[VOCAB
                * DIM + 4 * VOCAB + p * DIM + c] as i8,
        forall|t: int, c: int|
            0 <= t < VOCAB && 0 <= c < DIM ==> #[trigger] m.lm_head_weights.data[c][t] == b[VOCAB
                * DIM + 4 * VOCAB + SEQ * DIM + 4 * SEQ + LAYERS * (4 * DIM + 4 * (DIM * DIM + 4
                * DIM) + 4 * DIM + (HIDDEN * DIM + 4 * HIDDEN) + (DIM * HIDDEN + 4 * DIM)) + 4
                * DIM + t * DIM + c] as i8,
{
}

/// The weights of a loaded `QMLP` perceptron are the transposes of the
/// `out × in` matrices the file stores row-major: `fc1_w[c][r]` is input
/// `c`'s weight for hidden unit `r`, stored at `r × IN + c`, and
/// `fc2_w[c][r]` is hidden unit `c`'s weight for output `r`, stored after
/// fc1's weights and biases at `r × HIDDEN + c`; each bias vector follows
/// its matrix.
pub proof fn lemma_qmlp_weights_transposed<const IN: usize, const HIDDEN: usize, const OUT: usize>(
    m: MLPWeights<IN, HIDDEN, OUT>,
    b: Seq<u8>,
)
    requires
        qmlp_decoded(m, b),
    ensures
        forall|r: int, c: int|
            0 <= r < HIDDEN && 0 <= c < IN ==> #[trigger] m.fc1_w.data[c][r] == b[r * IN + c] as i8,
        forall|k: int| 0 <= k < HIDDEN ==> #[trigger] m.fc1_b[k] == b[HIDDEN * IN + k] as i8,
        forall|r: int, c: int|
            0 <= r < OUT && 0 <= c < HIDDEN ==> #[trigger] m.fc2_w.data[c][r] == b[HIDDEN * IN
                + HIDDEN + r * HIDDEN + c] as i8,
        forall|k: int| 0 <= k < OUT ==> #[trigger] m.fc2_b[k] == b[HIDDEN * IN + HIDDEN + OUT * HIDDEN
            + k] as i8,
{
}

/// The weights of one stored `QTRN` block, at offset `off`: norm1 (`DIM`
/// `f32`s), then the q, k, v and out projections (each a `DIM × DIM`
/// matrix followed by `DIM` `f32` scales), norm2, ff1 (`HIDDEN × DIM` with
/// `HIDDEN` scales) and ff2 (`DIM × HIDDEN` with `DIM` scales), each matrix
/// row-major as stored.
pub proof fn lemma_qtrn_block_layout<const DIM: usize, const HIDDEN: usize>(
    w: LoadedBlockWeights<DIM, HIDDEN>,
    b: Seq<u8>,
    off: int,
)
    requires
        LoadedBlockWeights::<DIM, HIDDEN>::decoded_from(b, off, w),
    ensures
        forall|k: int| 0 <= k < DIM ==> #[trigger] w.norm1.weight[k] == le_u32_at(b, off + 4 * k),
        forall|i: int, j: int|
            0 <= i < DIM && 0 <= j < DIM ==> #[trigger] w.q_w.data[i][j] == b[off + 4 * DIM + i * DIM
                + j] as i8,
        forall|k: int| 0 <= k < DIM ==> #[trigger] w.q_scale[k] == le_u32_at(
            b,
            off + 4 * DIM + DIM * DIM + 4 * k,
        ),
        forall|i: int, j: int|
            0 <= i < DIM && 0 <= j < DIM ==> #[trigger] w.k_w.data[i][j] == b[off + 8 * DIM + DIM * DIM
                + i * DIM + j] as i8,
        forall|i: int, j: int|
            0 <= i < DIM && 0 <= j < DIM ==> #[trigger] w.v_w.data[i][j] == b[off + 12 * DIM + 2 * (DIM
                * DIM) + i * DIM + j] as i8,
        forall|i: int, j: int|
            0 <= i < DIM && 0 <= j < DIM ==> #[trigger] w.out_w.data[i][j] == b[off + 16 * DIM + 3 * (
            DIM * DIM) + i * DIM + j] as i8,
        forall|k: int| 0 <= k < DIM ==> #[trigger] w.norm2.weight[k] == le_u32_at(
            b,
            off + 20 * DIM + 4 * (DIM * DIM) + 4 * k,
        ),
        forall|i: int, j: int|
            0 <= i < HIDDEN && 0 <= j < DIM ==> #[trigger] w.ff1_w.data[i][j] == b[off + 24 * DIM + 4 * (
            DIM * DIM) + i * DIM + j] as i8,
        forall|i: int, j: int|
            0 <= i < DIM && 0 <= j < HIDDEN ==> #[trigger] w.ff2_w.data[i][j] == b[off + 24 * DIM + 4 * (
            DIM * DIM) + HIDDEN * DIM + 4 * HIDDEN + i * HIDDEN + j] as i8,
{
}

/// The final norm, the head's scales and the calibration table of a loaded
/// `QTRN` model: the norm's `DIM` `f32`s follow the blocks, the head's
/// `VOCAB` scales follow its matrix, and block `i`'s six calibration
/// scales (`s_res_in`, `s_res_out`, `q`, `k`, `v`, `ff1_out`) are the
/// `f32`s at `24 i` past the head's scales.
pub proof fn lemma_qtrn_tail_layout<
    const VOCAB: usize,
    const SEQ: usize,
    const DIM: usize,
    const HIDDEN: usize,
    const LAYERS: usize,
>(m: LoadedTransformer<VOCAB, SEQ, DIM, HIDDEN, LAYERS>, b: Seq<u8>)
    requires
        qtrn_decoded(m, b),
    ensures
        ({
            let norm_off = VOCAB * DIM + 4 * VOCAB + SEQ * DIM + 4 * SEQ + LAYERS * (4 * DIM + 4 * (DIM
                * DIM + 4 * DIM) + 4 * DIM + (HIDDEN * DIM + 4 * HIDDEN) + (DIM * HIDDEN + 4 * DIM));
            let cal_off = norm_off + 4 * DIM + VOCAB * DIM + 4 * VOCAB;
            &&& forall|k: int| 0 <= k < DIM ==> #[trigger] m.final_norm.weight[k] == le_u32_at(b, norm_off + 4 * k)
            &&& forall|t: int| 0 <= t < VOCAB ==> #[trigger] m.lm_head_scales[t] == le_u32_at(
                b,
                norm_off + 4 * DIM + VOCAB * DIM + 4 * t,
            )
            &&& m.token_embeddings.weights.params.scale == le_u32_at(b, VOCAB * DIM)
            &&& m.pos_embeddings.params.scale == le_u32_at(b, VOCAB * DIM + 4 * VOCAB + SEQ * DIM)
            &&& m.blocks.len() == LAYERS
            &&& m.calibration.len() == LAYERS
            &&& forall|i: int| 0 <= i < LAYERS ==> {
                &&& (#[trigger] m.calibration@[i]).s_res_in == le_u32_at(b, cal_off + 24 * i)
                &&& m.calibration@[i].s_res_out == le_u32_at(b, cal_off + 24 * i + 4)
                &&& m.calibration@[i].q_scale == le_u32_at(b, cal_off + 24 * i + 8)
                &&& m.calibration@[i].k_scale == le_u32_at(b, cal_off + 24 * i + 12)
                &&& m.calibration@[i].v_scale == le_u32_at(b, cal_off + 24 * i + 16)
                &&& m.calibration@[i].ff1_out_scale == le_u32_at(b, cal_off + 24 * i + 20)
            }
        }),
{
}

} // verus!
