use matmul_engine::model::{
    expected_model_size,
    load_from_bytes,
    load_mlp_from_bytes,
    load_transformer_from_bytes,
    ModelLoadError,
    QModelHeader,
    QTransformerHeader,
};
use matmul_engine::model::loader::QMLPHeader;
use matmul_engine::model::tensor::BufferReader;
use matmul_engine::quant::scale::{ONE_F32_BITS, RMS_EPS_F32_BITS};
use matmul_engine::testing::fuzz::LcgRng;

fn qmod_header(vocab: u32, seq: u32, dim: u32, hidden: u32) -> QModelHeader {
    QModelHeader { magic: *b"QMOD", version: 1, vocab, seq, dim, hidden }
}

#[test]
fn test_model_header_parse() {
    let hdr = qmod_header(100, 32, 64, 128);
    let bytes = hdr.to_bytes();
    let parsed = QModelHeader::parse(&bytes).unwrap();
    assert_eq!(parsed.vocab, 100);
    assert_eq!(parsed.hidden, 128);
}

#[test]
fn test_invalid_magic() {
    let mut hdr = QModelHeader { magic: *b"QMOD", version: 1, vocab: 10, seq: 10, dim: 10, hidden: 10 };
    hdr.magic = *b"XXXX";
    let bytes = hdr.to_bytes();
    let res = QModelHeader::parse(&bytes);
    assert_eq!(res, Err(ModelLoadError::InvalidMagic));
}

#[test]
fn test_invalid_version() {
    let hdr = QModelHeader { magic: *b"QMOD", version: 2, vocab: 10, seq: 10, dim: 10, hidden: 10 };
    let bytes = hdr.to_bytes();
    let res = QModelHeader::parse(&bytes);
    assert_eq!(res, Err(ModelLoadError::UnsupportedVersion));
}

#[test]
fn test_expected_model_size() {
    let size = expected_model_size::<4, 4, 2, 4>();
    assert_eq!(size, 72);
}

#[test]
fn test_tensor_deserialize() {
    let bytes = [1, 2, 3, 4];
    let mut reader = BufferReader::new(&bytes);
    let mat = reader.extract_matrix::<2, 2>().unwrap();
    assert_eq!(mat.data[0][0], 1);
    assert_eq!(mat.data[1][1], 4);
}

#[test]
fn test_invalid_shape_rejection() {
    let res = load_from_bytes::<4, 4, 2, 4>(&[0; 70]);
    assert_eq!(res.err(), Some(ModelLoadError::ShapeMismatch));
}

#[test]
fn test_model_roundtrip() {
    let mut bytes = [0u8; 72];
    let hdr = qmod_header(4, 4, 2, 4);
    bytes[0..24].copy_from_slice(&hdr.to_bytes());
    bytes[24] = 42;
    let model = load_from_bytes::<4, 4, 2, 4>(&bytes).unwrap();
    assert_eq!(model.embedding.weights.raw(0, 0), 42);
}

#[test]
fn test_invalid_model_payloads() {
    let mut rng = LcgRng::new(1337);
    let mut bad_payload = [0u8; 1024];
    for i in 0..1024 {
        bad_payload[i] = rng.next_u8();
    }
    let result = load_from_bytes::<4, 4, 2, 4>(&bad_payload);
    assert!(result.is_err(), "Loader should reject random noise");
}

// ── Further cases ────────────────────────────────────────────────────────────

#[test]
fn header_to_bytes_then_parse_is_identity() {
    let hdr = qmod_header(7, 9, 11, 13);
    assert_eq!(QModelHeader::parse(&hdr.to_bytes()), Ok(hdr));
    let t = QTransformerHeader {
        magic: *b"QTRN",
        version: 1,
        vocab_size: 50_000,
        seq_len: 256,
        dim: 64,
        heads: 4,
        layers: 3,
        hidden: 0xDEAD_BEEF,
    };
    assert_eq!(QTransformerHeader::parse(&t.to_bytes()), Ok(t));
}

#[test]
fn header_bytes_are_little_endian() {
    let hdr = qmod_header(0x0403_0201, 0, 0, 0);
    let b = hdr.to_bytes();
    assert_eq!(&b[0..4], b"QMOD");
    assert_eq!(&b[4..8], &[1, 0, 0, 0]);
    assert_eq!(&b[8..12], &[1, 2, 3, 4]);
}

#[test]
fn header_error_variants() {
    assert_eq!(QModelHeader::parse(&[0u8; 23]), Err(ModelLoadError::BufferTooSmall));
    assert_eq!(QTransformerHeader::parse(&[0u8; 31]), Err(ModelLoadError::BufferTooSmall));
    let mut t = QTransformerHeader {
        magic: *b"QTRN",
        version: 3,
        vocab_size: 1,
        seq_len: 1,
        dim: 1,
        heads: 1,
        layers: 1,
        hidden: 1,
    };
    assert_eq!(QTransformerHeader::parse(&t.to_bytes()), Err(ModelLoadError::UnsupportedVersion));
    t.magic = *b"QMOD";
    assert_eq!(QTransformerHeader::parse(&t.to_bytes()), Err(ModelLoadError::InvalidMagic));
}

#[test]
fn header_expected_model_size() {
    let hdr = qmod_header(4, 4, 2, 4);
    assert_eq!(hdr.expected_model_size(), 72);
    assert_eq!(hdr.expected_model_size(), expected_model_size::<4, 4, 2, 4>());
}

#[test]
fn load_from_bytes_error_order() {
    // right size, bad magic
    let mut bytes = [0u8; 72];
    assert_eq!(load_from_bytes::<4, 4, 2, 4>(&bytes).err(), Some(ModelLoadError::InvalidMagic));
    // right size, header of another shape
    bytes[0..24].copy_from_slice(&qmod_header(4, 4, 2, 5).to_bytes());
    assert_eq!(load_from_bytes::<4, 4, 2, 4>(&bytes).err(), Some(ModelLoadError::ShapeMismatch));
    // right size, unsupported version
    let mut h = qmod_header(4, 4, 2, 4);
    h.version = 9;
    bytes[0..24].copy_from_slice(&h.to_bytes());
    assert_eq!(load_from_bytes::<4, 4, 2, 4>(&bytes).err(), Some(ModelLoadError::UnsupportedVersion));
}

#[test]
fn load_from_bytes_decodes_every_section() {
    let mut bytes = [0u8; 72];
    bytes[0..24].copy_from_slice(&qmod_header(4, 4, 2, 4).to_bytes());
    for i in 24..72 {
        bytes[i] = (i as u8).wrapping_mul(37);
    }
    let m = load_from_bytes::<4, 4, 2, 4>(&bytes).unwrap();
    let b = |off: usize| bytes[24 + off] as i8;
    // embedding 4×2 at 0, q/k/v 2×2 at 8, 12, 16, norm1 at 20, ff1 2×4 at 22,
    // ff2 4×2 at 30, norm2 at 38, output 2×4 at 40
    assert_eq!(m.embedding.weights.raw(3, 1), b(7));
    assert_eq!(m.transformer.q_proj.weights.data[1][0], b(8 + 2));
    assert_eq!(m.transformer.k_proj.weights.data[0][1], b(12 + 1));
    assert_eq!(m.transformer.v_proj.weights.data[1][1], b(16 + 3));
    assert_eq!(m.transformer.norm1.weight[1], (b(21) as f32).to_bits());
    assert_eq!(m.transformer.ff1.weights.data[1][2], b(22 + 4 + 2));
    assert_eq!(m.transformer.ff2.weights.data[3][0], b(30 + 6));
    assert_eq!(m.transformer.norm2.weight[0], (b(38) as f32).to_bits());
    assert_eq!(m.output.weights.data[1][3], b(40 + 7));
    assert_eq!(m.transformer.norm1.eps, RMS_EPS_F32_BITS);
    assert!(m.transformer.ff1.relu);
    assert!(!m.output.relu);
    assert_eq!(m.output.weight_scales, [ONE_F32_BITS; 4]);
    assert_eq!(m.output.out_params.scale, ONE_F32_BITS);
}

// ── QTRN ─────────────────────────────────────────────────────────────────────

fn f32_le(v: f32) -> [u8; 4] {
    v.to_le_bytes()
}

/// A `QTRN` file with VOCAB=2, SEQ=1, DIM=1, HIDDEN=1, HEADS=1, LAYERS=1.
fn tiny_qtrn() -> Vec<u8> {
    let hdr = QTransformerHeader {
        magic: *b"QTRN",
        version: 1,
        vocab_size: 2,
        seq_len: 1,
        dim: 1,
        heads: 1,
        layers: 1,
        hidden: 1,
    };
    let mut b: Vec<u8> = hdr.to_bytes().to_vec();
    // token embeddings 2×1 + 2 scales
    b.extend_from_slice(&[5, 250]);
    b.extend_from_slice(&f32_le(0.5));
    b.extend_from_slice(&f32_le(9.0));
    // position embeddings 1×1 + 1 scale
    b.push(3);
    b.extend_from_slice(&f32_le(0.25));
    // block: norm1, q, k, v, out (weight + scale), norm2, ff1, ff2
    b.extend_from_slice(&f32_le(1.5));
    for (w, s) in [(11u8, 0.1f32), (12, 0.2), (13, 0.3), (14, 0.4)] {
        b.push(w);
        b.extend_from_slice(&f32_le(s));
    }
    b.extend_from_slice(&f32_le(2.5));
    b.push(15);
    b.extend_from_slice(&f32_le(0.5));
    b.push(16);
    b.extend_from_slice(&f32_le(0.6));
    // final norm
    b.extend_from_slice(&f32_le(3.5));
    // lm head 2×1 + 2 scales
    b.extend_from_slice(&[21, 22]);
    b.extend_from_slice(&f32_le(0.7));
    b.extend_from_slice(&f32_le(0.8));
    // calibration of the one block
    for s in [1.0f32, 2.0, 3.0, 4.0, 5.0, 6.0] {
        b.extend_from_slice(&f32_le(s));
    }
    b
}

#[test]
fn load_transformer_decodes_every_section() {
    let bytes = tiny_qtrn();
    assert_eq!(bytes.len(), 32 + 91);
    let m = load_transformer_from_bytes::<2, 1, 1, 1, 1, 1>(&bytes).unwrap();
    assert_eq!(m.token_embeddings.weights.raw(0, 0), 5);
    assert_eq!(m.token_embeddings.weights.raw(1, 0), -6);
    assert_eq!(m.token_embeddings.weights.scale(), 0.5f32.to_bits());
    assert_eq!(m.pos_embeddings.raw(0, 0), 3);
    assert_eq!(m.pos_embeddings.scale(), 0.25f32.to_bits());
    assert_eq!(m.blocks.len(), 1);
    let blk = &m.blocks[0];
    assert_eq!(blk.norm1.weight[0], 1.5f32.to_bits());
    assert_eq!(blk.q_w.data[0][0], 11);
    assert_eq!(blk.q_scale[0], 0.1f32.to_bits());
    assert_eq!(blk.k_w.data[0][0], 12);
    assert_eq!(blk.v_scale[0], 0.3f32.to_bits());
    assert_eq!(blk.out_w.data[0][0], 14);
    assert_eq!(blk.norm2.weight[0], 2.5f32.to_bits());
    assert_eq!(blk.ff1_w.data[0][0], 15);
    assert_eq!(blk.ff1_scale[0], 0.5f32.to_bits());
    assert_eq!(blk.ff2_w.data[0][0], 16);
    assert_eq!(blk.ff2_scale[0], 0.6f32.to_bits());
    assert_eq!(blk.norm1.eps, RMS_EPS_F32_BITS);
    assert_eq!(m.final_norm.weight[0], 3.5f32.to_bits());
    assert_eq!(m.lm_head_weights.data[0][0], 21);
    assert_eq!(m.lm_head_weights.data[0][1], 22);
    assert_eq!(m.lm_head_scales, [0.7f32.to_bits(), 0.8f32.to_bits()]);
    assert_eq!(m.calibration.len(), 1);
    let c = m.calibration[0];
    assert_eq!(c.s_res_in, 1.0f32.to_bits());
    assert_eq!(c.s_res_out, 2.0f32.to_bits());
    assert_eq!(c.q_scale, 3.0f32.to_bits());
    assert_eq!(c.k_scale, 4.0f32.to_bits());
    assert_eq!(c.v_scale, 5.0f32.to_bits());
    assert_eq!(c.ff1_out_scale, 6.0f32.to_bits());
}

#[test]
fn load_transformer_errors() {
    let bytes = tiny_qtrn();
    // a body cut inside the calibration table
    let short = &bytes[..bytes.len() - 3];
    assert_eq!(
        load_transformer_from_bytes::<2, 1, 1, 1, 1, 1>(short).err(),
        Some(ModelLoadError::BufferTooSmall)
    );
    // dimensions that differ from the header
    assert_eq!(
        load_transformer_from_bytes::<2, 1, 1, 1, 2, 1>(&bytes).err(),
        Some(ModelLoadError::ShapeMismatch)
    );
    // header errors come first
    assert_eq!(
        load_transformer_from_bytes::<2, 1, 1, 1, 1, 1>(&bytes[..20]).err(),
        Some(ModelLoadError::BufferTooSmall)
    );
    let mut bad = bytes.clone();
    bad[0] = b'X';
    assert_eq!(
        load_transformer_from_bytes::<2, 1, 1, 1, 1, 1>(&bad).err(),
        Some(ModelLoadError::InvalidMagic)
    );
}

// ── QMLP ─────────────────────────────────────────────────────────────────────

/// A `QMLP` file with IN=2, HIDDEN=1, OUT=2.
fn tiny_qmlp() -> Vec<u8> {
    let mut b: Vec<u8> = Vec::new();
    b.extend_from_slice(b"QMLP");
    for v in [1u32, 2, 1, 2] {
        b.extend_from_slice(&v.to_le_bytes());
    }
    b.extend_from_slice(&[1, 2]); // fc1_w 1×2 (out × in)
    b.push(0xFF); // fc1_b
    b.extend_from_slice(&[3, 4]); // fc2_w 2×1
    b.extend_from_slice(&[5, 6]); // fc2_b
    for s in [0.1f32, 0.2, 0.3, 0.4, 0.5] {
        b.extend_from_slice(&s.to_le_bytes());
    }
    b
}

#[test]
fn load_mlp_decodes_and_transposes() {
    let bytes = tiny_qmlp();
    let w = load_mlp_from_bytes::<2, 1, 2>(&bytes).unwrap();
    assert_eq!(w.fc1_w.data, [[1i8], [2]]);
    assert_eq!(w.fc1_b, [-1i8]);
    assert_eq!(w.fc2_w.data, [[3i8, 4]]);
    assert_eq!(w.fc2_b, [5i8, 6]);
    assert_eq!(w.fc1_w_scale, 0.1f32.to_bits());
    assert_eq!(w.fc1_b_scale, 0.2f32.to_bits());
    assert_eq!(w.fc2_w_scale, 0.3f32.to_bits());
    assert_eq!(w.fc2_b_scale, 0.4f32.to_bits());
    assert_eq!(w.img_scale, 0.5f32.to_bits());
}

#[test]
fn load_mlp_errors() {
    let bytes = tiny_qmlp();
    assert_eq!(load_mlp_from_bytes::<2, 1, 2>(&bytes[..19]).err(), Some(ModelLoadError::ShapeMismatch));
    assert_eq!(load_mlp_from_bytes::<2, 2, 2>(&bytes).err(), Some(ModelLoadError::ShapeMismatch));
    assert_eq!(
        load_mlp_from_bytes::<2, 1, 2>(&bytes[..bytes.len() - 1]).err(),
        Some(ModelLoadError::BufferTooSmall)
    );
    let mut bad = bytes.clone();
    bad[4] = 2;
    assert_eq!(load_mlp_from_bytes::<2, 1, 2>(&bad).err(), Some(ModelLoadError::UnsupportedVersion));
    bad[0] = b'q';
    assert_eq!(load_mlp_from_bytes::<2, 1, 2>(&bad).err(), Some(ModelLoadError::InvalidMagic));
    let h = QMLPHeader::parse(&bytes).unwrap();
    assert_eq!((h.input_dim, h.hidden_dim, h.output_dim), (2, 1, 2));
}

// ── BufferReader ─────────────────────────────────────────────────────────────

#[test]
fn buffer_reader_sequencing() {
    let mut bytes = vec![7u8, 0xFE];
    bytes.extend_from_slice(&1.25f32.to_le_bytes());
    bytes.extend_from_slice(&(-2.0f32).to_le_bytes());
    bytes.push(9);
    let mut r = BufferReader::new(&bytes);
    assert_eq!(r.extract_array::<2>().unwrap(), [7i8, -2]);
    assert_eq!(r.extract_f32().unwrap(), 1.25f32.to_bits());
    assert_eq!(r.extract_f32_array::<1>().unwrap(), [(-2.0f32).to_bits()]);
    // one byte left: every wider read fails and consumes nothing usable
    assert_eq!(r.extract_f32(), Err(ModelLoadError::BufferTooSmall));
    assert_eq!(r.extract_matrix::<1, 2>().err(), Some(ModelLoadError::BufferTooSmall));
    assert_eq!(r.advance(2).err(), Some(ModelLoadError::BufferTooSmall));
    assert_eq!(r.advance(1).unwrap(), &[9u8]);
    assert_eq!(r.advance(0).unwrap().len(), 0);
}

#[test]
fn load_transformer_short_anywhere_is_buffer_too_small() {
    let bytes = tiny_qtrn();
    // cut inside the embeddings, the position table, the block, the head and the calibration
    for cut in [33usize, 44, 60, 95, 110] {
        assert_eq!(
            load_transformer_from_bytes::<2, 1, 1, 1, 1, 1>(&bytes[..cut]).err(),
            Some(ModelLoadError::BufferTooSmall),
            "cut at {cut}"
        );
    }
}

#[test]
fn load_transformer_empty_dimensions_still_report_header_errors() {
    let bytes = tiny_qtrn();
    assert_eq!(
        load_transformer_from_bytes::<0, 0, 1, 1, 1, 1>(&bytes).err(),
        Some(ModelLoadError::ShapeMismatch)
    );
    assert_eq!(
        load_transformer_from_bytes::<0, 0, 1, 1, 1, 1>(&bytes[..10]).err(),
        Some(ModelLoadError::BufferTooSmall)
    );
}
