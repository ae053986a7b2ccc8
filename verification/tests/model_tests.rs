use llama_infer::config::{parse_dtype, Config, DType};
use llama_infer::kvcache::KvCache;
use llama_infer::model::{causal_boundary, check_shapes, GenState, Llama};
use llama_infer::params::LLamaParams;
use llama_infer::sampling::argmax;
use llama_infer::tensor::Tensor;
use llama_infer::LlamaError;

fn small_config() -> Config {
    Config {
        vocab_size: 2,
        hidden_size: 2,
        intermediate_size: 3,
        num_layers: 1,
        num_q_heads: 1,
        num_kv_heads: 1,
        max_seq_len: 4,
        eos_token_id: 1,
        tie_word_embeddings: false,
        dtype: DType::F32,
    }
}

fn small_params() -> LLamaParams<u32> {
    let t1 = |d0: usize| Tensor::<u32>::new(vec![0; d0], vec![d0]);
    let t2 = |d0: usize, d1: usize| Tensor::<u32>::new(vec![0; d0 * d1], vec![d0, d1]);
    LLamaParams {
        embedding_table: t2(2, 2),
        rms_att_w: vec![t1(2)],
        wq: vec![t2(2, 2)],
        wk: vec![t2(2, 2)],
        wv: vec![t2(2, 2)],
        wo: vec![t2(2, 2)],
        rms_ffn_w: vec![t1(2)],
        w_up: vec![t2(3, 2)],
        w_gate: vec![t2(3, 2)],
        w_down: vec![t2(2, 3)],
        rms_out_w: t1(2),
        lm_head: t2(2, 2),
    }
}

#[test]
fn dtype_tags() {
    assert_eq!(parse_dtype("float32"), Ok(DType::F32));
    assert_eq!(parse_dtype("bfloat16"), Ok(DType::BF16));
    assert_eq!(parse_dtype("float16"), Err(LlamaError::UnsupportedDtype));
}

#[test]
fn config_validation() {
    assert!(small_config().validate());
    let mut c = small_config();
    c.num_q_heads = 3;
    c.num_kv_heads = 2;
    // query heads must be a multiple of key/value heads
    assert!(!c.validate());
    let mut c2 = small_config();
    c2.hidden_size = 3;
    // head size must be even for rotary embedding
    assert!(!c2.validate());
}

#[test]
fn shape_checking() {
    let c = small_config();
    assert!(check_shapes(&small_params(), &c));
    let mut bad = small_params();
    bad.wq[0] = Tensor::<u32>::new(vec![0; 2], vec![2]);
    assert!(!check_shapes(&bad, &c));
}

#[test]
fn model_binding() {
    let c = small_config();
    let m = Llama::<u32>::new(c, small_params()).unwrap();
    assert_eq!(m.config.vocab_size, 2);
    let mut bad = small_params();
    bad.lm_head = Tensor::<u32>::new(vec![0; 2], vec![1, 2]);
    let r = Llama::<u32>::new(c, bad);
    assert!(matches!(r, Err(LlamaError::ShapeMismatch)));
}

#[test]
fn cache_starts_empty_and_advances() {
    let mut cache = KvCache::<f32>::new(2, 3, 2, 0.0);
    assert_eq!(cache.len(), 0);
    assert_eq!(cache.num_layers(), 2);
    cache.write_k_row(0, 0, &vec![1.0, 2.0]);
    cache.write_v_row(0, 0, &vec![3.0, 4.0]);
    cache.write_k_row(1, 0, &vec![5.0, 6.0]);
    cache.write_v_row(1, 0, &vec![7.0, 8.0]);
    // one forward pass over one new token advances the length by exactly one
    cache.advance(1);
    assert_eq!(cache.len(), 1);
    assert_eq!(&cache.layer_k(0)[0..2], &[1.0, 2.0]);
    assert_eq!(&cache.layer_v(1)[0..2], &[7.0, 8.0]);
    cache.write_k_row(0, 1, &vec![9.0, 9.5]);
    cache.write_k_row(0, 2, &vec![9.6, 9.7]);
    cache.write_v_row(0, 1, &vec![0.0, 0.0]);
    cache.write_v_row(0, 2, &vec![0.0, 0.0]);
    // a prefill over two tokens advances by exactly two
    cache.advance(2);
    assert_eq!(cache.len(), 3);
    assert_eq!(&cache.layer_k(0)[2..4], &[9.0, 9.5]);
    // history written before stays in place
    assert_eq!(&cache.layer_k(0)[0..2], &[1.0, 2.0]);
}

#[test]
fn generation_plan_and_stop() {
    let mut g = GenState::new(3, 2, 9);
    assert_eq!(g.plan_step(), (0, 3));
    assert!(!g.push_token(5));
    assert_eq!(g.plan_step(), (3, 1));
    assert!(g.push_token(7)); // max_new reached
    assert_eq!(g.output(), vec![5, 7]);

    let mut g2 = GenState::new(2, 10, 9);
    assert_eq!(g2.plan_step(), (0, 2));
    assert!(g2.push_token(9)); // end-of-sequence stops generation
}

#[test]
fn causal_boundaries() {
    // three queries over five total positions: the last attends to all
    assert_eq!(causal_boundary(5, 3, 0), 3);
    assert_eq!(causal_boundary(5, 3, 1), 4);
    assert_eq!(causal_boundary(5, 3, 2), 5);
    assert_eq!(causal_boundary(4, 4, 0), 1);
}

/// The monotone order-preserving map from a float to an integer key: flips
/// negative patterns so unsigned comparison agrees with numeric order.
fn sort_key(x: f32) -> u32 {
    let b = x.to_bits();
    if b & 0x8000_0000 != 0 { !b } else { b | 0x8000_0000 }
}

#[test]
fn greedy_sampling_picks_first_maximum() {
    let logits = [0.1f32, 0.9, 0.3, 0.9];
    let keys: Vec<u32> = logits.iter().map(|v| sort_key(*v)).collect();
    assert_eq!(argmax(&keys), 1);
}

#[test]
fn greedy_sampling_handles_negatives() {
    let logits = [-0.5f32, -2.0, -0.25, -3.0];
    let keys: Vec<u32> = logits.iter().map(|v| sort_key(*v)).collect();
    assert_eq!(argmax(&keys), 2);
    assert_eq!(argmax(&vec![4u32]), 0);
}
