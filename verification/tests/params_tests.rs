use llama_infer::config::{Config, DType};
use llama_infer::params::{decode_le16, decode_le32, layer_param_name, usize_to_string, LLamaParams};
use llama_infer::LlamaError;
use safetensors::tensor::TensorView;
use safetensors::{serialize, Dtype};

fn test_config(tie: bool) -> Config {
    Config {
        vocab_size: 2,
        hidden_size: 2,
        intermediate_size: 3,
        num_layers: 1,
        num_q_heads: 1,
        num_kv_heads: 1,
        max_seq_len: 4,
        eos_token_id: 1,
        tie_word_embeddings: tie,
        dtype: DType::F32,
    }
}

fn f32_bytes(vals: &[f32]) -> Vec<u8> {
    let mut out: Vec<u8> = Vec::new();
    for v in vals {
        out.extend_from_slice(&v.to_le_bytes());
    }
    out
}

/// All tensors a one-layer, hidden-size-2 model needs, each filled with
/// ascending values; returns the serialized archive.
fn one_layer_archive(with_embed: bool) -> Vec<u8> {
    let c = test_config(false);
    let h = c.hidden_size;
    let i = c.intermediate_size;
    let v = c.vocab_size;
    let mut entries: Vec<(String, Vec<usize>, Vec<f32>)> = Vec::new();
    let fill = |n: usize| (0..n).map(|k| k as f32 + 0.5).collect::<Vec<f32>>();
    entries.push(("lm_head.weight".to_string(), vec![v, h], fill(v * h)));
    if with_embed {
        entries.push(("model.embed_tokens.weight".to_string(), vec![v, h], fill(v * h)));
    }
    entries.push(("model.layers.0.input_layernorm.weight".to_string(), vec![h], fill(h)));
    entries.push(("model.layers.0.self_attn.q_proj.weight".to_string(), vec![h, h], fill(h * h)));
    entries.push(("model.layers.0.self_attn.k_proj.weight".to_string(), vec![h, h], fill(h * h)));
    entries.push(("model.layers.0.self_attn.v_proj.weight".to_string(), vec![h, h], fill(h * h)));
    entries.push(("model.layers.0.self_attn.o_proj.weight".to_string(), vec![h, h], fill(h * h)));
    entries.push(("model.layers.0.post_attention_layernorm.weight".to_string(), vec![h], fill(h)));
    entries.push(("model.layers.0.mlp.up_proj.weight".to_string(), vec![i, h], fill(i * h)));
    entries.push(("model.layers.0.mlp.gate_proj.weight".to_string(), vec![i, h], fill(i * h)));
    entries.push(("model.layers.0.mlp.down_proj.weight".to_string(), vec![h, i], fill(h * i)));
    entries.push(("model.norm.weight".to_string(), vec![h], fill(h)));
    let byte_entries: Vec<(String, Vec<usize>, Vec<u8>)> = entries
        .into_iter()
        .map(|(n, s, d)| (n, s, f32_bytes(&d)))
        .collect();
    let views: Vec<(String, TensorView)> = byte_entries
        .iter()
        .map(|(n, s, d)| (n.clone(), TensorView::new(Dtype::F32, s.clone(), d).unwrap()))
        .collect();
    serialize(views, None).unwrap()
}

#[test]
fn decimal_strings() {
    assert_eq!(usize_to_string(0), "0");
    assert_eq!(usize_to_string(7), "7");
    assert_eq!(usize_to_string(10), "10");
    assert_eq!(usize_to_string(123), "123");
}

#[test]
fn layer_names_follow_template() {
    assert_eq!(
        layer_param_name(7, "input_layernorm.weight"),
        "model.layers.7.input_layernorm.weight"
    );
    assert_eq!(
        layer_param_name(12, "mlp.gate_proj.weight"),
        "model.layers.12.mlp.gate_proj.weight"
    );
}

#[test]
fn decode_little_endian_words() {
    let w = decode_le32(&vec![0x78, 0x56, 0x34, 0x12, 0x01, 0x00, 0x00, 0x00]);
    assert_eq!(w, vec![0x12345678, 1]);
    let h = decode_le16(&vec![0xcd, 0xab, 0x02, 0x00]);
    assert_eq!(h, vec![0xabcd, 2]);
}

#[test]
fn load_untied_params() {
    let archive = one_layer_archive(true);
    let c = test_config(false);
    let p = LLamaParams::<u32>::from_safetensors(&archive, &c).unwrap();
    assert_eq!(p.lm_head.size(), 4);
    assert_eq!(p.lm_head.shape(), &vec![2, 2]);
    assert_eq!(*p.lm_head.get(0), 0.5f32.to_bits());
    assert_eq!(*p.lm_head.get(3), 3.5f32.to_bits());
    assert_eq!(p.rms_att_w.len(), 1);
    assert_eq!(p.rms_att_w[0].shape(), &vec![2]);
    assert_eq!(*p.rms_att_w[0].get(1), 1.5f32.to_bits());
    assert_eq!(p.w_down[0].shape(), &vec![2, 3]);
    assert_eq!(p.rms_out_w.shape(), &vec![2]);
}

#[test]
fn tied_embeddings_view_the_head() {
    let archive = one_layer_archive(false);
    let c = test_config(true);
    let p = LLamaParams::<u32>::from_safetensors(&archive, &c).unwrap();
    assert_eq!(p.embedding_table.data(), p.lm_head.data());
    assert_eq!(p.embedding_table.shape(), p.lm_head.shape());
}

#[test]
fn missing_tensor_is_reported() {
    let archive = one_layer_archive(false);
    let c = test_config(false);
    let r = LLamaParams::<u32>::from_safetensors(&archive, &c);
    assert!(matches!(r, Err(LlamaError::MissingParameter)));
}

#[test]
fn missing_layer_is_reported() {
    let archive = one_layer_archive(true);
    let mut c = test_config(false);
    c.num_layers = 2;
    let r = LLamaParams::<u32>::from_safetensors(&archive, &c);
    assert!(matches!(r, Err(LlamaError::MissingParameter)));
}

#[test]
fn short_bytes_are_malformed() {
    let data: Vec<u8> = vec![0u8; 8];
    let view = TensorView::new(Dtype::F16, vec![2, 2], &data).unwrap();
    let archive = serialize(vec![("lm_head.weight".to_string(), view)], None).unwrap();
    let c = test_config(true);
    let r = LLamaParams::<u32>::from_safetensors(&archive, &c);
    assert!(matches!(r, Err(LlamaError::MalformedTensor)));
}

#[test]
fn load_bf16_full_model() {
    let c = Config { dtype: DType::BF16, ..test_config(true) };
    let h = c.hidden_size;
    let i = c.intermediate_size;
    let v = c.vocab_size;
    let bf = |n: usize| -> Vec<u8> {
        let mut out: Vec<u8> = Vec::new();
        for k in 0..n {
            out.extend_from_slice(&half::bf16::from_f32(k as f32 + 0.5).to_le_bytes());
        }
        out
    };
    let byte_entries: Vec<(String, Vec<usize>, Vec<u8>)> = vec![
        ("lm_head.weight".to_string(), vec![v, h], bf(v * h)),
        ("model.layers.0.input_layernorm.weight".to_string(), vec![h], bf(h)),
        ("model.layers.0.self_attn.q_proj.weight".to_string(), vec![h, h], bf(h * h)),
        ("model.layers.0.self_attn.k_proj.weight".to_string(), vec![h, h], bf(h * h)),
        ("model.layers.0.self_attn.v_proj.weight".to_string(), vec![h, h], bf(h * h)),
        ("model.layers.0.self_attn.o_proj.weight".to_string(), vec![h, h], bf(h * h)),
        ("model.layers.0.post_attention_layernorm.weight".to_string(), vec![h], bf(h)),
        ("model.layers.0.mlp.up_proj.weight".to_string(), vec![i, h], bf(i * h)),
        ("model.layers.0.mlp.gate_proj.weight".to_string(), vec![i, h], bf(i * h)),
        ("model.layers.0.mlp.down_proj.weight".to_string(), vec![h, i], bf(h * i)),
        ("model.norm.weight".to_string(), vec![h], bf(h)),
    ];
    let views: Vec<(String, TensorView)> = byte_entries
        .iter()
        .map(|(n, s, d)| (n.clone(), TensorView::new(Dtype::BF16, s.clone(), d).unwrap()))
        .collect();
    let archive = serialize(views, None).unwrap();
    let p = LLamaParams::<u16>::from_safetensors(&archive, &c).unwrap();
    assert_eq!(*p.lm_head.get(0), half::bf16::from_f32(0.5).to_bits());
    assert_eq!(p.embedding_table.data(), p.lm_head.data());
    assert_eq!(p.w_gate[0].shape(), &vec![3, 2]);
}
