use llama_infer::config::ModelConfig;
use llama_infer::generate::{run_bulk_with_samples, run_stream_with_samples, GenSession};
use llama_infer::model::{ForwardError, LLamaParams, Llama, LoadError};
use llama_infer::tensor::Tensor;

fn tiny_config() -> ModelConfig {
    ModelConfig {
        vocab_size: 4,
        num_hidden_layers: 1,
        num_attention_heads: 2,
        num_key_value_heads: 1,
        hidden_size: 4,
        intermediate_size: 3,
        rms_norm_eps_bits: 1e-6f32.to_bits(),
        rope_theta_bits: 1e4f32.to_bits(),
        max_position_embeddings: 8,
        bos_token_id: 0,
        eos_token_id: 3,
        tie_word_embeddings: false,
    }
}

fn zeros(shape: Vec<usize>) -> Tensor<f32> {
    Tensor::filled(shape, 0.0f32).unwrap()
}

fn tiny_params() -> LLamaParams<f32> {
    // head_dim = 2, q rows = 4, kv rows = 2
    LLamaParams {
        embedding_table: zeros(vec![4, 4]),
        rms_att_w: vec![zeros(vec![4])],
        wq: vec![zeros(vec![4, 4])],
        wk: vec![zeros(vec![2, 4])],
        wv: vec![zeros(vec![2, 4])],
        wo: vec![zeros(vec![4, 4])],
        rms_ffn_w: vec![zeros(vec![4])],
        w_up: vec![zeros(vec![3, 4])],
        w_gate: vec![zeros(vec![3, 4])],
        w_down: vec![zeros(vec![4, 3])],
        rms_out_w: zeros(vec![4]),
        lm_head: zeros(vec![4, 4]),
    }
}

#[test]
fn model_accepts_matching_shapes() {
    let m = Llama::from_parts(tiny_config(), tiny_params());
    assert!(m.is_ok());
}

#[test]
fn model_rejects_invalid_config() {
    let mut cfg = tiny_config();
    cfg.num_key_value_heads = 0;
    match Llama::from_parts(cfg, tiny_params()) {
        Err(LoadError::InvalidConfig) => {}
        _ => panic!("expected an invalid-config failure"),
    }
}

#[test]
fn model_rejects_shape_mismatch() {
    let mut params = tiny_params();
    params.wk = vec![zeros(vec![4, 4])];
    match Llama::from_parts(tiny_config(), params) {
        Err(LoadError::ShapeMismatch) => {}
        _ => panic!("expected a shape-mismatch failure"),
    }
    let mut params2 = tiny_params();
    params2.rms_att_w = vec![];
    match Llama::from_parts(tiny_config(), params2) {
        Err(LoadError::ShapeMismatch) => {}
        _ => panic!("expected a shape-mismatch failure"),
    }
}

#[test]
fn new_cache_matches_model() {
    let m = Llama::from_parts(tiny_config(), tiny_params()).unwrap();
    let mut c = m.new_cache(0.0f32).unwrap();
    assert_eq!(c.layers(), 1);
    assert_eq!(c.max_seq_len(), 8);
    assert_eq!(c.width(), 2);
    assert_eq!(c.len(), 0);
    assert_eq!(c.current_len(), 0);
    // the buffers come zero-filled: expose a row and read it back
    assert!(c.increment(2));
    let k = c.key_view(0, 0).unwrap();
    let v = c.value_view(0, 0).unwrap();
    assert_eq!(c.read(&k, 0, 0), 0.0f32);
    assert_eq!(c.read(&k, 1, 1), 0.0f32);
    assert_eq!(c.read(&v, 1, 0), 0.0f32);
}

#[test]
fn forward_rejects_empty_input() {
    let m = Llama::from_parts(tiny_config(), tiny_params()).unwrap();
    let mut c = m.new_cache(0.0f32).unwrap();
    match m.begin_forward(&mut c, 0) {
        Err(ForwardError::EmptyInput) => {}
        _ => panic!("an empty input sequence must be rejected"),
    }
    assert_eq!(c.current_len(), 0);
}

#[test]
fn forward_rejects_cache_overflow() {
    let m = Llama::from_parts(tiny_config(), tiny_params()).unwrap();
    let mut c = m.new_cache(0.0f32).unwrap();
    assert!(m.begin_forward(&mut c, 3).is_ok());
    match m.begin_forward(&mut c, 7) {
        Err(ForwardError::CacheOverflow) => {}
        _ => panic!("expected a cache-capacity failure"),
    }
    assert_eq!(c.current_len(), 3);
    assert!(m.begin_forward(&mut c, 5).is_ok());
    assert_eq!(c.current_len(), 8);
    // an empty input is rejected as such even when the cache is full
    match m.begin_forward(&mut c, 0) {
        Err(ForwardError::EmptyInput) => {}
        _ => panic!("an empty input sequence must be rejected"),
    }
}

#[test]
fn forward_plan_fixes_dimensions() {
    let m = Llama::from_parts(tiny_config(), tiny_params()).unwrap();
    let mut c = m.new_cache(0.0f32).unwrap();
    let p1 = m.begin_forward(&mut c, 3).unwrap();
    assert_eq!(p1.seq_len, 3);
    assert_eq!(p1.past_len, 0);
    assert_eq!(p1.total_seq_len, 3);
    assert_eq!(p1.n_groups, 2);
    assert_eq!(p1.n_kv_heads, 1);
    assert_eq!(p1.n_q_heads, 2);
    assert_eq!(p1.head_dim, 2);
    assert_eq!(p1.hidden_size, 4);
    assert_eq!(p1.intermediate_size, 3);
    assert_eq!(p1.vocab_size, 4);
    assert_eq!(p1.kv_width, 2);
    // the cache's positional base is the pre-increment length
    assert_eq!(c.len(), 0);
    let p2 = m.begin_forward(&mut c, 1).unwrap();
    assert_eq!(p2.past_len, 3);
    assert_eq!(p2.total_seq_len, 4);
    assert_eq!(c.len(), 3);
}

#[test]
fn session_halts_at_eos() {
    let mut s = GenSession::new(vec![1, 2], 6, 9);
    assert!(!s.finished());
    assert_eq!(s.next_input(), vec![1, 2]);
    assert_eq!(s.accept(5), Some(5));
    assert!(!s.finished());
    assert_eq!(s.next_input(), vec![5]);
    assert_eq!(s.accept(9), None);
    assert!(s.finished());
    assert_eq!(s.tokens(), &vec![1, 2, 5, 9]);
}

#[test]
fn session_halts_at_cap() {
    let mut s = GenSession::new(vec![1], 3, 9);
    assert_eq!(s.accept(5), Some(5));
    assert!(!s.finished());
    assert_eq!(s.accept(6), Some(6));
    assert!(s.finished());
    // the cap is reached exactly, never exceeded
    assert_eq!(s.tokens(), &vec![1, 5, 6]);
}

#[test]
fn session_long_prompt_generates_nothing() {
    let s = GenSession::new(vec![1, 2, 3], 2, 9);
    assert!(s.finished());
    assert_eq!(s.tokens(), &vec![1, 2, 3]);
}

#[test]
fn sample_driven_runs_match_protocols() {
    let samples = vec![4u32, 7, 9, 5];
    // bulk keeps the prompt and the terminating end-of-sequence id
    let bulk = run_bulk_with_samples(vec![1, 2], 10, 9, &samples);
    assert_eq!(bulk, vec![1, 2, 4, 7, 9]);
    // streaming yields only the newly generated ids before it
    let stream = run_stream_with_samples(vec![1, 2], 10, 9, &samples);
    assert_eq!(stream, vec![4, 7]);
    // halting by the cap instead
    let capped = run_bulk_with_samples(vec![1, 2], 4, 9, &samples);
    assert_eq!(capped, vec![1, 2, 4, 7]);
    let capped_stream = run_stream_with_samples(vec![1, 2], 4, 9, &samples);
    assert_eq!(capped_stream, vec![4, 7]);
    // exhausting the samples
    let short = run_bulk_with_samples(vec![1], 10, 9, &vec![5u32]);
    assert_eq!(short, vec![1, 5]);
}

#[test]
fn stream_and_bulk_agree_on_same_samples() {
    // same starting state, same sampled tokens, both protocols
    let samples = [4u32, 7, 5, 9];
    let mut bulk = GenSession::new(vec![1, 2], 10, 9);
    for s in samples {
        if bulk.finished() {
            break;
        }
        bulk.accept(s);
    }
    let mut stream = GenSession::new(vec![1, 2], 10, 9);
    let mut streamed: Vec<u32> = Vec::new();
    for s in samples {
        if stream.finished() {
            break;
        }
        if let Some(t) = stream.accept(s) {
            streamed.push(t);
        } else {
            break;
        }
    }
    // the bulk result is the prompt, the streamed tokens, then the
    // terminating end-of-sequence id
    assert_eq!(bulk.tokens(), &vec![1, 2, 4, 7, 5, 9]);
    assert_eq!(streamed, vec![4, 7, 5]);
    let mut expected = vec![1, 2];
    expected.extend_from_slice(&streamed);
    expected.push(9);
    assert_eq!(bulk.tokens(), &expected);
}
