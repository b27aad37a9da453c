use llama_infer::chat::Message;
use llama_infer::config::ModelConfig;
use llama_infer::kvcache::KVCache;
use llama_infer::layout::{att_score_index, fused_head, head_elem_index, is_causally_visible,
    rope_pair_indices, visible_len};
use llama_infer::ops::{clamp_top_k, gather, ids_in_range};
use llama_infer::tensor::{checked_size, Tensor};

fn small_config() -> ModelConfig {
    ModelConfig {
        vocab_size: 2048,
        num_hidden_layers: 2,
        num_attention_heads: 8,
        num_key_value_heads: 4,
        hidden_size: 128,
        intermediate_size: 384,
        rms_norm_eps_bits: 1e-6f32.to_bits(),
        rope_theta_bits: 1e4f32.to_bits(),
        max_position_embeddings: 50,
        bos_token_id: 1,
        eos_token_id: 2,
        tie_word_embeddings: true,
    }
}

#[test]
fn tensor_new_checks_element_count() {
    assert!(Tensor::<u32>::new(vec![1, 2, 3, 4, 5, 6], vec![2, 3]).is_some());
    assert!(Tensor::<u32>::new(vec![1, 2, 3, 4, 5, 6], vec![2, 4]).is_none());
    assert!(Tensor::<u32>::new(vec![], vec![0, 3]).is_some());
}

#[test]
fn tensor_checked_size() {
    assert_eq!(checked_size(&vec![2, 3, 4]), Some(24));
    assert_eq!(checked_size(&vec![]), Some(1));
    assert_eq!(checked_size(&vec![usize::MAX, 0, 7]), Some(0));
    assert_eq!(checked_size(&vec![usize::MAX, 2]), None);
}

#[test]
fn tensor_reshape_fails_iff_count_differs() {
    let mut t = Tensor::<u32>::new(vec![1, 2, 3, 4, 5, 6], vec![2, 3]).unwrap();
    assert!(t.reshape(vec![3, 2]));
    assert_eq!(t.shape(), &vec![3, 2]);
    assert!(!t.reshape(vec![4, 2]));
    assert_eq!(t.shape(), &vec![3, 2]);
    assert!(t.reshape(vec![6]));
    assert_eq!(*t.get(5), 6);
}

#[test]
fn tensor_view_mutation_visible_through_storage() {
    let mut t = Tensor::<u32>::new(vec![0, 1, 2, 3, 4, 5], vec![2, 3]).unwrap();
    let v = t.slice(2, vec![2, 2]).unwrap();
    assert_eq!(v.offset(), 2);
    assert_eq!(v.shape(), &vec![2, 2]);
    assert_eq!(*t.view_get(&v, 1), 3);
    t.view_set(&v, 0, 99);
    // the write through the view lands in the original storage at the
    // matching offset, everything else untouched
    assert_eq!(*t.get(2), 99);
    assert_eq!(*t.get(1), 1);
    assert_eq!(*t.get(3), 3);
    assert_eq!(*t.view_get(&v, 0), 99);
}

#[test]
fn tensor_slice_bounds() {
    let t = Tensor::<u32>::new(vec![0, 1, 2, 3, 4, 5], vec![6]).unwrap();
    assert!(t.slice(4, vec![2]).is_some());
    assert!(t.slice(5, vec![2]).is_none());
}

#[test]
fn tensor_filled_and_floats() {
    let t = Tensor::<f32>::filled(vec![2, 2], 0.5f32).unwrap();
    assert_eq!(t.size(), 4);
    assert_eq!(*t.get(3), 0.5f32);
}

#[test]
fn cache_len_is_pre_increment_value() {
    let mut c = KVCache::<u32>::new(2, 4, 3, 0, 0).unwrap();
    assert_eq!(c.len(), 0);
    assert_eq!(c.current_len(), 0);
    assert!(c.increment(2));
    // len() keeps returning the pre-increment value
    assert_eq!(c.len(), 0);
    assert_eq!(c.current_len(), 2);
    assert!(c.increment(1));
    assert_eq!(c.len(), 2);
    assert_eq!(c.current_len(), 3);
}

#[test]
fn cache_increment_fails_beyond_capacity() {
    let mut c = KVCache::<u32>::new(1, 4, 2, 0, 0).unwrap();
    assert!(c.increment(3));
    assert!(!c.increment(2));
    assert_eq!(c.current_len(), 3);
    assert!(c.increment(1));
    assert_eq!(c.current_len(), 4);
}

#[test]
fn cache_history_preserved_across_steps() {
    let mut c = KVCache::<u32>::new(1, 4, 2, 0, 0).unwrap();
    assert!(c.increment(2));
    let w = c.key_view(0, 0).unwrap();
    assert_eq!(w.rows(), 2);
    c.write(&w, 0, 0, 10);
    c.write(&w, 0, 1, 11);
    c.write(&w, 1, 0, 20);
    c.write(&w, 1, 1, 21);
    let wv = c.value_view(0, 0).unwrap();
    c.write(&wv, 0, 0, 77);
    assert!(c.increment(1));
    assert_eq!(c.len(), 2);
    // write the freshly exposed row at the prior length
    let fresh = c.key_view(0, 2).unwrap();
    assert_eq!(fresh.start(), 2);
    assert_eq!(fresh.rows(), 1);
    c.write(&fresh, 0, 0, 30);
    c.write(&fresh, 0, 1, 31);
    // a read over [0, new_length) returns all history unchanged
    let all = c.key_view(0, 0).unwrap();
    assert_eq!(all.rows(), 3);
    assert_eq!(c.read(&all, 0, 0), 10);
    assert_eq!(c.read(&all, 0, 1), 11);
    assert_eq!(c.read(&all, 1, 0), 20);
    assert_eq!(c.read(&all, 1, 1), 21);
    assert_eq!(c.read(&all, 2, 0), 30);
    assert_eq!(c.read(&all, 2, 1), 31);
    let va = c.value_view(0, 0).unwrap();
    assert_eq!(c.read(&va, 0, 0), 77);
    assert_eq!(c.read(&va, 2, 0), 0);
}

#[test]
fn cache_rejects_bad_views() {
    let c = KVCache::<u32>::new(1, 4, 2, 0, 0).unwrap();
    assert!(c.key_view(1, 0).is_none());
    assert!(c.key_view(0, 1).is_none());
    assert!(c.value_view(0, 0).is_some());
}

#[test]
fn causal_visibility_boundary() {
    // window of 3 queries over 5 total positions: query q sees
    // positions 0 ..= 2 + q
    assert_eq!(visible_len(3, 5, 0), 3);
    assert_eq!(visible_len(3, 5, 1), 4);
    assert_eq!(visible_len(3, 5, 2), 5);
    assert!(is_causally_visible(3, 5, 0, 2));
    assert!(!is_causally_visible(3, 5, 0, 3));
    assert!(is_causally_visible(3, 5, 1, 3));
    assert!(!is_causally_visible(3, 5, 1, 4));
    assert!(is_causally_visible(3, 5, 2, 4));
    // a single query over its own position only
    assert_eq!(visible_len(1, 1, 0), 1);
    assert!(is_causally_visible(1, 1, 0, 0));
}

#[test]
fn attention_score_layout() {
    // buffer [n_kv_heads=2, n_groups=2, seq=3, total=4]
    assert_eq!(att_score_index(2, 2, 3, 4, 0, 0, 0, 0), 0);
    assert_eq!(att_score_index(2, 2, 3, 4, 0, 0, 0, 3), 3);
    assert_eq!(att_score_index(2, 2, 3, 4, 1, 0, 2, 3), 35);
    assert_eq!(att_score_index(2, 2, 3, 4, 1, 1, 2, 3), 47);
    assert_eq!(fused_head(2, 2, 1, 0), 2);
    assert_eq!(fused_head(2, 2, 1, 1), 3);
}

#[test]
fn head_element_layout() {
    // rows of 4 heads, 8 entries each
    assert_eq!(head_elem_index(2, 4, 8, 0, 0, 0), 0);
    assert_eq!(head_elem_index(2, 4, 8, 1, 2, 3), 51);
    assert_eq!(head_elem_index(2, 4, 8, 1, 3, 7), 63);
}

#[test]
fn rope_adjacent_pairing() {
    assert_eq!(rope_pair_indices(8, 0), (0, 1));
    assert_eq!(rope_pair_indices(8, 2), (4, 5));
    assert_eq!(rope_pair_indices(8, 3), (6, 7));
}

#[test]
fn gather_copies_rows_in_order() {
    let table = Tensor::<u32>::new(vec![10, 11, 20, 21, 30, 31], vec![3, 2]).unwrap();
    let ids = Tensor::<u32>::new(vec![2, 0, 2], vec![3]).unwrap();
    let mut out = Tensor::<u32>::filled(vec![3, 2], 0).unwrap();
    assert!(ids_in_range(&ids, 3));
    gather(&mut out, &ids, &table, 2);
    assert_eq!(*out.get(0), 30);
    assert_eq!(*out.get(1), 31);
    assert_eq!(*out.get(2), 10);
    assert_eq!(*out.get(3), 11);
    assert_eq!(*out.get(4), 30);
    assert_eq!(*out.get(5), 31);
}

#[test]
fn gather_id_range_check() {
    let ids = Tensor::<u32>::new(vec![2, 5], vec![2]).unwrap();
    assert!(!ids_in_range(&ids, 3));
    assert!(ids_in_range(&ids, 6));
}

#[test]
fn top_k_clamped_into_vocabulary() {
    assert_eq!(clamp_top_k(0, 5), 1);
    assert_eq!(clamp_top_k(3, 5), 3);
    assert_eq!(clamp_top_k(9, 5), 5);
    assert_eq!(clamp_top_k(1, 1), 1);
}

#[test]
fn config_valid_small_model() {
    let cfg = small_config();
    assert!(cfg.validate());
    assert_eq!(cfg.head_dim(), 16);
    assert_eq!(cfg.n_groups(), 2);
}

#[test]
fn config_rejects_uneven_heads() {
    let mut cfg = small_config();
    cfg.hidden_size = 130;
    assert!(!cfg.validate());
    let mut cfg2 = small_config();
    cfg2.num_key_value_heads = 3;
    assert!(!cfg2.validate());
    let mut cfg3 = small_config();
    cfg3.num_hidden_layers = 0;
    assert!(!cfg3.validate());
}

#[test]
fn message_format_template() {
    let m = Message { role: String::from("user"), msg: String::from("hi") };
    assert_eq!(m.format(), "<|im_start|>user\nhi<|im_end|>\n");
    let m2 = Message { role: String::from("assistant"), msg: String::from("") };
    assert_eq!(m2.format(), "<|im_start|>assistant\n<|im_end|>\n");
}
