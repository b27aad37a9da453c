//! Model hyper-parameters and their structural invariants.
//!
//! The engine works on plain integer dimensions; the two real-valued
//! hyper-parameters (the normalization epsilon and the rotary base) are
//! carried through as opaque 32-bit patterns that only the numeric host
//! code interprets.

use vstd::prelude::*;

verus! {

/// Hyper-parameters of one dense decoder-only transformer, fixed at load
/// time and immutable afterwards.
pub struct ModelConfig {
    pub vocab_size: usize,
    pub num_hidden_layers: usize,
    pub num_attention_heads: usize,
    pub num_key_value_heads: usize,
    pub hidden_size: usize,
    pub intermediate_size: usize,
    /// Bit pattern of the RMS-normalization epsilon; opaque to the core.
    pub rms_norm_eps_bits: u32,
    /// Bit pattern of the rotary-embedding base; opaque to the core.
    pub rope_theta_bits: u32,
    pub max_position_embeddings: usize,
    pub bos_token_id: u32,
    pub eos_token_id: u32,
    pub tie_word_embeddings: bool,
}

impl ModelConfig {
    /// The per-head feature width: every query, key and value vector has
    /// this many entries.
    pub open spec fn spec_head_dim(self) -> int {
        self.hidden_size as int / self.num_attention_heads as int
    }

    /// Structural soundness: all dimensions positive, the hidden size is
    /// split evenly over the query heads, and the query heads are split
    /// evenly over the key/value heads (grouped-query mapping).
    pub open spec fn valid(self) -> bool {
        &&& self.vocab_size > 0
        &&& self.num_hidden_layers > 0
        &&& self.num_attention_heads > 0
        &&& self.num_key_value_heads > 0
        &&& self.hidden_size > 0
        &&& self.intermediate_size > 0
        &&& self.max_position_embeddings > 0
        &&& self.hidden_size as int % self.num_attention_heads as int == 0
        &&& self.num_attention_heads as int % self.num_key_value_heads as int == 0
    }

    /// Checks every structural invariant of the configuration.
    pub fn validate(&self) -> (ok: bool)
        ensures
            ok <==> self.valid(),
    {
        self.vocab_size > 0 && self.num_hidden_layers > 0 && self.num_attention_heads > 0
            && self.num_key_value_heads > 0 && self.hidden_size > 0 && self.intermediate_size > 0
            && self.max_position_embeddings > 0
            && self.hidden_size % self.num_attention_heads == 0
            && self.num_attention_heads % self.num_key_value_heads == 0
    }

    /// The per-head feature width as an executable value.
    pub fn head_dim(&self) -> (d: usize)
        requires
            self.valid(),
        ensures
            d == self.spec_head_dim(),
    {
        self.hidden_size / self.num_attention_heads
    }

    /// How many consecutive query heads share one key/value head.
    pub open spec fn spec_n_groups(self) -> int {
        self.num_attention_heads as int / self.num_key_value_heads as int
    }

    /// The number of query heads served by each key/value head.
    pub fn n_groups(&self) -> (g: usize)
        requires
            self.valid(),
        ensures
            g == self.spec_n_groups(),
    {
        self.num_attention_heads / self.num_key_value_heads
    }
}

} // verus!
