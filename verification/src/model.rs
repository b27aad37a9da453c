//! The model: its immutable parameter set, load-time shape validation,
//! cache construction, and the bookkeeping that starts one forward pass.
//!
//! The numeric kernels run outside the core on the buffers these
//! functions size and validate; everything the kernels index by is
//! pinned down here.

use vstd::prelude::*;
use vstd::arithmetic::div_mod::{lemma_fundamental_div_mod, lemma_small_mod};
use crate::config::ModelConfig;
use crate::kvcache::KVCache;
use crate::tensor::Tensor;

verus! {

/// The trained weights: an embedding table, per-layer attention and
/// feed-forward matrices, and the output head.
pub struct LLamaParams<T> {
    /// Token-id to embedding lookup table, `(vocab_size, hidden_size)`.
    pub embedding_table: Tensor<T>,
    /// Attention RMS-norm weight, `(hidden_size,)` per layer.
    pub rms_att_w: Vec<Tensor<T>>,
    /// Query projection, `(n_q_heads * head_dim, hidden_size)` per layer.
    pub wq: Vec<Tensor<T>>,
    /// Key projection, `(n_kv_heads * head_dim, hidden_size)` per layer.
    pub wk: Vec<Tensor<T>>,
    /// Value projection, `(n_kv_heads * head_dim, hidden_size)` per layer.
    pub wv: Vec<Tensor<T>>,
    /// Output projection, `(hidden_size, n_q_heads * head_dim)` per layer.
    pub wo: Vec<Tensor<T>>,
    /// Feed-forward RMS-norm weight, `(hidden_size,)` per layer.
    pub rms_ffn_w: Vec<Tensor<T>>,
    /// Up projection, `(intermediate_size, hidden_size)` per layer.
    pub w_up: Vec<Tensor<T>>,
    /// Gate projection, `(intermediate_size, hidden_size)` per layer.
    pub w_gate: Vec<Tensor<T>>,
    /// Down projection, `(hidden_size, intermediate_size)` per layer.
    pub w_down: Vec<Tensor<T>>,
    /// Final RMS-norm weight, `(hidden_size,)`.
    pub rms_out_w: Tensor<T>,
    /// Output head, `(vocab_size, hidden_size)`.
    pub lm_head: Tensor<T>,
}

/// A well-formed tensor of shape `(a,)`.
pub open spec fn tensor_shape1<T>(t: Tensor<T>, a: int) -> bool {
    &&& t.wf()
    &&& t.spec_shape().len() == 1
    &&& t.spec_shape()[0] == a
}

/// A well-formed tensor of shape `(a, b)`.
pub open spec fn tensor_shape2<T>(t: Tensor<T>, a: int, b: int) -> bool {
    &&& t.wf()
    &&& t.spec_shape().len() == 2
    &&& t.spec_shape()[0] == a
    &&& t.spec_shape()[1] == b
}

/// Checks a tensor against shape `(a,)`.
pub fn check_shape1<T>(t: &Tensor<T>, a: usize) -> (r: bool)
    ensures
        r <==> tensor_shape1(*t, a as int),
{
    let sh = t.shape();
    t.check_wf() && sh.len() == 1 && sh[0] == a
}

/// Checks a tensor against shape `(a, b)`.
pub fn check_shape2<T>(t: &Tensor<T>, a: usize, b: usize) -> (r: bool)
    ensures
        r <==> tensor_shape2(*t, a as int, b as int),
{
    let sh = t.shape();
    t.check_wf() && sh.len() == 2 && sh[0] == a && sh[1] == b
}

/// Every weight tensor has exactly the shape the configuration demands.
pub open spec fn params_match<T>(cfg: ModelConfig, p: LLamaParams<T>) -> bool {
    let layers = cfg.num_hidden_layers as int;
    let d = cfg.hidden_size as int;
    let di = cfg.intermediate_size as int;
    let vocab = cfg.vocab_size as int;
    let dqkv = cfg.spec_head_dim();
    let q_rows = cfg.num_attention_heads as int * dqkv;
    let kv_rows = cfg.num_key_value_heads as int * dqkv;
    &&& tensor_shape2(p.embedding_table, vocab, d)
    &&& p.rms_att_w@.len() == layers
    &&& p.wq@.len() == layers
    &&& p.wk@.len() == layers
    &&& p.wv@.len() == layers
    &&& p.wo@.len() == layers
    &&& p.rms_ffn_w@.len() == layers
    &&& p.w_up@.len() == layers
    &&& p.w_gate@.len() == layers
    &&& p.w_down@.len() == layers
    &&& forall|l: int| 0 <= l < layers ==> tensor_shape1(#[trigger] p.rms_att_w@[l], d)
    &&& forall|l: int| 0 <= l < layers ==> tensor_shape2(#[trigger] p.wq@[l], q_rows, d)
    &&& forall|l: int| 0 <= l < layers ==> tensor_shape2(#[trigger] p.wk@[l], kv_rows, d)
    &&& forall|l: int| 0 <= l < layers ==> tensor_shape2(#[trigger] p.wv@[l], kv_rows, d)
    &&& forall|l: int| 0 <= l < layers ==> tensor_shape2(#[trigger] p.wo@[l], d, q_rows)
    &&& forall|l: int| 0 <= l < layers ==> tensor_shape1(#[trigger] p.rms_ffn_w@[l], d)
    &&& forall|l: int| 0 <= l < layers ==> tensor_shape2(#[trigger] p.w_up@[l], di, d)
    &&& forall|l: int| 0 <= l < layers ==> tensor_shape2(#[trigger] p.w_gate@[l], di, d)
    &&& forall|l: int| 0 <= l < layers ==> tensor_shape2(#[trigger] p.w_down@[l], d, di)
    &&& tensor_shape1(p.rms_out_w, d)
    &&& tensor_shape2(p.lm_head, vocab, d)
}

/// Why initialization is aborted: no partially loaded model is usable.
#[derive(Clone, Copy, Debug, PartialEq, Eq, Structural)]
pub enum LoadError {
    /// The configuration record breaks a structural invariant.
    InvalidConfig,
    /// A weight tensor is absent in spirit: its shape or element count
    /// does not match the configuration.
    ShapeMismatch,
}

/// Why a forward call is refused before any computation starts.
#[derive(Clone, Copy, Debug, PartialEq, Eq, Structural)]
pub enum ForwardError {
    /// The input token sequence is empty.
    EmptyInput,
    /// The history plus the input would exceed the cache capacity.
    CacheOverflow,
}

/// Everything one decode step needs to size its scratch buffers and to
/// index the grouped-query attention layout.
pub struct ForwardPlan {
    /// Tokens fed in this step.
    pub seq_len: usize,
    /// Valid cache rows before this step: the positional base.
    pub past_len: usize,
    /// Valid cache rows after this step: `past_len + seq_len`.
    pub total_seq_len: usize,
    /// Query heads per key/value head.
    pub n_groups: usize,
    /// Key/value heads.
    pub n_kv_heads: usize,
    /// Query heads.
    pub n_q_heads: usize,
    /// Entries per head.
    pub head_dim: usize,
    /// Entries per hidden-state row.
    pub hidden_size: usize,
    /// Entries per feed-forward intermediate row.
    pub intermediate_size: usize,
    /// Entries per logits row.
    pub vocab_size: usize,
    /// Entries per cache row: `n_kv_heads * head_dim`.
    pub kv_width: usize,
}

/// A dense decoder-only transformer: a validated configuration and a
/// parameter set whose shapes match it.
pub struct Llama<T> {
    pub config: ModelConfig,
    pub params: LLamaParams<T>,
}

impl<T: Copy> Llama<T> {
    /// The model invariant: valid configuration, matching weights.
    pub open spec fn wf(self) -> bool {
        &&& self.config.valid()
        &&& params_match(self.config, self.params)
    }

    /// A cache made for this model has one buffer pair per layer, rows
    /// as wide as all key/value heads together, and the model's
    /// capacity.
    pub open spec fn cache_matches(self, c: KVCache<T>) -> bool {
        &&& c.wf()
        &&& c.spec_layers() == self.config.num_hidden_layers
        &&& c.spec_max_seq_len() == self.config.max_position_embeddings
        &&& c.spec_width() == self.config.num_key_value_heads as int * self.config.spec_head_dim()
    }

    /// Assembles a model from a configuration and loaded weights,
    /// aborting exactly when the configuration is invalid or some
    /// weight's shape disagrees with it.
    pub fn from_parts(config: ModelConfig, params: LLamaParams<T>) -> (r: Result<Llama<T>, LoadError>)
        ensures
            match r {
                Ok(m) => {
                    &&& m.config == config
                    &&& m.params == params
                    &&& m.wf()
                },
                Err(LoadError::InvalidConfig) => !config.valid(),
                Err(LoadError::ShapeMismatch) => config.valid() && !params_match(config, params),
            },
            r is Ok <==> config.valid() && params_match(config, params),
    {
        if !config.validate() {
            return Err(LoadError::InvalidConfig);
        }
        let layers = config.num_hidden_layers;
        let d = config.hidden_size;
        let di = config.intermediate_size;
        let vocab = config.vocab_size;
        let dqkv = config.head_dim();
        proof {
            lemma_head_split(config);
            lemma_kv_width_bounded(config);
        }
        let q_rows = config.num_attention_heads * dqkv;
        let kv_rows = config.num_key_value_heads * dqkv;
        if !(check_shape2(&params.embedding_table, vocab, d) && check_shape1(&params.rms_out_w, d)
            && check_shape2(&params.lm_head, vocab, d)) {
            return Err(LoadError::ShapeMismatch);
        }
        if !(params.rms_att_w.len() == layers && params.wq.len() == layers && params.wk.len()
            == layers && params.wv.len() == layers && params.wo.len() == layers
            && params.rms_ffn_w.len() == layers && params.w_up.len() == layers
            && params.w_gate.len() == layers && params.w_down.len() == layers) {
            return Err(LoadError::ShapeMismatch);
        }
        let mut l: usize = 0;
        while l < layers
            invariant
                l <= layers,
                config.valid(),
                layers == config.num_hidden_layers,
                d == config.hidden_size,
                di == config.intermediate_size,
                q_rows == config.num_attention_heads as int * config.spec_head_dim(),
                kv_rows == config.num_key_value_heads as int * config.spec_head_dim(),
                params.rms_att_w@.len() == layers,
                params.wq@.len() == layers,
                params.wk@.len() == layers,
                params.wv@.len() == layers,
                params.wo@.len() == layers,
                params.rms_ffn_w@.len() == layers,
                params.w_up@.len() == layers,
                params.w_gate@.len() == layers,
                params.w_down@.len() == layers,
                forall|i: int| 0 <= i < l ==> tensor_shape1(#[trigger] params.rms_att_w@[i], d as int),
                forall|i: int| 0 <= i < l ==> tensor_shape2(#[trigger] params.wq@[i], q_rows as int, d as int),
                forall|i: int| 0 <= i < l ==> tensor_shape2(#[trigger] params.wk@[i], kv_rows as int, d as int),
                forall|i: int| 0 <= i < l ==> tensor_shape2(#[trigger] params.wv@[i], kv_rows as int, d as int),
                forall|i: int| 0 <= i < l ==> tensor_shape2(#[trigger] params.wo@[i], d as int, q_rows as int),
                forall|i: int| 0 <= i < l ==> tensor_shape1(#[trigger] params.rms_ffn_w@[i], d as int),
                forall|i: int| 0 <= i < l ==> tensor_shape2(#[trigger] params.w_up@[i], di as int, d as int),
                forall|i: int| 0 <= i < l ==> tensor_shape2(#[trigger] params.w_gate@[i], di as int, d as int),
                forall|i: int| 0 <= i < l ==> tensor_shape2(#[trigger] params.w_down@[i], d as int, di as int),
            decreases layers - l,
        {
            let ok = check_shape1(&params.rms_att_w[l], d) && check_shape2(&params.wq[l], q_rows, d)
                && check_shape2(&params.wk[l], kv_rows, d) && check_shape2(&params.wv[l], kv_rows, d)
                && check_shape2(&params.wo[l], d, q_rows) && check_shape1(&params.rms_ffn_w[l], d)
                && check_shape2(&params.w_up[l], di, d) && check_shape2(&params.w_gate[l], di, d)
                && check_shape2(&params.w_down[l], d, di);
            if !ok {
                return Err(LoadError::ShapeMismatch);
            }
            l = l + 1;
        }
        Ok(Llama { config, params })
    }

    /// An empty cache sized for this model: one buffer pair per layer,
    /// `max_position_embeddings` rows of `n_kv_heads * head_dim`
    /// entries, length zero.
    pub fn new_cache(&self, fill: T) -> (r: Option<KVCache<T>>)
        requires
            self.wf(),
        ensures
            match r {
                Some(c) => {
                    &&& self.cache_matches(c)
                    &&& c.spec_total_len() == 0
                    &&& c.spec_base_len() == 0
                    &&& forall|l: int, e: int|
                        0 <= l < c.spec_layers() && 0 <= e < c.spec_max_seq_len() * c.spec_width()
                            ==> #[trigger] c.spec_key(l)[e] == fill
                    &&& forall|l: int, e: int|
                        0 <= l < c.spec_layers() && 0 <= e < c.spec_max_seq_len() * c.spec_width()
                            ==> #[trigger] c.spec_value(l)[e] == fill
                },
                None => self.config.max_position_embeddings as int * (
                self.config.num_key_value_heads as int * self.config.spec_head_dim())
                    > usize::MAX,
            },
    {
        let dqkv = self.config.head_dim();
        proof {
            lemma_kv_width_bounded(self.config);
        }
        let width = self.config.num_key_value_heads * dqkv;
        KVCache::new(
            self.config.num_hidden_layers,
            self.config.max_position_embeddings,
            width,
            0,
            fill,
        )
    }

    /// Opens one decode step: rejects an empty input outright and a
    /// step that would overflow the cache, and otherwise advances the
    /// cache over the new rows and fixes every dimension of the step.
    pub fn begin_forward(&self, cache: &mut KVCache<T>, seq_len: usize) -> (r: Result<
        ForwardPlan,
        ForwardError,
    >)
        requires
            self.wf(),
            self.cache_matches(*old(cache)),
        ensures
            r == Err::<ForwardPlan, ForwardError>(ForwardError::EmptyInput) <==> seq_len == 0,
            r == Err::<ForwardPlan, ForwardError>(ForwardError::CacheOverflow) <==> seq_len > 0
                && old(cache).spec_total_len() + seq_len
                > self.config.max_position_embeddings as int,
            r is Err ==> *final(cache) == *old(cache),
            match r {
                Ok(plan) => {
                    &&& self.cache_matches(*final(cache))
                    &&& final(cache).spec_total_len() == old(cache).spec_total_len() + seq_len
                    &&& final(cache).spec_base_len() == old(cache).spec_total_len()
                    &&& forall|l: int|
                        0 <= l < old(cache).spec_layers() ==> #[trigger] final(cache).spec_key(l)
                            == old(cache).spec_key(l)
                    &&& forall|l: int|
                        0 <= l < old(cache).spec_layers() ==> #[trigger] final(cache).spec_value(l)
                            == old(cache).spec_value(l)
                    &&& plan.seq_len == seq_len
                    &&& plan.past_len == old(cache).spec_total_len()
                    &&& plan.total_seq_len == old(cache).spec_total_len() + seq_len
                    &&& plan.n_groups == self.config.spec_n_groups()
                    &&& plan.n_kv_heads == self.config.num_key_value_heads
                    &&& plan.n_q_heads == self.config.num_attention_heads
                    &&& plan.head_dim == self.config.spec_head_dim()
                    &&& plan.hidden_size == self.config.hidden_size
                    &&& plan.intermediate_size == self.config.intermediate_size
                    &&& plan.vocab_size == self.config.vocab_size
                    &&& plan.kv_width == self.config.num_key_value_heads as int
                        * self.config.spec_head_dim()
                },
                Err(_) => true,
            },
    {
        if seq_len == 0 {
            return Err(ForwardError::EmptyInput);
        }
        let past_len = cache.current_len();
        if !cache.increment(seq_len) {
            return Err(ForwardError::CacheOverflow);
        }
        let dqkv = self.config.head_dim();
        proof {
            lemma_kv_width_bounded(self.config);
        }
        Ok(
            ForwardPlan {
                seq_len,
                past_len,
                total_seq_len: past_len + seq_len,
                n_groups: self.config.n_groups(),
                n_kv_heads: self.config.num_key_value_heads,
                n_q_heads: self.config.num_attention_heads,
                head_dim: dqkv,
                hidden_size: self.config.hidden_size,
                intermediate_size: self.config.intermediate_size,
                vocab_size: self.config.vocab_size,
                kv_width: self.config.num_key_value_heads * dqkv,
            },
        )
    }
}

/// In a valid configuration the query heads exactly tile the hidden
/// size: `n_q_heads * head_dim == hidden_size`.
pub proof fn lemma_head_split(cfg: ModelConfig)
    requires
        cfg.valid(),
    ensures
        cfg.num_attention_heads as int * cfg.spec_head_dim() == cfg.hidden_size as int,
{
    lemma_fundamental_div_mod(cfg.hidden_size as int, cfg.num_attention_heads as int);
}

/// In a valid configuration a cache row is no wider than a hidden row:
/// `n_kv_heads * head_dim <= hidden_size`, so the product fits.
pub proof fn lemma_kv_width_bounded(cfg: ModelConfig)
    requires
        cfg.valid(),
    ensures
        cfg.num_key_value_heads as int * cfg.spec_head_dim() <= cfg.hidden_size as int,
        cfg.num_key_value_heads as int * cfg.spec_head_dim() >= 0,
{
    lemma_head_split(cfg);
    let q = cfg.num_attention_heads as int;
    let kv = cfg.num_key_value_heads as int;
    let hd = cfg.spec_head_dim();
    if kv > q {
        lemma_small_mod(q as nat, kv as nat);
        assert(false);
    }
    assert(kv * hd <= q * hd) by (nonlinear_arith)
        requires
            0 < kv <= q,
            0 <= hd,
    ;
    assert(kv * hd >= 0) by (nonlinear_arith)
        requires
            0 < kv,
            0 <= hd,
    ;
}

} // verus!
