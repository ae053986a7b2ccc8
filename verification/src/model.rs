use vstd::prelude::*;
use crate::LlamaError;
use crate::config::Config;
use crate::params::LLamaParams;
use crate::tensor::Tensor;

verus! {

/// Whether a tensor's shape is the given one-dimensional shape.
pub fn has_shape1<T>(t: &Tensor<T>, d0: usize) -> (r: bool)
    ensures
        r == (t.shape_spec() == seq![d0]),
{
    let s = t.shape();
    if s.len() == 1 && s[0] == d0 {
        proof {
            assert(t.shape_spec() =~= seq![d0]);
        }
        true
    } else {
        false
    }
}

/// Whether a tensor's shape is the given two-dimensional shape.
pub fn has_shape2<T>(t: &Tensor<T>, d0: usize, d1: usize) -> (r: bool)
    ensures
        r == (t.shape_spec() == seq![d0, d1]),
{
    let s = t.shape();
    if s.len() == 2 && s[0] == d0 && s[1] == d1 {
        proof {
            assert(t.shape_spec() =~= seq![d0, d1]);
        }
        true
    } else {
        false
    }
}

/// Whether layer `l` of the parameter set carries the shapes the
/// configuration calls for: normalization weights over the hidden size,
/// query and output projections between hidden and hidden (the query heads
/// together span the hidden size), key and value projections from hidden to
/// the key/value width, and the feed-forward projections between hidden and
/// intermediate size.
pub open spec fn layer_shapes_ok<T>(p: LLamaParams<T>, c: Config, l: int) -> bool {
    &&& p.rms_att_w@[l].shape_spec() == seq![c.hidden_size]
    &&& p.wq@[l].shape_spec() == seq![c.hidden_size, c.hidden_size]
    &&& p.wk@[l].shape_spec() == seq![c.kv_dim_spec() as usize, c.hidden_size]
    &&& p.wv@[l].shape_spec() == seq![c.kv_dim_spec() as usize, c.hidden_size]
    &&& p.wo@[l].shape_spec() == seq![c.hidden_size, c.hidden_size]
    &&& p.rms_ffn_w@[l].shape_spec() == seq![c.hidden_size]
    &&& p.w_up@[l].shape_spec() == seq![c.intermediate_size, c.hidden_size]
    &&& p.w_gate@[l].shape_spec() == seq![c.intermediate_size, c.hidden_size]
    &&& p.w_down@[l].shape_spec() == seq![c.hidden_size, c.intermediate_size]
}

/// Whether the whole parameter set carries the shapes the configuration
/// calls for: one tensor of each per-layer kind for every layer, embedding
/// table and head over the vocabulary, and the final normalization weight
/// over the hidden size.
pub open spec fn shapes_ok<T>(p: LLamaParams<T>, c: Config) -> bool {
    &&& p.embedding_table.shape_spec() == seq![c.vocab_size, c.hidden_size]
    &&& p.lm_head.shape_spec() == seq![c.vocab_size, c.hidden_size]
    &&& p.rms_out_w.shape_spec() == seq![c.hidden_size]
    &&& p.rms_att_w@.len() == c.num_layers
    &&& p.wq@.len() == c.num_layers
    &&& p.wk@.len() == c.num_layers
    &&& p.wv@.len() == c.num_layers
    &&& p.wo@.len() == c.num_layers
    &&& p.rms_ffn_w@.len() == c.num_layers
    &&& p.w_up@.len() == c.num_layers
    &&& p.w_gate@.len() == c.num_layers
    &&& p.w_down@.len() == c.num_layers
    &&& forall|l: int| 0 <= l < c.num_layers ==> #[trigger] layer_shapes_ok(p, c, l)
}

/// Decides whether the parameter set matches the configuration's layout.
pub fn check_shapes<T>(p: &LLamaParams<T>, c: &Config) -> (r: bool)
    requires
        c.wf(),
    ensures
        r == shapes_ok(*p, *c),
{
    let n_layers: usize = c.num_layers;
    let kvd: usize = c.kv_dim();
    if !(has_shape2(&p.embedding_table, c.vocab_size, c.hidden_size)
        && has_shape2(&p.lm_head, c.vocab_size, c.hidden_size)
        && has_shape1(&p.rms_out_w, c.hidden_size)) {
        return false;
    }
    if !(p.rms_att_w.len() == n_layers
        && p.wq.len() == n_layers
        && p.wk.len() == n_layers
        && p.wv.len() == n_layers
        && p.wo.len() == n_layers
        && p.rms_ffn_w.len() == n_layers
        && p.w_up.len() == n_layers
        && p.w_gate.len() == n_layers
        && p.w_down.len() == n_layers) {
        return false;
    }
    let mut l: usize = 0;
    while l < n_layers
        invariant
            0 <= l <= n_layers,
            c.wf(),
            n_layers == c.num_layers,
            kvd == c.kv_dim_spec(),
            p.rms_att_w@.len() == n_layers,
            p.wq@.len() == n_layers,
            p.wk@.len() == n_layers,
            p.wv@.len() == n_layers,
            p.wo@.len() == n_layers,
            p.rms_ffn_w@.len() == n_layers,
            p.w_up@.len() == n_layers,
            p.w_gate@.len() == n_layers,
            p.w_down@.len() == n_layers,
            forall|i: int| 0 <= i < l ==> #[trigger] layer_shapes_ok(*p, *c, i),
        decreases n_layers - l,
    {
        let ok = has_shape1(&p.rms_att_w[l], c.hidden_size)
            && has_shape2(&p.wq[l], c.hidden_size, c.hidden_size)
            && has_shape2(&p.wk[l], kvd, c.hidden_size)
            && has_shape2(&p.wv[l], kvd, c.hidden_size)
            && has_shape2(&p.wo[l], c.hidden_size, c.hidden_size)
            && has_shape1(&p.rms_ffn_w[l], c.hidden_size)
            && has_shape2(&p.w_up[l], c.intermediate_size, c.hidden_size)
            && has_shape2(&p.w_gate[l], c.intermediate_size, c.hidden_size)
            && has_shape2(&p.w_down[l], c.hidden_size, c.intermediate_size);
        if !ok {
            proof {
                assert(!layer_shapes_ok(*p, *c, l as int));
            }
            return false;
        }
        l = l + 1;
    }
    true
}

/// The causal boundary of one query row in masked softmax: over a score
/// block whose trailing dimensions are `(seq_len, total_seq_len)`, query
/// row `i` attends to key positions `[0, b)` and the entries at `[b,
/// total_seq_len)` are zeroed. The last query row attends to every key;
/// earlier rows attend to one fewer each.
pub fn causal_boundary(total_seq_len: usize, seq_len: usize, i: usize) -> (b: usize)
    requires
        seq_len <= total_seq_len,
        i < seq_len,
    ensures
        b == total_seq_len - seq_len + i + 1,
        1 <= b <= total_seq_len,
        i + 1 == seq_len ==> b == total_seq_len,
{
    total_seq_len - seq_len + i + 1
}

/// The transformer: a configuration and the parameter set bound to it.
/// The floating-point forward pass and sampling live with the caller; this
/// type guarantees the structural invariants they rely on.
pub struct Llama<T> {
    pub config: Config,
    pub params: LLamaParams<T>,
}

impl<T> Llama<T> {
    /// A model whose configuration is usable and whose parameters carry
    /// exactly the shapes the configuration calls for.
    pub open spec fn wf(&self) -> bool {
        &&& self.config.wf()
        &&& shapes_ok(self.params, self.config)
    }

    /// Binds parameters to a configuration, refusing mismatched shapes.
    pub fn new(config: Config, params: LLamaParams<T>) -> (r: Result<Llama<T>, LlamaError>)
        ensures
            config.wf() && shapes_ok(params, config) ==> {
                &&& r is Ok
                &&& r->Ok_0.config == config
                &&& r->Ok_0.params == params
                &&& r->Ok_0.wf()
            },
            !(config.wf() && shapes_ok(params, config))
                ==> r == Err::<Llama<T>, LlamaError>(LlamaError::ShapeMismatch),
    {
        if !config.validate() {
            return Err(LlamaError::ShapeMismatch);
        }
        if !check_shapes(&params, &config) {
            return Err(LlamaError::ShapeMismatch);
        }
        Ok(Llama { config, params })
    }
}

/// The decisions of the generate loop: which positions the next forward
/// pass covers, and when to stop. The caller performs the numeric forward
/// pass and sampling and reports each sampled token back.
pub struct GenState {
    pub eos: u32,
    pub max_new: usize,
    pub prompt_len: usize,
    pub produced: Vec<u32>,
}

impl GenState {
    /// A fresh generation over a nonempty prompt, asked for at least one
    /// new token.
    pub fn new(prompt_len: usize, max_new: usize, eos: u32) -> (s: GenState)
        requires
            prompt_len >= 1,
            max_new >= 1,
        ensures
            s.eos == eos,
            s.max_new == max_new,
            s.prompt_len == prompt_len,
            s.produced@ == Seq::<u32>::empty(),
    {
        GenState { eos, max_new, prompt_len, produced: Vec::new() }
    }

    /// The span the next forward pass covers: the whole prompt from
    /// position zero before anything was sampled (prefill), afterwards one
    /// token starting where the last forward ended (decode).
    pub fn plan_step(&self) -> (r: (usize, usize))
        requires
            self.prompt_len >= 1,
            self.prompt_len + self.produced@.len() <= usize::MAX,
        ensures
            self.produced@.len() == 0 ==> r == (0usize, self.prompt_len),
            self.produced@.len() >= 1 ==> {
                &&& r.0 == self.prompt_len + self.produced@.len() - 1
                &&& r.1 == 1usize
            },
            r.0 + r.1 == self.prompt_len + self.produced@.len(),
    {
        if self.produced.len() == 0 {
            (0, self.prompt_len)
        } else {
            (self.prompt_len + self.produced.len() - 1, 1)
        }
    }

    /// Records one sampled token and says whether generation stops: at the
    /// end-of-sequence token, or once as many tokens as asked for exist.
    pub fn push_token(&mut self, tok: u32) -> (stop: bool)
        requires
            old(self).produced@.len() < old(self).max_new,
        ensures
            final(self).produced@ == old(self).produced@.push(tok),
            final(self).eos == old(self).eos,
            final(self).max_new == old(self).max_new,
            final(self).prompt_len == old(self).prompt_len,
            stop == (tok == old(self).eos
                || old(self).produced@.len() + 1 == old(self).max_new),
    {
        self.produced.push(tok);
        tok == self.eos || self.produced.len() == self.max_new
    }

    /// The tokens sampled so far, prompt excluded.
    pub fn output(self) -> (r: Vec<u32>)
        ensures
            r@ == self.produced@,
    {
        self.produced
    }
}

} // verus!
