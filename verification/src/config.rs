use vstd::prelude::*;
use crate::LlamaError;

verus! {

/// Element type of the stored weights. Activations are always
/// single-precision; weights may be brain-float halves that are widened at
/// the use site.
#[derive(Clone, Copy, Debug, PartialEq, Eq, Structural)]
pub enum DType {
    F32,
    BF16,
}

/// The integer hyperparameters of a model. The two floating-point ones (the
/// RMS-normalization epsilon and the rotary base) belong to the numeric
/// layer outside this crate's scope and are carried alongside by the caller.
#[derive(Clone, Copy, Debug)]
pub struct Config {
    pub vocab_size: usize,
    pub hidden_size: usize,
    pub intermediate_size: usize,
    pub num_layers: usize,
    pub num_q_heads: usize,
    pub num_kv_heads: usize,
    pub max_seq_len: usize,
    pub eos_token_id: u32,
    pub tie_word_embeddings: bool,
    pub dtype: DType,
}

impl Config {
    /// A usable configuration: positive sizes, grouped-query attention
    /// (query heads a multiple of key/value heads), a hidden size that
    /// splits evenly into query heads, and an even head size (rotary
    /// embedding rotates feature pairs).
    pub open spec fn wf(&self) -> bool {
        &&& self.vocab_size >= 1
        &&& self.hidden_size >= 1
        &&& self.intermediate_size >= 1
        &&& self.num_layers >= 1
        &&& self.num_q_heads >= 1
        &&& self.num_kv_heads >= 1
        &&& self.max_seq_len >= 1
        &&& self.num_q_heads % self.num_kv_heads == 0
        &&& self.hidden_size % self.num_q_heads == 0
        &&& (self.hidden_size / self.num_q_heads) % 2 == 0
    }

    /// Decides well-formedness.
    pub fn validate(&self) -> (r: bool)
        ensures
            r == self.wf(),
    {
        self.vocab_size >= 1
            && self.hidden_size >= 1
            && self.intermediate_size >= 1
            && self.num_layers >= 1
            && self.num_q_heads >= 1
            && self.num_kv_heads >= 1
            && self.max_seq_len >= 1
            && self.num_q_heads % self.num_kv_heads == 0
            && self.hidden_size % self.num_q_heads == 0
            && (self.hidden_size / self.num_q_heads) % 2 == 0
    }

    /// Features per attention head, as a mathematical value.
    pub open spec fn head_size_spec(&self) -> int {
        self.hidden_size as int / self.num_q_heads as int
    }

    /// Width of a key or value projection row, as a mathematical value.
    pub open spec fn kv_dim_spec(&self) -> int {
        self.num_kv_heads * self.head_size_spec()
    }

    /// Features per attention head.
    pub fn head_size(&self) -> (r: usize)
        requires
            self.wf(),
        ensures
            r == self.head_size_spec(),
    {
        self.hidden_size / self.num_q_heads
    }

    /// Width of a query projection row: exactly the hidden size.
    pub fn q_dim(&self) -> (r: usize)
        requires
            self.wf(),
        ensures
            r == self.hidden_size,
            r == self.num_q_heads * (self.hidden_size as int / self.num_q_heads as int),
    {
        let head: usize = self.hidden_size / self.num_q_heads;
        proof {
            vstd::arithmetic::div_mod::lemma_fundamental_div_mod(
                self.hidden_size as int, self.num_q_heads as int);
        }
        self.num_q_heads * head
    }

    /// Width of a key or value projection row, and of one cache row.
    pub fn kv_dim(&self) -> (r: usize)
        requires
            self.wf(),
        ensures
            r == self.kv_dim_spec(),
            r <= self.hidden_size,
    {
        let head: usize = self.hidden_size / self.num_q_heads;
        proof {
            vstd::arithmetic::div_mod::lemma_fundamental_div_mod(
                self.hidden_size as int, self.num_q_heads as int);
            vstd::arithmetic::div_mod::lemma_fundamental_div_mod(
                self.num_q_heads as int, self.num_kv_heads as int);
            let q = self.num_q_heads as int;
            let kv = self.num_kv_heads as int;
            assert(q == kv * (q / kv));
            assert(kv <= q) by (nonlinear_arith)
                requires
                    q == kv * (q / kv),
                    q >= 1,
                    kv >= 1,
            ;
            vstd::arithmetic::mul::lemma_mul_inequality(kv, q, head as int);
        }
        self.num_kv_heads * head
    }

    /// Query heads served by each key/value head.
    pub fn group_size(&self) -> (r: usize)
        requires
            self.wf(),
        ensures
            r == self.num_q_heads as int / self.num_kv_heads as int,
            r >= 1,
    {
        proof {
            vstd::arithmetic::div_mod::lemma_fundamental_div_mod(
                self.num_q_heads as int, self.num_kv_heads as int);
            let q = self.num_q_heads as int;
            let kv = self.num_kv_heads as int;
            assert(q / kv >= 1) by (nonlinear_arith)
                requires
                    q == kv * (q / kv),
                    q >= 1,
                    kv >= 1,
            ;
        }
        self.num_q_heads / self.num_kv_heads
    }
}

/// Reads a configuration's element-type tag: `"float32"` or `"bfloat16"`;
/// anything else is refused.
pub fn parse_dtype(tag: &str) -> (r: Result<DType, LlamaError>)
    ensures
        tag@ == "float32"@ ==> r == Ok::<DType, LlamaError>(DType::F32),
        tag@ == "bfloat16"@ ==> r == Ok::<DType, LlamaError>(DType::BF16),
        tag@ != "float32"@ && tag@ != "bfloat16"@
            ==> r == Err::<DType, LlamaError>(LlamaError::UnsupportedDtype),
{
    proof {
        reveal_strlit("float32");
        reveal_strlit("bfloat16");
        assert("float32"@.len() != "bfloat16"@.len());
    }
    let t = String::from_str(tag);
    if t == String::from_str("float32") {
        Ok(DType::F32)
    } else if t == String::from_str("bfloat16") {
        Ok(DType::BF16)
    } else {
        Err(LlamaError::UnsupportedDtype)
    }
}

} // verus!
