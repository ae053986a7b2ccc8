use vstd::prelude::*;
use crate::{shape_product, try_product, LlamaError};
use crate::tensor::Tensor;
use crate::config::Config;
use safetensors::SafeTensors;

verus! {

// --- Little-endian decoding -------------------------------------------------

/// The 32-bit word stored little-endian at bytes `[4i, 4i + 4)`.
pub open spec fn le_word32(b: Seq<u8>, i: int) -> u32
    recommends
        0 <= i,
        4 * i + 4 <= b.len(),
{
    (b[4 * i] + b[4 * i + 1] * 0x100 + b[4 * i + 2] * 0x10000 + b[4 * i + 3] * 0x1000000) as u32
}

/// The 16-bit word stored little-endian at bytes `[2i, 2i + 2)`.
pub open spec fn le_word16(b: Seq<u8>, i: int) -> u16
    recommends
        0 <= i,
        2 * i + 2 <= b.len(),
{
    (b[2 * i] + b[2 * i + 1] * 0x100) as u16
}

/// A byte string read as consecutive little-endian 32-bit words.
pub open spec fn decoded32(b: Seq<u8>) -> Seq<u32> {
    Seq::new((b.len() / 4) as nat, |i: int| le_word32(b, i))
}

/// A byte string read as consecutive little-endian 16-bit words.
pub open spec fn decoded16(b: Seq<u8>) -> Seq<u16> {
    Seq::new((b.len() / 2) as nat, |i: int| le_word16(b, i))
}

/// Reads raw bytes as little-endian 32-bit words.
pub fn decode_le32(bytes: &Vec<u8>) -> (r: Vec<u32>)
    requires
        bytes@.len() % 4 == 0,
    ensures
        r@ == decoded32(bytes@),
{
    let blen: usize = bytes.len();
    let n: usize = blen / 4;
    proof {
        vstd::arithmetic::div_mod::lemma_fundamental_div_mod(blen as int, 4);
    }
    let mut r: Vec<u32> = Vec::new();
    let mut i: usize = 0;
    while i < n
        invariant
            0 <= i <= n,
            blen == bytes@.len(),
            n == blen / 4,
            4 * n == blen,
            bytes@.len() % 4 == 0,
            r@.len() == i,
            forall|j: int| 0 <= j < i ==> r@[j] == le_word32(bytes@, j),
        decreases n - i,
    {
        let w: u32 = (bytes[4 * i] as u32)
            + (bytes[4 * i + 1] as u32) * 0x100
            + (bytes[4 * i + 2] as u32) * 0x10000
            + (bytes[4 * i + 3] as u32) * 0x1000000;
        r.push(w);
        i = i + 1;
    }
    proof {
        assert(r@ =~= decoded32(bytes@));
    }
    r
}

/// Reads raw bytes as little-endian 16-bit words.
pub fn decode_le16(bytes: &Vec<u8>) -> (r: Vec<u16>)
    requires
        bytes@.len() % 2 == 0,
    ensures
        r@ == decoded16(bytes@),
{
    let blen: usize = bytes.len();
    let n: usize = blen / 2;
    proof {
        vstd::arithmetic::div_mod::lemma_fundamental_div_mod(blen as int, 2);
    }
    let mut r: Vec<u16> = Vec::new();
    let mut i: usize = 0;
    while i < n
        invariant
            0 <= i <= n,
            blen == bytes@.len(),
            n == blen / 2,
            2 * n == blen,
            bytes@.len() % 2 == 0,
            r@.len() == i,
            forall|j: int| 0 <= j < i ==> r@[j] == le_word16(bytes@, j),
        decreases n - i,
    {
        let w: u16 = (bytes[2 * i] as u16) + (bytes[2 * i + 1] as u16) * 0x100;
        r.push(w);
        i = i + 1;
    }
    proof {
        assert(r@ =~= decoded16(bytes@));
    }
    r
}

// --- Parameter names --------------------------------------------------------

/// The character of one decimal digit.
pub open spec fn digit_char(d: nat) -> char {
    if d == 0 { '0' }
    else if d == 1 { '1' }
    else if d == 2 { '2' }
    else if d == 3 { '3' }
    else if d == 4 { '4' }
    else if d == 5 { '5' }
    else if d == 6 { '6' }
    else if d == 7 { '7' }
    else if d == 8 { '8' }
    else { '9' }
}

/// The usual decimal notation of a number, most significant digit first, no
/// leading zeros.
pub open spec fn spec_decimal(n: nat) -> Seq<char>
    decreases n,
{
    if n < 10 {
        seq![digit_char(n)]
    } else {
        spec_decimal(n / 10).push(digit_char(n % 10))
    }
}

/// One decimal digit as text.
fn digit_str(d: usize) -> (s: &'static str)
    requires
        d < 10,
    ensures
        s@ == seq![digit_char(d as nat)],
{
    proof {
        reveal_strlit("0");
        reveal_strlit("1");
        reveal_strlit("2");
        reveal_strlit("3");
        reveal_strlit("4");
        reveal_strlit("5");
        reveal_strlit("6");
        reveal_strlit("7");
        reveal_strlit("8");
        reveal_strlit("9");
        assert("0"@ =~= seq!['0']);
        assert("1"@ =~= seq!['1']);
        assert("2"@ =~= seq!['2']);
        assert("3"@ =~= seq!['3']);
        assert("4"@ =~= seq!['4']);
        assert("5"@ =~= seq!['5']);
        assert("6"@ =~= seq!['6']);
        assert("7"@ =~= seq!['7']);
        assert("8"@ =~= seq!['8']);
        assert("9"@ =~= seq!['9']);
    }
    match d {
        0 => "0",
        1 => "1",
        2 => "2",
        3 => "3",
        4 => "4",
        5 => "5",
        6 => "6",
        7 => "7",
        8 => "8",
        _ => "9",
    }
}

/// Writes a number in decimal.
pub fn usize_to_string(n: usize) -> (s: String)
    ensures
        s@ == spec_decimal(n as nat),
    decreases n,
{
    if n < 10 {
        String::from_str(digit_str(n))
    } else {
        let mut s = usize_to_string(n / 10);
        s.append(digit_str(n % 10));
        proof {
            assert(s@ =~= spec_decimal((n / 10) as nat).push(digit_char((n % 10) as nat)));
        }
        s
    }
}

/// The archive name of one per-layer parameter: the layer template filled
/// with the layer number and the parameter's suffix.
pub open spec fn layer_name(l: nat, sub: Seq<char>) -> Seq<char> {
    "model.layers."@ + spec_decimal(l) + "."@ + sub
}

/// Builds the archive name of one per-layer parameter.
pub fn layer_param_name(l: usize, sub: &str) -> (s: String)
    ensures
        s@ == layer_name(l as nat, sub@),
{
    let mut s = String::from_str("model.layers.");
    let num = usize_to_string(l);
    s.append(num.as_str());
    s.append(".");
    s.append(sub);
    proof {
        assert(s@ =~= layer_name(l as nat, sub@));
    }
    s
}

// --- The archive ------------------------------------------------------------

/// What a tensor archive holds under a name: the declared shape and the raw
/// bytes, or nothing. This is a pure function of the archive bytes and the
/// name; no contract of this crate says what it is on given values.
pub uninterp spec fn archive_lookup(data: Seq<u8>, name: Seq<char>) -> Option<(Seq<usize>, Seq<u8>)>;

/// Relies on `safetensors::SafeTensors::deserialize` to parse the archive
/// and on `SafeTensors::tensor` to look the name up; both are deterministic
/// in the buffer and the name, so together they compute `archive_lookup`.
/// Returns the declared shape and the raw little-endian bytes of the named
/// tensor, or `None` when the archive does not parse or lacks the name.
#[verifier::external_body]
fn lookup_tensor(data: &Vec<u8>, name: &str) -> (r: Option<(Vec<usize>, Vec<u8>)>)
    ensures
        match r {
            Some(p) => archive_lookup(data@, name@) == Some((p.0@, p.1@)),
            None => archive_lookup(data@, name@) is None,
        },
{
    let st = match SafeTensors::deserialize(data.as_slice()) {
        Ok(st) => st,
        Err(_) => {
            return None;
        },
    };
    match st.tensor(name) {
        Ok(view) => Some((view.shape().to_vec(), view.data().to_vec())),
        Err(_) => None,
    }
}

/// Whether the archive holds the named tensor with as many bytes as four
/// per element of its declared shape.
pub open spec fn entry_ok32(a: Seq<u8>, nm: Seq<char>) -> bool {
    match archive_lookup(a, nm) {
        Some(p) => p.1.len() == 4 * shape_product(p.0),
        None => false,
    }
}

/// Whether the archive holds the named tensor with as many bytes as two
/// per element of its declared shape.
pub open spec fn entry_ok16(a: Seq<u8>, nm: Seq<char>) -> bool {
    match archive_lookup(a, nm) {
        Some(p) => p.1.len() == 2 * shape_product(p.0),
        None => false,
    }
}

/// Whether tensor `t` is the named archive entry, bytes read as
/// little-endian 32-bit words under the declared shape.
pub open spec fn tensor_is32(t: Tensor<u32>, a: Seq<u8>, nm: Seq<char>) -> bool {
    match archive_lookup(a, nm) {
        Some(p) => t.wf() && t.shape_spec() == p.0 && t@ == decoded32(p.1),
        None => false,
    }
}

/// Whether tensor `t` is the named archive entry, bytes read as
/// little-endian 16-bit words under the declared shape.
pub open spec fn tensor_is16(t: Tensor<u16>, a: Seq<u8>, nm: Seq<char>) -> bool {
    match archive_lookup(a, nm) {
        Some(p) => t.wf() && t.shape_spec() == p.0 && t@ == decoded16(p.1),
        None => false,
    }
}

/// Fetches one named tensor of 32-bit elements from the archive: missing
/// names are `MissingParameter`, byte counts that disagree with the
/// declared shape are `MalformedTensor`.
pub fn get_tensor32(archive: &Vec<u8>, name: &str) -> (r: Result<Tensor<u32>, LlamaError>)
    ensures
        match archive_lookup(archive@, name@) {
            None => r == Err::<Tensor<u32>, LlamaError>(LlamaError::MissingParameter),
            Some(p) => {
                if p.1.len() == 4 * shape_product(p.0) {
                    &&& r is Ok
                    &&& tensor_is32(r->Ok_0, archive@, name@)
                } else {
                    r == Err::<Tensor<u32>, LlamaError>(LlamaError::MalformedTensor)
                }
            },
        },
        r is Ok ==> entry_ok32(archive@, name@),
        r is Err ==> !entry_ok32(archive@, name@),
{
    let looked = lookup_tensor(archive, name);
    match looked {
        None => Err(LlamaError::MissingParameter),
        Some((shape, bytes)) => {
            let blen: usize = bytes.len();
            let prod = try_product(&shape);
            match prod {
                None => {
                    proof {
                        assert(blen == bytes@.len());
                        assert(4 * shape_product(shape@) > usize::MAX);
                    }
                    Err(LlamaError::MalformedTensor)
                },
                Some(count) => {
                    let total = count.checked_mul(4);
                    match total {
                        None => Err(LlamaError::MalformedTensor),
                        Some(total) => {
                            if blen != total {
                                Err(LlamaError::MalformedTensor)
                            } else {
                                let words = decode_le32(&bytes);
                                proof {
                                    assert(words@.len() == shape_product(shape@));
                                }
                                Ok(Tensor::new(words, shape))
                            }
                        },
                    }
                },
            }
        },
    }
}

/// Fetches one named tensor of 16-bit elements from the archive, as
/// `get_tensor32` does for 32-bit elements.
pub fn get_tensor16(archive: &Vec<u8>, name: &str) -> (r: Result<Tensor<u16>, LlamaError>)
    ensures
        match archive_lookup(archive@, name@) {
            None => r == Err::<Tensor<u16>, LlamaError>(LlamaError::MissingParameter),
            Some(p) => {
                if p.1.len() == 2 * shape_product(p.0) {
                    &&& r is Ok
                    &&& tensor_is16(r->Ok_0, archive@, name@)
                } else {
                    r == Err::<Tensor<u16>, LlamaError>(LlamaError::MalformedTensor)
                }
            },
        },
        r is Ok ==> entry_ok16(archive@, name@),
        r is Err ==> !entry_ok16(archive@, name@),
{
    let looked = lookup_tensor(archive, name);
    match looked {
        None => Err(LlamaError::MissingParameter),
        Some((shape, bytes)) => {
            let blen: usize = bytes.len();
            let prod = try_product(&shape);
            match prod {
                None => {
                    proof {
                        assert(blen == bytes@.len());
                        assert(2 * shape_product(shape@) > usize::MAX);
                    }
                    Err(LlamaError::MalformedTensor)
                },
                Some(count) => {
                    let total = count.checked_mul(2);
                    match total {
                        None => Err(LlamaError::MalformedTensor),
                        Some(total) => {
                            if blen != total {
                                Err(LlamaError::MalformedTensor)
                            } else {
                                let words = decode_le16(&bytes);
                                proof {
                                    assert(words@.len() == shape_product(shape@));
                                }
                                Ok(Tensor::new(words, shape))
                            }
                        },
                    }
                },
            }
        },
    }
}

// --- The parameter set ------------------------------------------------------

/// The immutable weight tensors of the model, element type `T`. Activations
/// outside this crate are always single-precision; `T` is `u32` for weights
/// stored as single-precision bit patterns and `u16` for brain-float bit
/// patterns, decoded little-endian from the archive.
pub struct LLamaParams<T> {
    pub embedding_table: Tensor<T>,
    pub rms_att_w: Vec<Tensor<T>>,
    pub wq: Vec<Tensor<T>>,
    pub wk: Vec<Tensor<T>>,
    pub wv: Vec<Tensor<T>>,
    pub wo: Vec<Tensor<T>>,
    pub rms_ffn_w: Vec<Tensor<T>>,
    pub w_up: Vec<Tensor<T>>,
    pub w_gate: Vec<Tensor<T>>,
    pub w_down: Vec<Tensor<T>>,
    pub rms_out_w: Tensor<T>,
    pub lm_head: Tensor<T>,
}

/// Whether the archive holds every parameter of layer `l`, well-sized.
pub open spec fn layer_ok32(a: Seq<u8>, l: nat) -> bool {
    &&& entry_ok32(a, layer_name(l, "input_layernorm.weight"@))
    &&& entry_ok32(a, layer_name(l, "self_attn.q_proj.weight"@))
    &&& entry_ok32(a, layer_name(l, "self_attn.k_proj.weight"@))
    &&& entry_ok32(a, layer_name(l, "self_attn.v_proj.weight"@))
    &&& entry_ok32(a, layer_name(l, "self_attn.o_proj.weight"@))
    &&& entry_ok32(a, layer_name(l, "post_attention_layernorm.weight"@))
    &&& entry_ok32(a, layer_name(l, "mlp.up_proj.weight"@))
    &&& entry_ok32(a, layer_name(l, "mlp.gate_proj.weight"@))
    &&& entry_ok32(a, layer_name(l, "mlp.down_proj.weight"@))
}

/// Whether the archive holds every parameter the configuration calls for,
/// each with as many bytes as its declared shape needs. Loading succeeds on
/// exactly these archives.
pub open spec fn params_ok32(a: Seq<u8>, c: Config) -> bool {
    &&& entry_ok32(a, "lm_head.weight"@)
    &&& (!c.tie_word_embeddings ==> entry_ok32(a, "model.embed_tokens.weight"@))
    &&& (forall|l: nat| l < c.num_layers ==> #[trigger] layer_ok32(a, l))
    &&& entry_ok32(a, "model.norm.weight"@)
}

/// Whether the parameter set is exactly what the archive holds: every
/// tensor decoded from its named entry, one per-layer tensor per kind per
/// layer, and — when the configuration ties the word embeddings — an
/// embedding table that is a view of the language-model head.
pub open spec fn loaded32(p: LLamaParams<u32>, a: Seq<u8>, c: Config) -> bool {
    &&& tensor_is32(p.lm_head, a, "lm_head.weight"@)
    &&& if c.tie_word_embeddings {
        p.embedding_table@ == p.lm_head@
            && p.embedding_table.shape_spec() == p.lm_head.shape_spec()
            && p.embedding_table.wf()
    } else {
        tensor_is32(p.embedding_table, a, "model.embed_tokens.weight"@)
    }
    &&& p.rms_att_w@.len() == c.num_layers
    &&& p.wq@.len() == c.num_layers
    &&& p.wk@.len() == c.num_layers
    &&& p.wv@.len() == c.num_layers
    &&& p.wo@.len() == c.num_layers
    &&& p.rms_ffn_w@.len() == c.num_layers
    &&& p.w_up@.len() == c.num_layers
    &&& p.w_gate@.len() == c.num_layers
    &&& p.w_down@.len() == c.num_layers
    &&& forall|l: int| 0 <= l < c.num_layers
        ==> tensor_is32(#[trigger] p.rms_att_w@[l], a, layer_name(l as nat, "input_layernorm.weight"@))
    &&& forall|l: int| 0 <= l < c.num_layers
        ==> tensor_is32(#[trigger] p.wq@[l], a, layer_name(l as nat, "self_attn.q_proj.weight"@))
    &&& forall|l: int| 0 <= l < c.num_layers
        ==> tensor_is32(#[trigger] p.wk@[l], a, layer_name(l as nat, "self_attn.k_proj.weight"@))
    &&& forall|l: int| 0 <= l < c.num_layers
        ==> tensor_is32(#[trigger] p.wv@[l], a, layer_name(l as nat, "self_attn.v_proj.weight"@))
    &&& forall|l: int| 0 <= l < c.num_layers
        ==> tensor_is32(#[trigger] p.wo@[l], a, layer_name(l as nat, "self_attn.o_proj.weight"@))
    &&& forall|l: int| 0 <= l < c.num_layers
        ==> tensor_is32(#[trigger] p.rms_ffn_w@[l], a, layer_name(l as nat, "post_attention_layernorm.weight"@))
    &&& forall|l: int| 0 <= l < c.num_layers
        ==> tensor_is32(#[trigger] p.w_up@[l], a, layer_name(l as nat, "mlp.up_proj.weight"@))
    &&& forall|l: int| 0 <= l < c.num_layers
        ==> tensor_is32(#[trigger] p.w_gate@[l], a, layer_name(l as nat, "mlp.gate_proj.weight"@))
    &&& forall|l: int| 0 <= l < c.num_layers
        ==> tensor_is32(#[trigger] p.w_down@[l], a, layer_name(l as nat, "mlp.down_proj.weight"@))
    &&& tensor_is32(p.rms_out_w, a, "model.norm.weight"@)
}


/// Whether the archive lacks some parameter of layer `l`.
pub open spec fn layer_missing32(a: Seq<u8>, l: nat) -> bool {
    ||| archive_lookup(a, layer_name(l, "input_layernorm.weight"@)) is None
    ||| archive_lookup(a, layer_name(l, "self_attn.q_proj.weight"@)) is None
    ||| archive_lookup(a, layer_name(l, "self_attn.k_proj.weight"@)) is None
    ||| archive_lookup(a, layer_name(l, "self_attn.v_proj.weight"@)) is None
    ||| archive_lookup(a, layer_name(l, "self_attn.o_proj.weight"@)) is None
    ||| archive_lookup(a, layer_name(l, "post_attention_layernorm.weight"@)) is None
    ||| archive_lookup(a, layer_name(l, "mlp.up_proj.weight"@)) is None
    ||| archive_lookup(a, layer_name(l, "mlp.gate_proj.weight"@)) is None
    ||| archive_lookup(a, layer_name(l, "mlp.down_proj.weight"@)) is None
}

/// Whether the named entry is present but its byte count disagrees with
/// its declared shape at 4 bytes per element.
pub open spec fn entry_bad32(a: Seq<u8>, nm: Seq<char>) -> bool {
    match archive_lookup(a, nm) {
        Some(p) => p.1.len() != 4 * shape_product(p.0),
        None => false,
    }
}

/// Whether some parameter of layer `l` is present but ill-sized.
pub open spec fn layer_bad32(a: Seq<u8>, l: nat) -> bool {
    ||| entry_bad32(a, layer_name(l, "input_layernorm.weight"@))
    ||| entry_bad32(a, layer_name(l, "self_attn.q_proj.weight"@))
    ||| entry_bad32(a, layer_name(l, "self_attn.k_proj.weight"@))
    ||| entry_bad32(a, layer_name(l, "self_attn.v_proj.weight"@))
    ||| entry_bad32(a, layer_name(l, "self_attn.o_proj.weight"@))
    ||| entry_bad32(a, layer_name(l, "post_attention_layernorm.weight"@))
    ||| entry_bad32(a, layer_name(l, "mlp.up_proj.weight"@))
    ||| entry_bad32(a, layer_name(l, "mlp.gate_proj.weight"@))
    ||| entry_bad32(a, layer_name(l, "mlp.down_proj.weight"@))
}

/// Whether some required parameter is absent from the archive.
pub open spec fn some_missing32(a: Seq<u8>, c: Config) -> bool {
    ||| archive_lookup(a, "lm_head.weight"@) is None
    ||| (!c.tie_word_embeddings && archive_lookup(a, "model.embed_tokens.weight"@) is None)
    ||| (exists|l: nat| l < c.num_layers && #[trigger] layer_missing32(a, l))
    ||| archive_lookup(a, "model.norm.weight"@) is None
}

/// Whether some required parameter is present but ill-sized.
pub open spec fn some_bad32(a: Seq<u8>, c: Config) -> bool {
    ||| entry_bad32(a, "lm_head.weight"@)
    ||| (!c.tie_word_embeddings && entry_bad32(a, "model.embed_tokens.weight"@))
    ||| (exists|l: nat| l < c.num_layers && #[trigger] layer_bad32(a, l))
    ||| entry_bad32(a, "model.norm.weight"@)
}

impl LLamaParams<u32> {
    /// Binds a serialized tensor archive to the parameter layout, reading
    /// each weight as little-endian 32-bit words. Succeeds exactly when the
    /// archive holds every required name with bytes matching its declared
    /// shape; then every tensor is the decoded entry, and tied word
    /// embeddings share the head's storage.
    pub fn from_safetensors(archive: &Vec<u8>, config: &Config) -> (r: Result<Self, LlamaError>)
        ensures
            r is Ok <==> params_ok32(archive@, *config),
            r is Ok ==> loaded32(r->Ok_0, archive@, *config),
            r is Err ==> (r->Err_0 == LlamaError::MissingParameter
                || r->Err_0 == LlamaError::MalformedTensor),
            r == Err::<Self, LlamaError>(LlamaError::MissingParameter)
                ==> some_missing32(archive@, *config),
            r == Err::<Self, LlamaError>(LlamaError::MalformedTensor)
                ==> some_bad32(archive@, *config),
    {
        let n_layers: usize = config.num_layers;
        let lm_head = match get_tensor32(archive, "lm_head.weight") {
            Ok(t) => t,
            Err(e) => {
                return Err(e);
            },
        };
        let embedding_table = if config.tie_word_embeddings {
            lm_head.share()
        } else {
            match get_tensor32(archive, "model.embed_tokens.weight") {
                Ok(t) => t,
                Err(e) => {
                    return Err(e);
                },
            }
        };
        let mut rms_att_w: Vec<Tensor<u32>> = Vec::new();
        let mut l: usize = 0;
        while l < n_layers
            invariant
                0 <= l <= n_layers,
                n_layers == config.num_layers,
                rms_att_w@.len() == l,
                forall|i: int| 0 <= i < l ==> tensor_is32(
                    #[trigger] rms_att_w@[i], archive@, layer_name(i as nat, "input_layernorm.weight"@)),
                forall|i: nat| i < l ==> #[trigger] entry_ok32(
                    archive@, layer_name(i, "input_layernorm.weight"@)),
            decreases n_layers - l,
        {
            let name = layer_param_name(l, "input_layernorm.weight");
            match get_tensor32(archive, name.as_str()) {
                Ok(t) => rms_att_w.push(t),
                Err(e) => {
                    proof {
                        assert(!layer_ok32(archive@, l as nat));
                        if e == LlamaError::MissingParameter {
                            assert(layer_missing32(archive@, l as nat));
                        } else {
                            assert(layer_bad32(archive@, l as nat));
                        }
                    }
                    return Err(e);
                },
            }
            l = l + 1;
        }
        let mut wq: Vec<Tensor<u32>> = Vec::new();
        let mut l: usize = 0;
        while l < n_layers
            invariant
                0 <= l <= n_layers,
                n_layers == config.num_layers,
                wq@.len() == l,
                forall|i: int| 0 <= i < l ==> tensor_is32(
                    #[trigger] wq@[i], archive@, layer_name(i as nat, "self_attn.q_proj.weight"@)),
                forall|i: nat| i < l ==> #[trigger] entry_ok32(
                    archive@, layer_name(i, "self_attn.q_proj.weight"@)),
            decreases n_layers - l,
        {
            let name = layer_param_name(l, "self_attn.q_proj.weight");
            match get_tensor32(archive, name.as_str()) {
                Ok(t) => wq.push(t),
                Err(e) => {
                    proof {
                        assert(!layer_ok32(archive@, l as nat));
                        if e == LlamaError::MissingParameter {
                            assert(layer_missing32(archive@, l as nat));
                        } else {
                            assert(layer_bad32(archive@, l as nat));
                        }
                    }
                    return Err(e);
                },
            }
            l = l + 1;
        }
        let mut wk: Vec<Tensor<u32>> = Vec::new();
        let mut l: usize = 0;
        while l < n_layers
            invariant
                0 <= l <= n_layers,
                n_layers == config.num_layers,
                wk@.len() == l,
                forall|i: int| 0 <= i < l ==> tensor_is32(
                    #[trigger] wk@[i], archive@, layer_name(i as nat, "self_attn.k_proj.weight"@)),
                forall|i: nat| i < l ==> #[trigger] entry_ok32(
                    archive@, layer_name(i, "self_attn.k_proj.weight"@)),
            decreases n_layers - l,
        {
            let name = layer_param_name(l, "self_attn.k_proj.weight");
            match get_tensor32(archive, name.as_str()) {
                Ok(t) => wk.push(t),
                Err(e) => {
                    proof {
                        assert(!layer_ok32(archive@, l as nat));
                        if e == LlamaError::MissingParameter {
                            assert(layer_missing32(archive@, l as nat));
                        } else {
                            assert(layer_bad32(archive@, l as nat));
                        }
                    }
                    return Err(e);
                },
            }
            l = l + 1;
        }
        let mut wv: Vec<Tensor<u32>> = Vec::new();
        let mut l: usize = 0;
        while l < n_layers
            invariant
                0 <= l <= n_layers,
                n_layers == config.num_layers,
                wv@.len() == l,
                forall|i: int| 0 <= i < l ==> tensor_is32(
                    #[trigger] wv@[i], archive@, layer_name(i as nat, "self_attn.v_proj.weight"@)),
                forall|i: nat| i < l ==> #[trigger] entry_ok32(
                    archive@, layer_name(i, "self_attn.v_proj.weight"@)),
            decreases n_layers - l,
        {
            let name = layer_param_name(l, "self_attn.v_proj.weight");
            match get_tensor32(archive, name.as_str()) {
                Ok(t) => wv.push(t),
                Err(e) => {
                    proof {
                        assert(!layer_ok32(archive@, l as nat));
                        if e == LlamaError::MissingParameter {
                            assert(layer_missing32(archive@, l as nat));
                        } else {
                            assert(layer_bad32(archive@, l as nat));
                        }
                    }
                    return Err(e);
                },
            }
            l = l + 1;
        }
        let mut wo: Vec<Tensor<u32>> = Vec::new();
        let mut l: usize = 0;
        while l < n_layers
            invariant
                0 <= l <= n_layers,
                n_layers == config.num_layers,
                wo@.len() == l,
                forall|i: int| 0 <= i < l ==> tensor_is32(
                    #[trigger] wo@[i], archive@, layer_name(i as nat, "self_attn.o_proj.weight"@)),
                forall|i: nat| i < l ==> #[trigger] entry_ok32(
                    archive@, layer_name(i, "self_attn.o_proj.weight"@)),
            decreases n_layers - l,
        {
            let name = layer_param_name(l, "self_attn.o_proj.weight");
            match get_tensor32(archive, name.as_str()) {
                Ok(t) => wo.push(t),
                Err(e) => {
                    proof {
                        assert(!layer_ok32(archive@, l as nat));
                        if e == LlamaError::MissingParameter {
                            assert(layer_missing32(archive@, l as nat));
                        } else {
                            assert(layer_bad32(archive@, l as nat));
                        }
                    }
                    return Err(e);
                },
            }
            l = l + 1;
        }
        let mut rms_ffn_w: Vec<Tensor<u32>> = Vec::new();
        let mut l: usize = 0;
        while l < n_layers
            invariant
                0 <= l <= n_layers,
                n_layers == config.num_layers,
                rms_ffn_w@.len() == l,
                forall|i: int| 0 <= i < l ==> tensor_is32(
                    #[trigger] rms_ffn_w@[i], archive@, layer_name(i as nat, "post_attention_layernorm.weight"@)),
                forall|i: nat| i < l ==> #[trigger] entry_ok32(
                    archive@, layer_name(i, "post_attention_layernorm.weight"@)),
            decreases n_layers - l,
        {
            let name = layer_param_name(l, "post_attention_layernorm.weight");
            match get_tensor32(archive, name.as_str()) {
                Ok(t) => rms_ffn_w.push(t),
                Err(e) => {
                    proof {
                        assert(!layer_ok32(archive@, l as nat));
                        if e == LlamaError::MissingParameter {
                            assert(layer_missing32(archive@, l as nat));
                        } else {
                            assert(layer_bad32(archive@, l as nat));
                        }
                    }
                    return Err(e);
                },
            }
            l = l + 1;
        }
        let mut w_up: Vec<Tensor<u32>> = Vec::new();
        let mut l: usize = 0;
        while l < n_layers
            invariant
                0 <= l <= n_layers,
                n_layers == config.num_layers,
                w_up@.len() == l,
                forall|i: int| 0 <= i < l ==> tensor_is32(
                    #[trigger] w_up@[i], archive@, layer_name(i as nat, "mlp.up_proj.weight"@)),
                forall|i: nat| i < l ==> #[trigger] entry_ok32(
                    archive@, layer_name(i, "mlp.up_proj.weight"@)),
            decreases n_layers - l,
        {
            let name = layer_param_name(l, "mlp.up_proj.weight");
            match get_tensor32(archive, name.as_str()) {
                Ok(t) => w_up.push(t),
                Err(e) => {
                    proof {
                        assert(!layer_ok32(archive@, l as nat));
                        if e == LlamaError::MissingParameter {
                            assert(layer_missing32(archive@, l as nat));
                        } else {
                            assert(layer_bad32(archive@, l as nat));
                        }
                    }
                    return Err(e);
                },
            }
            l = l + 1;
        }
        let mut w_gate: Vec<Tensor<u32>> = Vec::new();
        let mut l: usize = 0;
        while l < n_layers
            invariant
                0 <= l <= n_layers,
                n_layers == config.num_layers,
                w_gate@.len() == l,
                forall|i: int| 0 <= i < l ==> tensor_is32(
                    #[trigger] w_gate@[i], archive@, layer_name(i as nat, "mlp.gate_proj.weight"@)),
                forall|i: nat| i < l ==> #[trigger] entry_ok32(
                    archive@, layer_name(i, "mlp.gate_proj.weight"@)),
            decreases n_layers - l,
        {
            let name = layer_param_name(l, "mlp.gate_proj.weight");
            match get_tensor32(archive, name.as_str()) {
                Ok(t) => w_gate.push(t),
                Err(e) => {
                    proof {
                        assert(!layer_ok32(archive@, l as nat));
                        if e == LlamaError::MissingParameter {
                            assert(layer_missing32(archive@, l as nat));
                        } else {
                            assert(layer_bad32(archive@, l as nat));
                        }
                    }
                    return Err(e);
                },
            }
            l = l + 1;
        }
        let mut w_down: Vec<Tensor<u32>> = Vec::new();
        let mut l: usize = 0;
        while l < n_layers
            invariant
                0 <= l <= n_layers,
                n_layers == config.num_layers,
                w_down@.len() == l,
                forall|i: int| 0 <= i < l ==> tensor_is32(
                    #[trigger] w_down@[i], archive@, layer_name(i as nat, "mlp.down_proj.weight"@)),
                forall|i: nat| i < l ==> #[trigger] entry_ok32(
                    archive@, layer_name(i, "mlp.down_proj.weight"@)),
            decreases n_layers - l,
        {
            let name = layer_param_name(l, "mlp.down_proj.weight");
            match get_tensor32(archive, name.as_str()) {
                Ok(t) => w_down.push(t),
                Err(e) => {
                    proof {
                        assert(!layer_ok32(archive@, l as nat));
                        if e == LlamaError::MissingParameter {
                            assert(layer_missing32(archive@, l as nat));
                        } else {
                            assert(layer_bad32(archive@, l as nat));
                        }
                    }
                    return Err(e);
                },
            }
            l = l + 1;
        }
        proof {
            assert forall|i: nat| i < config.num_layers
                implies #[trigger] layer_ok32(archive@, i) by {
            }
        }
        let ok = Ok(LLamaParams {
            embedding_table,
            rms_att_w,
            wq,
            wk,
            wv,
            wo,
            rms_ffn_w,
            w_up,
            w_gate,
            w_down,
            rms_out_w: match get_tensor32(archive, "model.norm.weight") {
                Ok(t) => t,
                Err(e) => {
                    return Err(e);
                },
            },
            lm_head,
        });
        ok
    }
}

/// Whether the archive holds every parameter of layer `l`, well-sized.
pub open spec fn layer_ok16(a: Seq<u8>, l: nat) -> bool {
    &&& entry_ok16(a, layer_name(l, "input_layernorm.weight"@))
    &&& entry_ok16(a, layer_name(l, "self_attn.q_proj.weight"@))
    &&& entry_ok16(a, layer_name(l, "self_attn.k_proj.weight"@))
    &&& entry_ok16(a, layer_name(l, "self_attn.v_proj.weight"@))
    &&& entry_ok16(a, layer_name(l, "self_attn.o_proj.weight"@))
    &&& entry_ok16(a, layer_name(l, "post_attention_layernorm.weight"@))
    &&& entry_ok16(a, layer_name(l, "mlp.up_proj.weight"@))
    &&& entry_ok16(a, layer_name(l, "mlp.gate_proj.weight"@))
    &&& entry_ok16(a, layer_name(l, "mlp.down_proj.weight"@))
}

/// Whether the archive holds every parameter the configuration calls for,
/// each with as many bytes as its declared shape needs. Loading succeeds on
/// exactly these archives.
pub open spec fn params_ok16(a: Seq<u8>, c: Config) -> bool {
    &&& entry_ok16(a, "lm_head.weight"@)
    &&& (!c.tie_word_embeddings ==> entry_ok16(a, "model.embed_tokens.weight"@))
    &&& (forall|l: nat| l < c.num_layers ==> #[trigger] layer_ok16(a, l))
    &&& entry_ok16(a, "model.norm.weight"@)
}

/// Whether the parameter set is exactly what the archive holds: every
/// tensor decoded from its named entry, one per-layer tensor per kind per
/// layer, and — when the configuration ties the word embeddings — an
/// embedding table that is a view of the language-model head.
pub open spec fn loaded16(p: LLamaParams<u16>, a: Seq<u8>, c: Config) -> bool {
    &&& tensor_is16(p.lm_head, a, "lm_head.weight"@)
    &&& if c.tie_word_embeddings {
        p.embedding_table@ == p.lm_head@
            && p.embedding_table.shape_spec() == p.lm_head.shape_spec()
            && p.embedding_table.wf()
    } else {
        tensor_is16(p.embedding_table, a, "model.embed_tokens.weight"@)
    }
    &&& p.rms_att_w@.len() == c.num_layers
    &&& p.wq@.len() == c.num_layers
    &&& p.wk@.len() == c.num_layers
    &&& p.wv@.len() == c.num_layers
    &&& p.wo@.len() == c.num_layers
    &&& p.rms_ffn_w@.len() == c.num_layers
    &&& p.w_up@.len() == c.num_layers
    &&& p.w_gate@.len() == c.num_layers
    &&& p.w_down@.len() == c.num_layers
    &&& forall|l: int| 0 <= l < c.num_layers
        ==> tensor_is16(#[trigger] p.rms_att_w@[l], a, layer_name(l as nat, "input_layernorm.weight"@))
    &&& forall|l: int| 0 <= l < c.num_layers
        ==> tensor_is16(#[trigger] p.wq@[l], a, layer_name(l as nat, "self_attn.q_proj.weight"@))
    &&& forall|l: int| 0 <= l < c.num_layers
        ==> tensor_is16(#[trigger] p.wk@[l], a, layer_name(l as nat, "self_attn.k_proj.weight"@))
    &&& forall|l: int| 0 <= l < c.num_layers
        ==> tensor_is16(#[trigger] p.wv@[l], a, layer_name(l as nat, "self_attn.v_proj.weight"@))
    &&& forall|l: int| 0 <= l < c.num_layers
        ==> tensor_is16(#[trigger] p.wo@[l], a, layer_name(l as nat, "self_attn.o_proj.weight"@))
    &&& forall|l: int| 0 <= l < c.num_layers
        ==> tensor_is16(#[trigger] p.rms_ffn_w@[l], a, layer_name(l as nat, "post_attention_layernorm.weight"@))
    &&& forall|l: int| 0 <= l < c.num_layers
        ==> tensor_is16(#[trigger] p.w_up@[l], a, layer_name(l as nat, "mlp.up_proj.weight"@))
    &&& forall|l: int| 0 <= l < c.num_layers
        ==> tensor_is16(#[trigger] p.w_gate@[l], a, layer_name(l as nat, "mlp.gate_proj.weight"@))
    &&& forall|l: int| 0 <= l < c.num_layers
        ==> tensor_is16(#[trigger] p.w_down@[l], a, layer_name(l as nat, "mlp.down_proj.weight"@))
    &&& tensor_is16(p.rms_out_w, a, "model.norm.weight"@)
}


/// Whether the archive lacks some parameter of layer `l`.
pub open spec fn layer_missing16(a: Seq<u8>, l: nat) -> bool {
    ||| archive_lookup(a, layer_name(l, "input_layernorm.weight"@)) is None
    ||| archive_lookup(a, layer_name(l, "self_attn.q_proj.weight"@)) is None
    ||| archive_lookup(a, layer_name(l, "self_attn.k_proj.weight"@)) is None
    ||| archive_lookup(a, layer_name(l, "self_attn.v_proj.weight"@)) is None
    ||| archive_lookup(a, layer_name(l, "self_attn.o_proj.weight"@)) is None
    ||| archive_lookup(a, layer_name(l, "post_attention_layernorm.weight"@)) is None
    ||| archive_lookup(a, layer_name(l, "mlp.up_proj.weight"@)) is None
    ||| archive_lookup(a, layer_name(l, "mlp.gate_proj.weight"@)) is None
    ||| archive_lookup(a, layer_name(l, "mlp.down_proj.weight"@)) is None
}

/// Whether the named entry is present but its byte count disagrees with
/// its declared shape at 2 bytes per element.
pub open spec fn entry_bad16(a: Seq<u8>, nm: Seq<char>) -> bool {
    match archive_lookup(a, nm) {
        Some(p) => p.1.len() != 2 * shape_product(p.0),
        None => false,
    }
}

/// Whether some parameter of layer `l` is present but ill-sized.
pub open spec fn layer_bad16(a: Seq<u8>, l: nat) -> bool {
    ||| entry_bad16(a, layer_name(l, "input_layernorm.weight"@))
    ||| entry_bad16(a, layer_name(l, "self_attn.q_proj.weight"@))
    ||| entry_bad16(a, layer_name(l, "self_attn.k_proj.weight"@))
    ||| entry_bad16(a, layer_name(l, "self_attn.v_proj.weight"@))
    ||| entry_bad16(a, layer_name(l, "self_attn.o_proj.weight"@))
    ||| entry_bad16(a, layer_name(l, "post_attention_layernorm.weight"@))
    ||| entry_bad16(a, layer_name(l, "mlp.up_proj.weight"@))
    ||| entry_bad16(a, layer_name(l, "mlp.gate_proj.weight"@))
    ||| entry_bad16(a, layer_name(l, "mlp.down_proj.weight"@))
}

/// Whether some required parameter is absent from the archive.
pub open spec fn some_missing16(a: Seq<u8>, c: Config) -> bool {
    ||| archive_lookup(a, "lm_head.weight"@) is None
    ||| (!c.tie_word_embeddings && archive_lookup(a, "model.embed_tokens.weight"@) is None)
    ||| (exists|l: nat| l < c.num_layers && #[trigger] layer_missing16(a, l))
    ||| archive_lookup(a, "model.norm.weight"@) is None
}

/// Whether some required parameter is present but ill-sized.
pub open spec fn some_bad16(a: Seq<u8>, c: Config) -> bool {
    ||| entry_bad16(a, "lm_head.weight"@)
    ||| (!c.tie_word_embeddings && entry_bad16(a, "model.embed_tokens.weight"@))
    ||| (exists|l: nat| l < c.num_layers && #[trigger] layer_bad16(a, l))
    ||| entry_bad16(a, "model.norm.weight"@)
}

impl LLamaParams<u16> {
    /// Binds a serialized tensor archive to the parameter layout, reading
    /// each weight as little-endian 16-bit words. Succeeds exactly when the
    /// archive holds every required name with bytes matching its declared
    /// shape; then every tensor is the decoded entry, and tied word
    /// embeddings share the head's storage.
    pub fn from_safetensors(archive: &Vec<u8>, config: &Config) -> (r: Result<Self, LlamaError>)
        ensures
            r is Ok <==> params_ok16(archive@, *config),
            r is Ok ==> loaded16(r->Ok_0, archive@, *config),
            r is Err ==> (r->Err_0 == LlamaError::MissingParameter
                || r->Err_0 == LlamaError::MalformedTensor),
            r == Err::<Self, LlamaError>(LlamaError::MissingParameter)
                ==> some_missing16(archive@, *config),
            r == Err::<Self, LlamaError>(LlamaError::MalformedTensor)
                ==> some_bad16(archive@, *config),
    {
        let n_layers: usize = config.num_layers;
        let lm_head = match get_tensor16(archive, "lm_head.weight") {
            Ok(t) => t,
            Err(e) => {
                return Err(e);
            },
        };
        let embedding_table = if config.tie_word_embeddings {
            lm_head.share()
        } else {
            match get_tensor16(archive, "model.embed_tokens.weight") {
                Ok(t) => t,
                Err(e) => {
                    return Err(e);
                },
            }
        };
        let mut rms_att_w: Vec<Tensor<u16>> = Vec::new();
        let mut l: usize = 0;
        while l < n_layers
            invariant
                0 <= l <= n_layers,
                n_layers == config.num_layers,
                rms_att_w@.len() == l,
                forall|i: int| 0 <= i < l ==> tensor_is16(
                    #[trigger] rms_att_w@[i], archive@, layer_name(i as nat, "input_layernorm.weight"@)),
                forall|i: nat| i < l ==> #[trigger] entry_ok16(
                    archive@, layer_name(i, "input_layernorm.weight"@)),
            decreases n_layers - l,
        {
            let name = layer_param_name(l, "input_layernorm.weight");
            match get_tensor16(archive, name.as_str()) {
                Ok(t) => rms_att_w.push(t),
                Err(e) => {
                    proof {
                        assert(!layer_ok16(archive@, l as nat));
                        if e == LlamaError::MissingParameter {
                            assert(layer_missing16(archive@, l as nat));
                        } else {
                            assert(layer_bad16(archive@, l as nat));
                        }
                    }
                    return Err(e);
                },
            }
            l = l + 1;
        }
        let mut wq: Vec<Tensor<u16>> = Vec::new();
        let mut l: usize = 0;
        while l < n_layers
            invariant
                0 <= l <= n_layers,
                n_layers == config.num_layers,
                wq@.len() == l,
                forall|i: int| 0 <= i < l ==> tensor_is16(
                    #[trigger] wq@[i], archive@, layer_name(i as nat, "self_attn.q_proj.weight"@)),
                forall|i: nat| i < l ==> #[trigger] entry_ok16(
                    archive@, layer_name(i, "self_attn.q_proj.weight"@)),
            decreases n_layers - l,
        {
            let name = layer_param_name(l, "self_attn.q_proj.weight");
            match get_tensor16(archive, name.as_str()) {
                Ok(t) => wq.push(t),
                Err(e) => {
                    proof {
                        assert(!layer_ok16(archive@, l as nat));
                        if e == LlamaError::MissingParameter {
                            assert(layer_missing16(archive@, l as nat));
                        } else {
                            assert(layer_bad16(archive@, l as nat));
                        }
                    }
                    return Err(e);
                },
            }
            l = l + 1;
        }
        let mut wk: Vec<Tensor<u16>> = Vec::new();
        let mut l: usize = 0;
        while l < n_layers
            invariant
                0 <= l <= n_layers,
                n_layers == config.num_layers,
                wk@.len() == l,
                forall|i: int| 0 <= i < l ==> tensor_is16(
                    #[trigger] wk@[i], archive@, layer_name(i as nat, "self_attn.k_proj.weight"@)),
                forall|i: nat| i < l ==> #[trigger] entry_ok16(
                    archive@, layer_name(i, "self_attn.k_proj.weight"@)),
            decreases n_layers - l,
        {
            let name = layer_param_name(l, "self_attn.k_proj.weight");
            match get_tensor16(archive, name.as_str()) {
                Ok(t) => wk.push(t),
                Err(e) => {
                    proof {
                        assert(!layer_ok16(archive@, l as nat));
                        if e == LlamaError::MissingParameter {
                            assert(layer_missing16(archive@, l as nat));
                        } else {
                            assert(layer_bad16(archive@, l as nat));
                        }
                    }
                    return Err(e);
                },
            }
            l = l + 1;
        }
        let mut wv: Vec<Tensor<u16>> = Vec::new();
        let mut l: usize = 0;
        while l < n_layers
            invariant
                0 <= l <= n_layers,
                n_layers == config.num_layers,
                wv@.len() == l,
                forall|i: int| 0 <= i < l ==> tensor_is16(
                    #[trigger] wv@[i], archive@, layer_name(i as nat, "self_attn.v_proj.weight"@)),
                forall|i: nat| i < l ==> #[trigger] entry_ok16(
                    archive@, layer_name(i, "self_attn.v_proj.weight"@)),
            decreases n_layers - l,
        {
            let name = layer_param_name(l, "self_attn.v_proj.weight");
            match get_tensor16(archive, name.as_str()) {
                Ok(t) => wv.push(t),
                Err(e) => {
                    proof {
                        assert(!layer_ok16(archive@, l as nat));
                        if e == LlamaError::MissingParameter {
                            assert(layer_missing16(archive@, l as nat));
                        } else {
                            assert(layer_bad16(archive@, l as nat));
                        }
                    }
                    return Err(e);
                },
            }
            l = l + 1;
        }
        let mut wo: Vec<Tensor<u16>> = Vec::new();
        let mut l: usize = 0;
        while l < n_layers
            invariant
                0 <= l <= n_layers,
                n_layers == config.num_layers,
                wo@.len() == l,
                forall|i: int| 0 <= i < l ==> tensor_is16(
                    #[trigger] wo@[i], archive@, layer_name(i as nat, "self_attn.o_proj.weight"@)),
                forall|i: nat| i < l ==> #[trigger] entry_ok16(
                    archive@, layer_name(i, "self_attn.o_proj.weight"@)),
            decreases n_layers - l,
        {
            let name = layer_param_name(l, "self_attn.o_proj.weight");
            match get_tensor16(archive, name.as_str()) {
                Ok(t) => wo.push(t),
                Err(e) => {
                    proof {
                        assert(!layer_ok16(archive@, l as nat));
                        if e == LlamaError::MissingParameter {
                            assert(layer_missing16(archive@, l as nat));
                        } else {
                            assert(layer_bad16(archive@, l as nat));
                        }
                    }
                    return Err(e);
                },
            }
            l = l + 1;
        }
        let mut rms_ffn_w: Vec<Tensor<u16>> = Vec::new();
        let mut l: usize = 0;
        while l < n_layers
            invariant
                0 <= l <= n_layers,
                n_layers == config.num_layers,
                rms_ffn_w@.len() == l,
                forall|i: int| 0 <= i < l ==> tensor_is16(
                    #[trigger] rms_ffn_w@[i], archive@, layer_name(i as nat, "post_attention_layernorm.weight"@)),
                forall|i: nat| i < l ==> #[trigger] entry_ok16(
                    archive@, layer_name(i, "post_attention_layernorm.weight"@)),
            decreases n_layers - l,
        {
            let name = layer_param_name(l, "post_attention_layernorm.weight");
            match get_tensor16(archive, name.as_str()) {
                Ok(t) => rms_ffn_w.push(t),
                Err(e) => {
                    proof {
                        assert(!layer_ok16(archive@, l as nat));
                        if e == LlamaError::MissingParameter {
                            assert(layer_missing16(archive@, l as nat));
                        } else {
                            assert(layer_bad16(archive@, l as nat));
                        }
                    }
                    return Err(e);
                },
            }
            l = l + 1;
        }
        let mut w_up: Vec<Tensor<u16>> = Vec::new();
        let mut l: usize = 0;
        while l < n_layers
            invariant
                0 <= l <= n_layers,
                n_layers == config.num_layers,
                w_up@.len() == l,
                forall|i: int| 0 <= i < l ==> tensor_is16(
                    #[trigger] w_up@[i], archive@, layer_name(i as nat, "mlp.up_proj.weight"@)),
                forall|i: nat| i < l ==> #[trigger] entry_ok16(
                    archive@, layer_name(i, "mlp.up_proj.weight"@)),
            decreases n_layers - l,
        {
            let name = layer_param_name(l, "mlp.up_proj.weight");
            match get_tensor16(archive, name.as_str()) {
                Ok(t) => w_up.push(t),
                Err(e) => {
                    proof {
                        assert(!layer_ok16(archive@, l as nat));
                        if e == LlamaError::MissingParameter {
                            assert(layer_missing16(archive@, l as nat));
                        } else {
                            assert(layer_bad16(archive@, l as nat));
                        }
                    }
                    return Err(e);
                },
            }
            l = l + 1;
        }
        let mut w_gate: Vec<Tensor<u16>> = Vec::new();
        let mut l: usize = 0;
        while l < n_layers
            invariant
                0 <= l <= n_layers,
                n_layers == config.num_layers,
                w_gate@.len() == l,
                forall|i: int| 0 <= i < l ==> tensor_is16(
                    #[trigger] w_gate@[i], archive@, layer_name(i as nat, "mlp.gate_proj.weight"@)),
                forall|i: nat| i < l ==> #[trigger] entry_ok16(
                    archive@, layer_name(i, "mlp.gate_proj.weight"@)),
            decreases n_layers - l,
        {
            let name = layer_param_name(l, "mlp.gate_proj.weight");
            match get_tensor16(archive, name.as_str()) {
                Ok(t) => w_gate.push(t),
                Err(e) => {
                    proof {
                        assert(!layer_ok16(archive@, l as nat));
                        if e == LlamaError::MissingParameter {
                            assert(layer_missing16(archive@, l as nat));
                        } else {
                            assert(layer_bad16(archive@, l as nat));
                        }
                    }
                    return Err(e);
                },
            }
            l = l + 1;
        }
        let mut w_down: Vec<Tensor<u16>> = Vec::new();
        let mut l: usize = 0;
        while l < n_layers
            invariant
                0 <= l <= n_layers,
                n_layers == config.num_layers,
                w_down@.len() == l,
                forall|i: int| 0 <= i < l ==> tensor_is16(
                    #[trigger] w_down@[i], archive@, layer_name(i as nat, "mlp.down_proj.weight"@)),
                forall|i: nat| i < l ==> #[trigger] entry_ok16(
                    archive@, layer_name(i, "mlp.down_proj.weight"@)),
            decreases n_layers - l,
        {
            let name = layer_param_name(l, "mlp.down_proj.weight");
            match get_tensor16(archive, name.as_str()) {
                Ok(t) => w_down.push(t),
                Err(e) => {
                    proof {
                        assert(!layer_ok16(archive@, l as nat));
                        if e == LlamaError::MissingParameter {
                            assert(layer_missing16(archive@, l as nat));
                        } else {
                            assert(layer_bad16(archive@, l as nat));
                        }
                    }
                    return Err(e);
                },
            }
            l = l + 1;
        }
        proof {
            assert forall|i: nat| i < config.num_layers
                implies #[trigger] layer_ok16(archive@, i) by {
            }
        }
        let ok = Ok(LLamaParams {
            embedding_table,
            rms_att_w,
            wq,
            wk,
            wv,
            wo,
            rms_ffn_w,
            w_up,
            w_gate,
            w_down,
            rms_out_w: match get_tensor16(archive, "model.norm.weight") {
                Ok(t) => t,
                Err(e) => {
                    return Err(e);
                },
            },
            lm_head,
        });
        ok
    }
}

/// Weight tying: whenever the configuration ties the word embeddings, a
/// loaded parameter set answers every read of the embedding table exactly
/// as it answers the language-model head — the two are one storage, made by
/// sharing the head's allocation rather than copying it.
pub proof fn lemma_tied_embeddings32(p: LLamaParams<u32>, a: Seq<u8>, c: Config)
    requires
        loaded32(p, a, c),
        c.tie_word_embeddings,
    ensures
        p.embedding_table@ == p.lm_head@,
        p.embedding_table.shape_spec() == p.lm_head.shape_spec(),
{
}

/// Weight tying for brain-float parameter sets, as
/// `lemma_tied_embeddings32` states it for single-precision ones.
pub proof fn lemma_tied_embeddings16(p: LLamaParams<u16>, a: Seq<u8>, c: Config)
    requires
        loaded16(p, a, c),
        c.tie_word_embeddings,
    ensures
        p.embedding_table@ == p.lm_head@,
        p.embedding_table.shape_spec() == p.lm_head.shape_spec(),
{
}


} // verus!
