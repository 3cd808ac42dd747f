//! Model-side bookkeeping: names of pretrained weights, tensor shapes and
//! the schedule of the token generation loop.

use vstd::prelude::*;
use std::collections::HashMap;
use vstd::std_specs::hash::obeys_key_model;
use crate::numfmt::push_str;
use crate::json::{json_bool_member, json_parses, json_u64_member, JsonDocument};
use crate::text::{decimal, u64_to_decimal};

verus! {

/// The integer and flag hyperparameters of a LLaMA model. (The two
/// floating-point ones, the RMS normalization epsilon and the RoPE base,
/// are kept beside them by the caller.)
#[derive(Debug, Clone, Copy, PartialEq, Eq, Structural)]
pub struct ModelDims {
    /// Vocabulary size
    pub vocab_size: usize,
    /// Hidden dimension
    pub hidden_size: usize,
    /// Intermediate size (FFN)
    pub intermediate_size: usize,
    /// Number of attention heads
    pub num_attention_heads: usize,
    /// Number of key-value heads (for GQA)
    pub num_key_value_heads: usize,
    /// Number of transformer layers
    pub num_hidden_layers: usize,
    /// Maximum sequence length
    pub max_position_embeddings: usize,
    /// Beginning of sequence token ID
    pub bos_token_id: u32,
    /// End of sequence token ID
    pub eos_token_id: u32,
    /// Padding token ID
    pub pad_token_id: u32,
    /// Tie word embeddings
    pub tie_word_embeddings: bool,
    /// Head dimension
    pub head_dim: usize,
}

/// The integer member `key` of the configuration text, or `default`.
pub open spec fn u64_or(text: Seq<char>, key: Seq<char>, default: u64) -> u64 {
    match json_u64_member(text, key) {
        Some(v) => v,
        None => default,
    }
}

/// The hyperparameters a HuggingFace `config.json` text gives, each missing
/// or ill-typed member taking its LLaMA 3 8B value; integers are narrowed
/// with `as`.
pub open spec fn dims_from_config(text: Seq<char>) -> ModelDims {
    ModelDims {
        vocab_size: u64_or(text, "vocab_size"@, 128256) as usize,
        hidden_size: u64_or(text, "hidden_size"@, 4096) as usize,
        intermediate_size: u64_or(text, "intermediate_size"@, 14336) as usize,
        num_attention_heads: u64_or(text, "num_attention_heads"@, 32) as usize,
        num_key_value_heads: u64_or(text, "num_key_value_heads"@, 8) as usize,
        num_hidden_layers: u64_or(text, "num_hidden_layers"@, 32) as usize,
        max_position_embeddings: u64_or(text, "max_position_embeddings"@, 8192) as usize,
        bos_token_id: u64_or(text, "bos_token_id"@, 128000) as u32,
        eos_token_id: u64_or(text, "eos_token_id"@, 128001) as u32,
        pad_token_id: u64_or(text, "pad_token_id"@, 128002) as u32,
        tie_word_embeddings: match json_bool_member(text, "tie_word_embeddings"@) {
            Some(b) => b,
            None => false,
        },
        head_dim: u64_or(text, "head_dim"@, 128) as usize,
    }
}

fn member_or(doc: &JsonDocument, key: &str, default: u64) -> (r: u64)
    ensures
        r == u64_or(doc@, key@, default),
{
    match doc.u64_member(key) {
        Some(v) => v,
        None => default,
    }
}

impl ModelDims {
    /// LLaMA 3 8B configuration
    pub fn llama3_8b() -> (r: ModelDims)
        ensures
            r.vocab_size == 128256 && r.hidden_size == 4096 && r.intermediate_size == 14336,
            r.num_attention_heads == 32 && r.num_key_value_heads == 8 && r.num_hidden_layers == 32,
            r.max_position_embeddings == 8192 && r.head_dim == 128,
            r.bos_token_id == 128000 && r.eos_token_id == 128001 && r.pad_token_id == 128002,
            !r.tie_word_embeddings,
    {
        ModelDims {
            vocab_size: 128256,
            hidden_size: 4096,
            intermediate_size: 14336,
            num_attention_heads: 32,
            num_key_value_heads: 8,
            num_hidden_layers: 32,
            max_position_embeddings: 8192,
            bos_token_id: 128000,
            eos_token_id: 128001,
            pad_token_id: 128002,
            tie_word_embeddings: false,
            head_dim: 128,
        }
    }

    /// LLaMA 3 70B configuration
    pub fn llama3_70b() -> (r: ModelDims)
        ensures
            r.vocab_size == 128256 && r.hidden_size == 8192 && r.intermediate_size == 28672,
            r.num_attention_heads == 64 && r.num_key_value_heads == 8 && r.num_hidden_layers == 80,
            r.max_position_embeddings == 8192 && r.head_dim == 128,
            r.bos_token_id == 128000 && r.eos_token_id == 128001 && r.pad_token_id == 128002,
            !r.tie_word_embeddings,
    {
        ModelDims {
            vocab_size: 128256,
            hidden_size: 8192,
            intermediate_size: 28672,
            num_attention_heads: 64,
            num_key_value_heads: 8,
            num_hidden_layers: 80,
            max_position_embeddings: 8192,
            bos_token_id: 128000,
            eos_token_id: 128001,
            pad_token_id: 128002,
            tie_word_embeddings: false,
            head_dim: 128,
        }
    }

    /// Reads the hyperparameters from the text of a HuggingFace
    /// `config.json`; the error is the JSON parser's message.
    pub fn from_config_json(text: &str) -> (r: Result<ModelDims, String>)
        ensures
            r is Ok <==> json_parses(text@),
            r matches Ok(d) ==> d == dims_from_config(text@),
    {
        let doc = JsonDocument::parse(text)?;
        let tie = match doc.bool_member("tie_word_embeddings") {
            Some(b) => b,
            None => false,
        };
        Ok(ModelDims {
            vocab_size: member_or(&doc, "vocab_size", 128256) as usize,
            hidden_size: member_or(&doc, "hidden_size", 4096) as usize,
            intermediate_size: member_or(&doc, "intermediate_size", 14336) as usize,
            num_attention_heads: member_or(&doc, "num_attention_heads", 32) as usize,
            num_key_value_heads: member_or(&doc, "num_key_value_heads", 8) as usize,
            num_hidden_layers: member_or(&doc, "num_hidden_layers", 32) as usize,
            max_position_embeddings: member_or(&doc, "max_position_embeddings", 8192) as usize,
            bos_token_id: member_or(&doc, "bos_token_id", 128000) as u32,
            eos_token_id: member_or(&doc, "eos_token_id", 128001) as u32,
            pad_token_id: member_or(&doc, "pad_token_id", 128002) as u32,
            tie_word_embeddings: tie,
            head_dim: member_or(&doc, "head_dim", 128) as usize,
        })
    }

    /// Compute the head dimension
    pub fn compute_head_dim(&self) -> (r: usize)
        requires
            self.num_attention_heads > 0,
        ensures
            r == self.hidden_size / self.num_attention_heads,
    {
        self.hidden_size / self.num_attention_heads
    }

    /// Get the number of KV heads per attention head (for GQA)
    pub fn kv_heads_ratio(&self) -> (r: usize)
        requires
            self.num_key_value_heads > 0,
        ensures
            r == self.num_attention_heads / self.num_key_value_heads,
    {
        self.num_attention_heads / self.num_key_value_heads
    }
}

/// Number of weights of one decoder layer.
pub const LAYER_WEIGHT_COUNT: usize = 9;

/// The part of a weight's name after its layer prefix, by position.
pub open spec fn layer_weight_suffix(j: int) -> Seq<char> {
    if j == 0 {
        "self_attn.q_proj.weight"@
    } else if j == 1 {
        "self_attn.k_proj.weight"@
    } else if j == 2 {
        "self_attn.v_proj.weight"@
    } else if j == 3 {
        "self_attn.o_proj.weight"@
    } else if j == 4 {
        "mlp.gate_proj.weight"@
    } else if j == 5 {
        "mlp.up_proj.weight"@
    } else if j == 6 {
        "mlp.down_proj.weight"@
    } else if j == 7 {
        "input_layernorm.weight"@
    } else {
        "post_attention_layernorm.weight"@
    }
}

fn layer_weight_suffix_str(j: usize) -> (r: &'static str)
    requires
        j < LAYER_WEIGHT_COUNT,
    ensures
        r@ == layer_weight_suffix(j as int),
{
    if j == 0 {
        "self_attn.q_proj.weight"
    } else if j == 1 {
        "self_attn.k_proj.weight"
    } else if j == 2 {
        "self_attn.v_proj.weight"
    } else if j == 3 {
        "self_attn.o_proj.weight"
    } else if j == 4 {
        "mlp.gate_proj.weight"
    } else if j == 5 {
        "mlp.up_proj.weight"
    } else if j == 6 {
        "mlp.down_proj.weight"
    } else if j == 7 {
        "input_layernorm.weight"
    } else {
        "post_attention_layernorm.weight"
    }
}

/// HuggingFace name of weight `j` of layer `layer`.
pub open spec fn hf_weight_name(layer: nat, j: int) -> Seq<char> {
    "model.layers."@ + decimal(layer) + seq!['.'] + layer_weight_suffix(j)
}

/// This model's name of weight `j` of layer `layer`.
pub open spec fn local_weight_name(layer: nat, j: int) -> Seq<char> {
    "layers."@ + decimal(layer) + seq!['.'] + layer_weight_suffix(j)
}

/// The (HuggingFace name, model name) pairs of one decoder layer, in order:
/// the nine pairs that `get_weight_mapping` puts in its map, each stated
/// exactly. This is where the mapping's content is stated for every caller,
/// since `get_weight_mapping`'s contract holds only where `String` keys
/// follow the hash-table key model, which vstd does not provide.
pub fn weight_mapping_pairs(layer_idx: usize) -> (r: Vec<(String, String)>)
    ensures
        r.len() == LAYER_WEIGHT_COUNT,
        forall|j: int| 0 <= j < LAYER_WEIGHT_COUNT ==> (#[trigger] r@[j]).0@ == hf_weight_name(layer_idx as nat, j)
            && r@[j].1@ == local_weight_name(layer_idx as nat, j),
{
    let idx = u64_to_decimal(layer_idx as u64);
    let mut out: Vec<(String, String)> = Vec::new();
    let mut j: usize = 0;
    while j < LAYER_WEIGHT_COUNT
        invariant
            j <= LAYER_WEIGHT_COUNT,
            idx@ == decimal(layer_idx as nat),
            out.len() == j,
            forall|k: int| 0 <= k < j ==> (#[trigger] out@[k]).0@ == hf_weight_name(layer_idx as nat, k)
                && out@[k].1@ == local_weight_name(layer_idx as nat, k),
        decreases LAYER_WEIGHT_COUNT - j,
    {
        let suffix = layer_weight_suffix_str(j);
        let mut hf = String::from_str("model.layers.");
        push_str(&mut hf, idx.as_str());
        crate::text::push_char(&mut hf, '.');
        push_str(&mut hf, suffix);
        let mut local = String::from_str("layers.");
        push_str(&mut local, idx.as_str());
        crate::text::push_char(&mut local, '.');
        push_str(&mut local, suffix);
        proof {
            assert(hf@ == hf_weight_name(layer_idx as nat, j as int));
            assert(local@ == local_weight_name(layer_idx as nat, j as int));
        }
        out.push((hf, local));
        j += 1;
    }
    out
}

/// The map that inserting `pairs` in order builds.
pub open spec fn pairs_map(pairs: Seq<(String, String)>) -> Map<String, String>
    decreases pairs.len(),
{
    if pairs.len() == 0 {
        Map::empty()
    } else {
        pairs_map(pairs.drop_last()).insert(pairs.last().0, pairs.last().1)
    }
}

/// `pairs` are the weight-name pairs of layer `layer`, in order.
pub open spec fn layer_pairs(pairs: Seq<(String, String)>, layer: nat) -> bool {
    &&& pairs.len() == LAYER_WEIGHT_COUNT
    &&& forall|j: int| 0 <= j < LAYER_WEIGHT_COUNT ==> (#[trigger] pairs[j]).0@ == hf_weight_name(layer, j)
        && pairs[j].1@ == local_weight_name(layer, j)
}

/// Weight mapping from HuggingFace naming to this model's naming for one
/// decoder layer. Where `String` keys follow the hash-table key model, the
/// map is the one inserting the nine pairs of `weight_mapping_pairs`
/// builds; vstd gives `String` no such model, so a caller that needs the
/// names learns them from `weight_mapping_pairs`.
pub fn get_weight_mapping(layer_idx: usize) -> (r: HashMap<String, String>)
    ensures
        obeys_key_model::<String>() ==> exists|pairs: Seq<(String, String)>|
            layer_pairs(pairs, layer_idx as nat) && r@ == pairs_map(pairs),
{
    let pairs = weight_mapping_pairs(layer_idx);
    let ghost pv = pairs@;
    let mut mapping: HashMap<String, String> = HashMap::new();
    let mut rest = crate::text::into_reversed(pairs);
    let mut j: usize = 0;
    while j < LAYER_WEIGHT_COUNT
        invariant
            j <= LAYER_WEIGHT_COUNT,
            rest.len() + j == LAYER_WEIGHT_COUNT,
            pv.len() == LAYER_WEIGHT_COUNT,
            forall|q: int| 0 <= q < rest.len() ==> rest@[q] == pv[LAYER_WEIGHT_COUNT - 1 - q],
            obeys_key_model::<String>() ==> mapping@ == pairs_map(pv.take(j as int)),
        decreases LAYER_WEIGHT_COUNT - j,
    {
        let (hf, local) = rest.pop().unwrap();
        assert((hf, local) == pv[j as int]);
        assert(pv.take((j + 1) as int).drop_last() == pv.take(j as int));
        mapping.insert(hf, local);
        j += 1;
    }
    assert(pv.take(LAYER_WEIGHT_COUNT as int) == pv);
    assert(layer_pairs(pv, layer_idx as nat));
    mapping
}

/// Shape of a weight tensor as the two dimensions the model stores: a
/// vector `[n]` becomes `[n, 1]`; other ranks than 1 and 2 are refused.
pub fn shape_2d(shape: &[usize]) -> (r: Result<(usize, usize), String>)
    ensures
        shape.len() == 1 ==> r == Ok::<(usize, usize), String>((shape@[0], 1)),
        shape.len() == 2 ==> r == Ok::<(usize, usize), String>((shape@[0], shape@[1])),
        shape.len() != 1 && shape.len() != 2 ==> (r matches Err(m)
            && m@ == "Unsupported tensor rank: "@ + decimal(shape.len() as nat)),
{
    if shape.len() == 1 {
        Ok((shape[0], 1))
    } else if shape.len() == 2 {
        Ok((shape[0], shape[1]))
    } else {
        let mut m = String::from_str("Unsupported tensor rank: ");
        let n = u64_to_decimal(shape.len() as u64);
        push_str(&mut m, n.as_str());
        Err(m)
    }
}


/// The control of the generation loop: how many tokens have been produced,
/// which position the next forward pass starts at, and whether to stop.
/// The first pass feeds the whole prompt; later passes feed only the last
/// token, with the key/value cache holding the rest.
pub struct GenerationSchedule {
    max_new_tokens: usize,
    initial_len: usize,
    step: usize,
    position_offset: usize,
    finished: bool,
}

impl GenerationSchedule {
    pub closed spec fn spec_step(&self) -> nat {
        self.step as nat
    }

    pub closed spec fn spec_offset(&self) -> nat {
        self.position_offset as nat
    }

    pub closed spec fn spec_eos_seen(&self) -> bool {
        self.finished
    }

    pub closed spec fn spec_max(&self) -> nat {
        self.max_new_tokens as nat
    }

    pub closed spec fn spec_initial_len(&self) -> nat {
        self.initial_len as nat
    }

    /// Offsets follow the steps: 0 before the first pass, then the prompt
    /// length plus the tokens generated after the first.
    pub closed spec fn wf(&self) -> bool {
        &&& self.step <= self.max_new_tokens
        &&& self.initial_len + self.max_new_tokens <= usize::MAX
        &&& self.position_offset == if self.step == 0 { 0 } else { self.initial_len + self.step - 1 }
    }

    /// A schedule for a prompt of `initial_len` tokens and at most
    /// `max_new_tokens` new ones.
    pub fn new(initial_len: usize, max_new_tokens: usize) -> (r: GenerationSchedule)
        requires
            initial_len + max_new_tokens <= usize::MAX,
        ensures
            r.wf(),
            r.spec_step() == 0,
            r.spec_offset() == 0,
            !r.spec_eos_seen(),
            r.spec_max() == max_new_tokens,
            r.spec_initial_len() == initial_len,
    {
        GenerationSchedule { max_new_tokens, initial_len, step: 0, position_offset: 0, finished: false }
    }

    /// Whether another forward pass is due.
    pub fn should_continue(&self) -> (r: bool)
        ensures
            r == (!self.spec_eos_seen() && self.spec_step() < self.spec_max()),
    {
        !self.finished && self.step < self.max_new_tokens
    }

    /// Whether the next pass feeds the whole prompt (the first pass) rather
    /// than the last token.
    pub fn feeds_whole_prompt(&self) -> (r: bool)
        ensures
            r == (self.spec_step() == 0),
    {
        self.step == 0
    }

    /// Position of the first token the next pass feeds.
    pub fn position_offset(&self) -> (r: usize)
        ensures
            r == self.spec_offset(),
    {
        self.position_offset
    }

    /// Records the token the last pass produced: the step count grows by
    /// one, the offset moves past what was fed, and the loop stops at the
    /// end-of-sequence token.
    pub fn record(&mut self, token: i64, eos_token_id: u32)
        requires
            old(self).wf(),
            !old(self).spec_eos_seen(),
            old(self).spec_step() < old(self).spec_max(),
        ensures
            final(self).wf(),
            final(self).spec_step() == old(self).spec_step() + 1,
            final(self).spec_offset() == old(self).spec_initial_len() + old(self).spec_step(),
            final(self).spec_eos_seen() == (token == eos_token_id as i64),
            final(self).spec_max() == old(self).spec_max(),
            final(self).spec_initial_len() == old(self).spec_initial_len(),
    {
        if self.step == 0 {
            self.position_offset = self.initial_len;
        } else {
            self.position_offset = self.position_offset + 1;
        }
        self.step = self.step + 1;
        self.finished = token == eos_token_id as i64;
    }
}

/// The tensor `name` stored in the safetensors buffer `bytes`: its dtype
/// (as `Dtype`'s `Debug` name), its shape and its raw little-endian data;
/// `None` when the buffer does not parse or holds no such tensor.
pub uninterp spec fn safetensors_entry(bytes: Seq<u8>, name: Seq<char>) -> Option<(Seq<char>, Seq<usize>, Seq<u8>)>;

/// The names of the tensors stored in the safetensors buffer `bytes`, or
/// `None` when it does not parse.
pub uninterp spec fn safetensors_names(bytes: Seq<u8>) -> Option<Set<Seq<char>>>;

/// `SafeTensors::deserialize(bytes)` then `tensor(name)`, the view copied
/// out as dtype name, shape and data, the error turned into its message.
/// Claims success exactly where `safetensors_entry` has the tensor, and
/// that it is that entry.
#[verifier::external_body]
fn st_tensor(bytes: &[u8], name: &str) -> (r: Result<(String, Vec<usize>, Vec<u8>), String>)
    ensures
        r is Ok <==> safetensors_entry(bytes@, name@) is Some,
        r matches Ok(t) ==> safetensors_entry(bytes@, name@) == Some((t.0@, t.1@, t.2@)),
{
    safetensors::SafeTensors::deserialize(bytes)
        .and_then(|t| t.tensor(name).map(|v| (format!("{:?}", v.dtype()), v.shape().to_vec(), v.data().to_vec())))
        .map_err(|e| e.to_string())
}

/// `SafeTensors::deserialize(bytes)` then `names()`, copied into strings,
/// the error turned into its message. `names` comes from a hash map, so
/// only the set of names is claimed, not their order.
#[verifier::external_body]
fn st_names(bytes: &[u8]) -> (r: Result<Vec<String>, String>)
    ensures
        r is Ok <==> safetensors_names(bytes@) is Some,
        r matches Ok(v) ==> safetensors_names(bytes@) == Some(v.deep_view().to_set()),
{
    safetensors::SafeTensors::deserialize(bytes)
        .map(|t| t.names().into_iter().map(|n| n.to_string()).collect())
        .map_err(|e| e.to_string())
}

/// The element encodings a weight can be loaded from.
#[derive(Debug, Clone, Copy, PartialEq, Eq, Structural)]
pub enum StoredDtype {
    F32,
    F16,
    BF16,
}

/// The encoding a dtype name stands for, when it is one that is loaded.
pub open spec fn stored_dtype(name: Seq<char>) -> Option<StoredDtype> {
    if name == "F32"@ {
        Some(StoredDtype::F32)
    } else if name == "F16"@ {
        Some(StoredDtype::F16)
    } else if name == "BF16"@ {
        Some(StoredDtype::BF16)
    } else {
        None
    }
}

/// What a stored tensor with dtype name `d`, shape `shape` and data `data`
/// gives: its encoding, its two dimensions and its data, or the error
/// message.
pub open spec fn entry_weight(d: Seq<char>, shape: Seq<usize>, data: Seq<u8>) -> Result<(StoredDtype, usize, usize, Seq<u8>), Seq<char>> {
    match stored_dtype(d) {
        None => Err("Unsupported dtype: "@ + d),
        Some(t) => if shape.len() == 1 {
            Ok((t, shape[0], 1usize, data))
        } else if shape.len() == 2 {
            Ok((t, shape[0], shape[1], data))
        } else {
            Err("Unsupported tensor rank: "@ + decimal(shape.len()))
        },
    }
}

/// What loading the stored tensor `name` gives (`None` where the buffer
/// itself refuses, whose message is the parser's).
pub open spec fn stored_weight_outcome(bytes: Seq<u8>, name: Seq<char>) -> Option<Result<(StoredDtype, usize, usize, Seq<u8>), Seq<char>>> {
    match safetensors_entry(bytes, name) {
        None => None,
        Some((d, shape, data)) => Some(entry_weight(d, shape, data)),
    }
}

/// A stored tensor, given its dtype name, shape and data, made ready to
/// turn into floats: its encoding (F32, F16 or BF16; another is refused),
/// its shape as two dimensions (`[n]` becomes `(n, 1)`; ranks other than 1
/// and 2 are refused) and its raw data.
pub fn weight_from_entry(dtype_name: String, shape: Vec<usize>, data: Vec<u8>) -> (r: Result<(StoredDtype, usize, usize, Vec<u8>), String>)
    ensures
        match entry_weight(dtype_name@, shape@, data@) {
            Ok((t, rows, cols, d)) => r matches Ok(w) && w.0 == t && w.1 == rows && w.2 == cols && w.3@ == d,
            Err(m) => r matches Err(e) && e@ == m,
        },
{
    let dtype = if crate::text::str_eq(dtype_name.as_str(), "F32") {
        StoredDtype::F32
    } else if crate::text::str_eq(dtype_name.as_str(), "F16") {
        StoredDtype::F16
    } else if crate::text::str_eq(dtype_name.as_str(), "BF16") {
        StoredDtype::BF16
    } else {
        let mut m = String::from_str("Unsupported dtype: ");
        push_str(&mut m, dtype_name.as_str());
        return Err(m);
    };
    let (rows, cols) = shape_2d(shape.as_slice())?;
    Ok((dtype, rows, cols, data))
}

/// The stored tensor `name` of a safetensors buffer, ready to turn into
/// floats (see `weight_from_entry`).
pub fn stored_weight(bytes: &[u8], name: &str) -> (r: Result<(StoredDtype, usize, usize, Vec<u8>), String>)
    ensures
        match stored_weight_outcome(bytes@, name@) {
            None => r is Err,
            Some(Ok((t, rows, cols, data))) => r matches Ok(w) && w.0 == t && w.1 == rows && w.2 == cols && w.3@ == data,
            Some(Err(m)) => r matches Err(e) && e@ == m,
        },
{
    let (dtype_name, shape, data) = st_tensor(bytes, name)?;
    weight_from_entry(dtype_name, shape, data)
}

/// The names of the tensors a safetensors buffer holds, in no particular
/// order.
pub fn stored_weight_names(bytes: &[u8]) -> (r: Result<Vec<String>, String>)
    ensures
        r is Ok <==> safetensors_names(bytes@) is Some,
        r matches Ok(v) ==> safetensors_names(bytes@) == Some(v.deep_view().to_set()),
{
    st_names(bytes)
}

/// Index of the last entry named `name`, or -1.
pub open spec fn last_named(index: Seq<(Seq<char>, Seq<char>)>, name: Seq<char>, n: int) -> int
    decreases n,
{
    if n <= 0 {
        -1
    } else if index[n - 1].0 == name {
        n - 1
    } else {
        last_named(index, name, n - 1)
    }
}

pub const WEIGHT_NOT_FOUND_HEAD: &'static str = "Weight not found: ";

/// The file holding the weight `name`, from `(weight, file)` pairs in the
/// order they were found (a later file replaces an earlier one, as map
/// insertion does); the error names the weight.
pub fn find_weight_file(index: &Vec<(String, String)>, name: &str) -> (r: Result<String, String>)
    ensures
        ({
            let iv = index@.map_values(|p: (String, String)| (p.0@, p.1@));
            let k = last_named(iv, name@, iv.len() as int);
            &&& k < 0 ==> (r matches Err(m) && m@ == WEIGHT_NOT_FOUND_HEAD@ + name@)
            &&& k >= 0 ==> (r matches Ok(f) && f@ == iv[k].1)
        }),
{
    let ghost iv = index@.map_values(|p: (String, String)| (p.0@, p.1@));
    let mut i: usize = index.len();
    while i > 0
        invariant
            i <= index.len(),
            iv == index@.map_values(|p: (String, String)| (p.0@, p.1@)),
            last_named(iv, name@, iv.len() as int) == last_named(iv, name@, i as int),
        decreases i,
    {
        if crate::text::str_eq(index[i - 1].0.as_str(), name) {
            assert(iv[i - 1] == (index@[i - 1].0@, index@[i - 1].1@));
            return Ok(index[i - 1].1.clone());
        }
        assert(iv[i - 1].0 != name@);
        i -= 1;
    }
    let mut m = String::from_str(WEIGHT_NOT_FOUND_HEAD);
    push_str(&mut m, name);
    Err(m)
}

} // verus!
