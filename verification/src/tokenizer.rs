//! Tokenization for LLaMA models and the chat templates of their prompts.

use vstd::prelude::*;
use crate::json::{json_parses, json_u64_member, JsonDocument};
use crate::text::{contains_run, decimal, ends_with, u64_to_decimal};
use crate::numfmt::push_str;
use crate::error::starts_with;

verus! {

pub const ENCODE_ERROR_HEAD: &'static str = "Failed to encode text: ";
pub const DECODE_ERROR_HEAD: &'static str = "Failed to decode tokens: ";
pub const ENCODE_BATCH_ERROR_HEAD: &'static str = "Failed to encode batch: ";

#[verifier::external_type_specification]
#[verifier::external_body]
#[verifier::reject_recursive_types(M)]
#[verifier::reject_recursive_types(N)]
#[verifier::reject_recursive_types(PT)]
#[verifier::reject_recursive_types(PP)]
#[verifier::reject_recursive_types(D)]
pub struct ExTokenizerImpl<M, N, PT, PP, D>(tokenizers::TokenizerImpl<M, N, PT, PP, D>);

#[verifier::external_type_specification]
#[verifier::external_body]
pub struct ExModelWrapper(tokenizers::models::ModelWrapper);

#[verifier::external_type_specification]
#[verifier::external_body]
pub struct ExNormalizerWrapper(tokenizers::normalizers::NormalizerWrapper);

#[verifier::external_type_specification]
#[verifier::external_body]
pub struct ExPreTokenizerWrapper(tokenizers::pre_tokenizers::PreTokenizerWrapper);

#[verifier::external_type_specification]
#[verifier::external_body]
pub struct ExPostProcessorWrapper(tokenizers::processors::PostProcessorWrapper);

#[verifier::external_type_specification]
#[verifier::external_body]
pub struct ExDecoderWrapper(tokenizers::decoders::DecoderWrapper);

/// Whether `tokenizers` can build a tokenizer from the JSON text `json`.
pub uninterp spec fn tokenizer_json_loads(json: Seq<char>) -> bool;

/// `get_vocab_size(true)` of the tokenizer built from `json`.
pub uninterp spec fn tokenizer_vocab_size(json: Seq<char>) -> usize;

/// Whether the model of the tokenizer built from `json` has a sampling
/// parameter set (BPE dropout, or Unigram's `alpha`). Such a model draws
/// random numbers while encoding, so the same text may come out as
/// different ids from one call to the next.
pub uninterp spec fn tokenizer_samples(json: Seq<char>) -> bool;

/// Token ids of `text` under the tokenizer built from `json`, or `None`
/// when encoding fails (for a tokenizer that does not sample).
pub uninterp spec fn tokenizer_encode(json: Seq<char>, text: Seq<char>, add_special: bool) -> Option<Seq<u32>>;

/// Text of `ids` under the tokenizer built from `json`, or `None` when
/// decoding fails.
pub uninterp spec fn tokenizer_decode(json: Seq<char>, ids: Seq<u32>, skip_special: bool) -> Option<Seq<char>>;

/// Token ids of each of `texts` encoded as one batch, or `None` when the
/// batch fails (for a tokenizer that does not sample).
pub uninterp spec fn tokenizer_encode_batch(json: Seq<char>, texts: Seq<Seq<char>>, add_special: bool) -> Option<Seq<Seq<u32>>>;

/// Chat format type
#[derive(Debug, Clone, Copy, PartialEq, Eq, Structural)]
pub enum ChatFormat {
    /// LLaMA 3 format with <|start_header_id|> etc.
    Llama3,
    /// LLaMA 2 / TinyLlama format with [INST] etc.
    Llama2,
}

/// Vocabularies larger than this belong to LLaMA 3 tokenizers.
pub const LLAMA3_VOCAB_THRESHOLD: usize = 100000;

/// Special token ids and chat format chosen for a vocabulary size: LLaMA 3's
/// fixed ids above the threshold, otherwise the ids found in the model's
/// configuration files, or TinyLlama / LLaMA 2's `(1, 2, 0)`.
pub open spec fn special_tokens_for(vocab: usize, config: Option<(u32, u32, u32)>) -> (u32, u32, u32, ChatFormat) {
    if vocab > LLAMA3_VOCAB_THRESHOLD {
        (128000, 128001, 128002, ChatFormat::Llama3)
    } else {
        match config {
            Some((b, e, p)) => (b, e, p, ChatFormat::Llama2),
            None => (1, 2, 0, ChatFormat::Llama2),
        }
    }
}

/// A vocabulary of LLaMA 3 size (over 100000 tokens) always gets LLaMA 3's
/// special tokens, `<|begin_of_text|>` = 128000 as BOS, `<|end_of_text|>` =
/// 128001 as EOS, 128002 as PAD, and the LLaMA 3 chat format, whatever the
/// configuration files say; a smaller one gets the configured ids with the
/// LLaMA 2 format, or BOS 1, EOS 2, PAD 0 when none are configured.
pub proof fn lemma_special_tokens_by_vocab(vocab: usize, config: Option<(u32, u32, u32)>)
    ensures
        vocab > 100000 ==> special_tokens_for(vocab, config) == (128000u32, 128001u32, 128002u32, ChatFormat::Llama3),
        vocab <= 100000 ==> special_tokens_for(vocab, config) == match config {
            Some((b, e, p)) => (b, e, p, ChatFormat::Llama2),
            None => (1u32, 2u32, 0u32, ChatFormat::Llama2),
        },
{
}

/// The special token ids a `generation_config.json` or
/// `tokenizer_config.json` text provides: both BOS and EOS must be present
/// (as unsigned integers, cut to 32 bits); PAD defaults to 0.
pub open spec fn config_tokens(text: Seq<char>) -> Option<(u32, u32, u32)> {
    if !json_parses(text) {
        None
    } else {
        let bos = json_u64_member(text, "bos_token_id"@);
        let eos = json_u64_member(text, "eos_token_id"@);
        let pad = json_u64_member(text, "pad_token_id"@);
        if bos is Some && eos is Some {
            Some((
                bos->0 as u32,
                eos->0 as u32,
                match pad {
                    Some(p) => p as u32,
                    None => 0u32,
                },
            ))
        } else {
            None
        }
    }
}

/// Special token ids read from one configuration file's text.
pub fn special_tokens_from_config(text: &str) -> (r: Option<(u32, u32, u32)>)
    ensures
        r == config_tokens(text@),
{
    match JsonDocument::parse(text) {
        Err(_) => None,
        Ok(doc) => {
            let bos = doc.u64_member("bos_token_id");
            let eos = doc.u64_member("eos_token_id");
            let pad = doc.u64_member("pad_token_id");
            match (bos, eos) {
                (Some(b), Some(e)) => {
                    let p: u32 = match pad {
                        Some(p) => p as u32,
                        None => 0,
                    };
                    Some((b as u32, e as u32, p))
                },
                _ => None,
            }
        },
    }
}

/// Special token ids from the model directory's configuration files:
/// `generation_config.json` first, then `tokenizer_config.json`. Each
/// argument is the file's text, or `None` when it is absent or unreadable.
pub fn special_tokens_from_configs(generation_config: Option<&str>, tokenizer_config: Option<&str>) -> (r: Option<(u32, u32, u32)>)
    ensures
        r == match generation_config {
            Some(g) if config_tokens(g@) is Some => config_tokens(g@),
            _ => match tokenizer_config {
                Some(t) => config_tokens(t@),
                None => None,
            },
        },
{
    if let Some(g) = generation_config {
        let found = special_tokens_from_config(g);
        if found.is_some() {
            return found;
        }
    }
    match tokenizer_config {
        Some(t) => special_tokens_from_config(t),
        None => None,
    }
}

/// `tokenizers::Tokenizer::from_str` (the parse behind `Tokenizer::from_file`),
/// unwrapped with `into_inner`, the error turned into its message. Claims
/// success exactly on the texts `tokenizer_json_loads` accepts.
#[verifier::external_body]
fn hf_from_json(json: &str) -> (r: Result<tokenizers::TokenizerImpl<
        tokenizers::models::ModelWrapper,
        tokenizers::normalizers::NormalizerWrapper,
        tokenizers::pre_tokenizers::PreTokenizerWrapper,
        tokenizers::processors::PostProcessorWrapper,
        tokenizers::decoders::DecoderWrapper,
    >, String>)
    ensures
        r is Ok <==> tokenizer_json_loads(json@),
{
    json.parse::<tokenizers::Tokenizer>().map(|t| t.into_inner()).map_err(|e| e.to_string())
}

/// LLaMA Tokenizer wrapper
pub struct Tokenizer {
    /// Underlying HuggingFace tokenizer
    inner: tokenizers::TokenizerImpl<
        tokenizers::models::ModelWrapper,
        tokenizers::normalizers::NormalizerWrapper,
        tokenizers::pre_tokenizers::PreTokenizerWrapper,
        tokenizers::processors::PostProcessorWrapper,
        tokenizers::decoders::DecoderWrapper,
    >,
    /// The JSON text the underlying tokenizer was built from
    source: Ghost<Seq<char>>,
    /// Beginning of sequence token ID
    bos_token_id: u32,
    /// End of sequence token ID
    eos_token_id: u32,
    /// Padding token ID
    pad_token_id: u32,
    /// Chat template format (llama3 or llama2/tinyllama)
    chat_format: ChatFormat,
}

impl View for Tokenizer {
    type V = Seq<char>;

    /// A tokenizer is seen as the JSON text it was built from.
    closed spec fn view(&self) -> Seq<char> {
        self.source@
    }
}

/// `get_vocab_size(true)`. Claims the result is `tokenizer_vocab_size` of the
/// tokenizer's JSON.
#[verifier::external_body]
fn hf_vocab_size(t: &Tokenizer) -> (r: usize)
    ensures
        r == tokenizer_vocab_size(t@),
{
    t.inner.get_vocab_size(true)
}

/// Whether `get_model()` is a BPE model with `dropout` set or a Unigram
/// model with `alpha` set (the two sampling parameters of `tokenizers`'
/// models). Claims the answer is `tokenizer_samples` of the tokenizer's JSON.
#[verifier::external_body]
fn hf_samples(t: &Tokenizer) -> (r: bool)
    ensures
        r == tokenizer_samples(t@),
{
    match t.inner.get_model() {
        tokenizers::models::ModelWrapper::BPE(m) => m.dropout.is_some(),
        tokenizers::models::ModelWrapper::Unigram(m) => m.alpha.is_some(),
        _ => false,
    }
}

/// `encode(text, add_special)` followed by `Encoding::get_ids` (a field
/// read), the error turned into its message. Claims, for a tokenizer that
/// does not sample, that the ids are `tokenizer_encode` of the tokenizer's
/// JSON and the arguments; nothing is claimed for one that samples.
#[verifier::external_body]
fn hf_encode(t: &Tokenizer, text: &str, add_special: bool) -> (r: Result<Vec<u32>, String>)
    ensures
        !tokenizer_samples(t@) ==> match r {
            Ok(ids) => tokenizer_encode(t@, text@, add_special) == Some(ids@),
            Err(_) => tokenizer_encode(t@, text@, add_special) is None,
        },
{
    t.inner.encode(text, add_special).map(|e| e.get_ids().to_vec()).map_err(|e| e.to_string())
}

/// `decode(ids, skip_special)`, the error turned into its message. Claims
/// the text is `tokenizer_decode` of the tokenizer's JSON and the arguments.
#[verifier::external_body]
fn hf_decode(t: &Tokenizer, ids: &[u32], skip_special: bool) -> (r: Result<String, String>)
    ensures
        match r {
            Ok(s) => tokenizer_decode(t@, ids@, skip_special) == Some(s@),
            Err(_) => tokenizer_decode(t@, ids@, skip_special) is None,
        },
{
    t.inner.decode(ids, skip_special).map_err(|e| e.to_string())
}

/// `encode_batch(texts, add_special)` with each encoding's ids read out,
/// the error turned into its message. Claims, for a tokenizer that does not
/// sample, that the ids are `tokenizer_encode_batch` of the tokenizer's JSON
/// and the arguments; nothing is claimed for one that samples.
#[verifier::external_body]
fn hf_encode_batch(t: &Tokenizer, texts: &[&str], add_special: bool) -> (r: Result<Vec<Vec<u32>>, String>)
    ensures
        !tokenizer_samples(t@) ==> match r {
            Ok(v) => tokenizer_encode_batch(t@, texts@.map_values(|s: &str| s@), add_special) == Some(v.deep_view()),
            Err(_) => tokenizer_encode_batch(t@, texts@.map_values(|s: &str| s@), add_special) is None,
        },
{
    t.inner.encode_batch(texts.to_vec(), add_special)
        .map(|encodings| encodings.iter().map(|e| e.get_ids().to_vec()).collect())
        .map_err(|e| e.to_string())
}

impl Tokenizer {
    /// Builds a tokenizer from the text of a `tokenizer.json` file and the
    /// special token ids found in the model's configuration files (see
    /// [`special_tokens_from_configs`]); those ids are used only for
    /// vocabularies of LLaMA 2 size.
    pub fn from_json(json: &str, config_tokens: Option<(u32, u32, u32)>) -> (r: Result<Tokenizer, String>)
        ensures
            r is Ok <==> tokenizer_json_loads(json@),
            r matches Ok(t) ==> {
                &&& t@ == json@
                &&& (t.spec_bos(), t.spec_eos(), t.spec_pad(), t.spec_chat_format())
                    == special_tokens_for(tokenizer_vocab_size(json@), config_tokens)
                &&& tokenizer_vocab_size(json@) > 100000 ==> t.spec_bos() == 128000 && t.spec_eos() == 128001
                    && t.spec_pad() == 128002 && t.spec_chat_format() == ChatFormat::Llama3
            },
    {
        let inner = match hf_from_json(json) {
            Ok(inner) => inner,
            Err(e) => {
                let mut msg = String::from_str("Failed to load tokenizer: ");
                push_str(&mut msg, e.as_str());
                return Err(msg);
            },
        };
        let mut t = Tokenizer {
            inner,
            source: Ghost(json@),
            bos_token_id: 1,
            eos_token_id: 2,
            pad_token_id: 0,
            chat_format: ChatFormat::Llama2,
        };
        let vocab_size = hf_vocab_size(&t);
        if vocab_size > LLAMA3_VOCAB_THRESHOLD {
            t.bos_token_id = 128000;
            t.eos_token_id = 128001;
            t.pad_token_id = 128002;
            t.chat_format = ChatFormat::Llama3;
        } else if let Some((b, e, p)) = config_tokens {
            t.bos_token_id = b;
            t.eos_token_id = e;
            t.pad_token_id = p;
        }
        Ok(t)
    }

    pub closed spec fn spec_bos(&self) -> u32 {
        self.bos_token_id
    }

    pub closed spec fn spec_eos(&self) -> u32 {
        self.eos_token_id
    }

    pub closed spec fn spec_pad(&self) -> u32 {
        self.pad_token_id
    }

    pub closed spec fn spec_chat_format(&self) -> ChatFormat {
        self.chat_format
    }

    /// Encode text to token IDs
    pub fn encode(&self, text: &str, add_special_tokens: bool) -> (r: Result<Vec<u32>, String>)
        ensures
            r matches Err(m) ==> starts_with(m@, ENCODE_ERROR_HEAD@),
            !tokenizer_samples(self@) ==> match r {
                Ok(ids) => tokenizer_encode(self@, text@, add_special_tokens) == Some(ids@),
                Err(_) => tokenizer_encode(self@, text@, add_special_tokens) is None,
            },
    {
        match hf_encode(self, text, add_special_tokens) {
            Ok(ids) => Ok(ids),
            Err(e) => {
                let mut msg = String::from_str(ENCODE_ERROR_HEAD);
                push_str(&mut msg, e.as_str());
                assert((ENCODE_ERROR_HEAD@ + e@).take(ENCODE_ERROR_HEAD@.len() as int) == ENCODE_ERROR_HEAD@);
                Err(msg)
            },
        }
    }

    /// Encode text with BOS token prepended
    pub fn encode_with_bos(&self, text: &str) -> (r: Result<Vec<u32>, String>)
        ensures
            r matches Ok(ids) ==> ids.len() >= 1 && ids@[0] == self.spec_bos(),
            r matches Err(m) ==> starts_with(m@, ENCODE_ERROR_HEAD@),
            !tokenizer_samples(self@) ==> match r {
                Ok(ids) => tokenizer_encode(self@, text@, false) matches Some(e)
                    && ids@ == seq![self.spec_bos()] + e,
                Err(_) => tokenizer_encode(self@, text@, false) is None,
            },
    {
        let encoded = self.encode(text, false)?;
        Ok(prepend_token(self.bos_token_id, &encoded))
    }

    /// Decode token IDs to text
    pub fn decode(&self, ids: &[u32], skip_special_tokens: bool) -> (r: Result<String, String>)
        ensures
            r matches Err(m) ==> starts_with(m@, DECODE_ERROR_HEAD@),
            match r {
                Ok(s) => tokenizer_decode(self@, ids@, skip_special_tokens) == Some(s@),
                Err(_) => tokenizer_decode(self@, ids@, skip_special_tokens) is None,
            },
    {
        match hf_decode(self, ids, skip_special_tokens) {
            Ok(s) => Ok(s),
            Err(e) => {
                let mut msg = String::from_str(DECODE_ERROR_HEAD);
                push_str(&mut msg, e.as_str());
                assert((DECODE_ERROR_HEAD@ + e@).take(DECODE_ERROR_HEAD@.len() as int) == DECODE_ERROR_HEAD@);
                Err(msg)
            },
        }
    }

    /// Get BOS token ID
    pub fn bos_token_id(&self) -> (r: u32)
        ensures
            r == self.spec_bos(),
    {
        self.bos_token_id
    }

    /// Get EOS token ID
    pub fn eos_token_id(&self) -> (r: u32)
        ensures
            r == self.spec_eos(),
    {
        self.eos_token_id
    }

    /// Get padding token ID
    pub fn pad_token_id(&self) -> (r: u32)
        ensures
            r == self.spec_pad(),
    {
        self.pad_token_id
    }

    /// Whether the tokenizer's model samples while encoding (BPE dropout or
    /// Unigram `alpha` set); only for one that does not are the ids a
    /// function of the text.
    pub fn samples_when_encoding(&self) -> (r: bool)
        ensures
            r == tokenizer_samples(self@),
    {
        hf_samples(self)
    }

    /// Get vocabulary size
    pub fn vocab_size(&self) -> (r: usize)
        ensures
            r == tokenizer_vocab_size(self@),
    {
        hf_vocab_size(self)
    }

    /// Get chat format
    pub fn chat_format(&self) -> (r: ChatFormat)
        ensures
            r == self.spec_chat_format(),
    {
        self.chat_format
    }

    /// Encode a batch of texts
    pub fn encode_batch(&self, texts: &[&str], add_special_tokens: bool) -> (r: Result<Vec<Vec<u32>>, String>)
        ensures
            r matches Err(m) ==> starts_with(m@, ENCODE_BATCH_ERROR_HEAD@),
            !tokenizer_samples(self@) ==> match r {
                Ok(v) => tokenizer_encode_batch(self@, texts@.map_values(|s: &str| s@), add_special_tokens) == Some(v.deep_view()),
                Err(_) => tokenizer_encode_batch(self@, texts@.map_values(|s: &str| s@), add_special_tokens) is None,
            },
    {
        match hf_encode_batch(self, texts, add_special_tokens) {
            Ok(v) => Ok(v),
            Err(e) => {
                let mut msg = String::from_str(ENCODE_BATCH_ERROR_HEAD);
                push_str(&mut msg, e.as_str());
                assert((ENCODE_BATCH_ERROR_HEAD@ + e@).take(ENCODE_BATCH_ERROR_HEAD@.len() as int) == ENCODE_BATCH_ERROR_HEAD@);
                Err(msg)
            },
        }
    }

    /// Decode a batch of token sequences; the first failure is returned.
    pub fn decode_batch(&self, sequences: &[Vec<u32>], skip_special_tokens: bool) -> (r: Result<Vec<String>, String>)
        ensures
            r is Ok <==> forall|i: int| 0 <= i < sequences.len()
                ==> (#[trigger] tokenizer_decode(self@, sequences@[i]@, skip_special_tokens)) is Some,
            r matches Ok(v) ==> v.len() == sequences.len() && forall|i: int| 0 <= i < v.len()
                ==> tokenizer_decode(self@, sequences@[i]@, skip_special_tokens) == Some(#[trigger] v@[i]@),
    {
        let mut out: Vec<String> = Vec::new();
        let mut i: usize = 0;
        while i < sequences.len()
            invariant
                i <= sequences.len(),
                out.len() == i,
                forall|k: int| 0 <= k < i ==> tokenizer_decode(self@, sequences@[k]@, skip_special_tokens) == Some(#[trigger] out@[k]@),
            decreases sequences.len() - i,
        {
            match self.decode(sequences[i].as_slice(), skip_special_tokens) {
                Ok(s) => {
                    out.push(s);
                    i += 1;
                },
                Err(e) => {
                    assert(tokenizer_decode(self@, sequences@[i as int]@, skip_special_tokens) is None);
                    return Err(e);
                },
            }
        }
        assert forall|k: int| 0 <= k < sequences.len() implies (#[trigger] tokenizer_decode(self@, sequences@[k]@, skip_special_tokens)) is Some by {
            assert(tokenizer_decode(self@, sequences@[k]@, skip_special_tokens) == Some(out@[k]@));
        }
        Ok(out)
    }

    /// Truncate tokens to a maximum length
    pub fn truncate(&self, tokens: Vec<u32>, max_length: usize) -> (r: Vec<u32>)
        ensures
            r@ == if tokens.len() <= max_length { tokens@ } else { tokens@.take(max_length as int) },
    {
        truncate_tokens(tokens, max_length)
    }

    /// Pad tokens to a specific length with the padding id, on the left or
    /// on the right; sequences already that long are returned unchanged.
    pub fn pad(&self, tokens: Vec<u32>, target_length: usize, pad_left: bool) -> (r: Vec<u32>)
        ensures
            r@ == padded(tokens@, target_length as nat, self.spec_pad(), pad_left),
    {
        pad_tokens(tokens, target_length, self.pad_token_id, pad_left)
    }

    /// Create an attention mask for a sequence: 0 where the id is the padding
    /// id, 1 elsewhere.
    pub fn create_attention_mask(&self, tokens: &[u32]) -> (r: Vec<u32>)
        ensures
            r.len() == tokens.len(),
            forall|i: int| 0 <= i < tokens.len() ==> #[trigger] r@[i] == if tokens@[i] == self.spec_pad() { 0u32 } else { 1u32 },
            r@ == mask_of(tokens@, self.spec_pad()),
    {
        attention_mask(tokens, self.pad_token_id)
    }
}

/// `first` followed by `rest`.
pub fn prepend_token(first: u32, rest: &[u32]) -> (r: Vec<u32>)
    ensures
        r@ == seq![first] + rest@,
{
    let mut out: Vec<u32> = Vec::new();
    out.push(first);
    let mut i: usize = 0;
    while i < rest.len()
        invariant
            i <= rest.len(),
            out@ == seq![first] + rest@.take(i as int),
        decreases rest.len() - i,
    {
        out.push(rest[i]);
        i += 1;
        assert(rest@.take(i as int) == rest@.take(i - 1).push(rest@[i - 1]));
    }
    assert(rest@.take(rest.len() as int) == rest@);
    out
}

/// The first `max_length` tokens (all of them when there are fewer).
pub fn truncate_tokens(tokens: Vec<u32>, max_length: usize) -> (r: Vec<u32>)
    ensures
        r@ == if tokens.len() <= max_length { tokens@ } else { tokens@.take(max_length as int) },
{
    if tokens.len() <= max_length {
        tokens
    } else {
        let mut out: Vec<u32> = Vec::new();
        let mut i: usize = 0;
        while i < max_length
            invariant
                i <= max_length < tokens.len(),
                out@ == tokens@.take(i as int),
            decreases max_length - i,
        {
            out.push(tokens[i]);
            i += 1;
            assert(tokens@.take(i as int) == tokens@.take(i - 1).push(tokens@[i - 1]));
        }
        out
    }
}

/// `tokens` padded with `pad` up to `target` elements.
pub open spec fn padded(tokens: Seq<u32>, target: nat, pad: u32, pad_left: bool) -> Seq<u32> {
    if tokens.len() >= target {
        tokens
    } else {
        let padding = Seq::new((target - tokens.len()) as nat, |_i: int| pad);
        if pad_left {
            padding + tokens
        } else {
            tokens + padding
        }
    }
}

/// Pads `tokens` with `pad` to `target_length`.
pub fn pad_tokens(tokens: Vec<u32>, target_length: usize, pad: u32, pad_left: bool) -> (r: Vec<u32>)
    ensures
        r@ == padded(tokens@, target_length as nat, pad, pad_left),
{
    if tokens.len() >= target_length {
        return tokens;
    }
    let count: usize = target_length - tokens.len();
    let ghost padding = Seq::new(count as nat, |_i: int| pad);
    let mut out: Vec<u32> = Vec::new();
    if !pad_left {
        let mut i: usize = 0;
        while i < tokens.len()
            invariant
                i <= tokens.len(),
                out@ == tokens@.take(i as int),
            decreases tokens.len() - i,
        {
            out.push(tokens[i]);
            i += 1;
            assert(tokens@.take(i as int) == tokens@.take(i - 1).push(tokens@[i - 1]));
        }
        assert(tokens@.take(tokens.len() as int) == tokens@);
    }
    let ghost before = out@;
    let mut j: usize = 0;
    while j < count
        invariant
            j <= count,
            out@ == before + padding.take(j as int),
            padding == Seq::new(count as nat, |_i: int| pad),
        decreases count - j,
    {
        out.push(pad);
        j += 1;
        assert(padding.take(j as int) == padding.take(j - 1).push(pad));
    }
    assert(padding.take(count as int) == padding);
    if pad_left {
        let ghost mid = out@;
        let mut i: usize = 0;
        while i < tokens.len()
            invariant
                i <= tokens.len(),
                out@ == mid + tokens@.take(i as int),
            decreases tokens.len() - i,
        {
            out.push(tokens[i]);
            i += 1;
            assert(tokens@.take(i as int) == tokens@.take(i - 1).push(tokens@[i - 1]));
        }
        assert(tokens@.take(tokens.len() as int) == tokens@);
    }
    out
}

/// 0 at padding positions, 1 elsewhere.
pub fn attention_mask(tokens: &[u32], pad: u32) -> (r: Vec<u32>)
    ensures
        r.len() == tokens.len(),
        forall|i: int| 0 <= i < tokens.len() ==> #[trigger] r@[i] == if tokens@[i] == pad { 0u32 } else { 1u32 },
        r@ == mask_of(tokens@, pad),
{
    let mut out: Vec<u32> = Vec::new();
    let mut i: usize = 0;
    while i < tokens.len()
        invariant
            i <= tokens.len(),
            out.len() == i,
            forall|k: int| 0 <= k < i ==> #[trigger] out@[k] == if tokens@[k] == pad { 0u32 } else { 1u32 },
        decreases tokens.len() - i,
    {
        let m: u32 = if tokens[i] == pad { 0 } else { 1 };
        out.push(m);
        i += 1;
    }
    out
}


/// Opening of the LLaMA 2 / TinyLlama summarization prompt, up to the word count.
pub const LLAMA2_PROMPT_HEAD: &'static str = "<s>[INST] <<SYS>>\nYou are a helpful assistant that summarizes text. Provide concise, accurate summaries that capture the key points.\n<</SYS>>\n\nPlease provide a summary of the following text in approximately ";

/// Between the word count and the text to summarize.
pub const PROMPT_REQUEST_MIDDLE: &'static str = " words. Focus on the main ideas and key information.\n\nText to summarize:\n\n";

/// Closing of the LLaMA 2 prompt.
pub const LLAMA2_PROMPT_TAIL: &'static str = " [/INST]";

/// The system instruction of the LLaMA 3 prompt.
pub const SUMMARIZER_SYSTEM_MESSAGE: &'static str = "You are a helpful assistant that summarizes text. Provide concise, accurate summaries that capture the key points.";

/// Start of the user request of the LLaMA 3 prompt, up to the word count.
pub const LLAMA3_REQUEST_HEAD: &'static str = "Please provide a summary of the following text in approximately ";

/// LLaMA 3 stream opening.
pub const LLAMA3_BEGIN: &'static str = "<|begin_of_text|>";

/// LLaMA 3 system header.
pub const LLAMA3_SYSTEM_HEADER: &'static str = "<|start_header_id|>system<|end_header_id|>\n\n";

/// LLaMA 3 user header.
pub const LLAMA3_USER_HEADER: &'static str = "<|start_header_id|>user<|end_header_id|>\n\n";

/// LLaMA 3 end of a turn.
pub const LLAMA3_END_OF_TURN: &'static str = "<|eot_id|>";

/// LLaMA 3 assistant header: the model answers after it.
pub const LLAMA3_ASSISTANT_HEADER: &'static str = "<|start_header_id|>assistant<|end_header_id|>\n\n";

/// The LLaMA 2 / TinyLlama summarization prompt for `text` and `words`.
pub open spec fn llama2_prompt(text: Seq<char>, words: nat) -> Seq<char> {
    LLAMA2_PROMPT_HEAD@ + decimal(words) + PROMPT_REQUEST_MIDDLE@ + text + LLAMA2_PROMPT_TAIL@
}

/// The user request of the LLaMA 3 prompt.
pub open spec fn llama3_request(text: Seq<char>, words: nat) -> Seq<char> {
    LLAMA3_REQUEST_HEAD@ + decimal(words) + PROMPT_REQUEST_MIDDLE@ + text
}

/// The LLaMA 3 summarization prompt: system turn, user turn, open assistant turn.
pub open spec fn llama3_prompt(text: Seq<char>, words: nat) -> Seq<char> {
    LLAMA3_BEGIN@
        + (LLAMA3_SYSTEM_HEADER@ + SUMMARIZER_SYSTEM_MESSAGE@ + LLAMA3_END_OF_TURN@)
        + (LLAMA3_USER_HEADER@ + llama3_request(text, words) + LLAMA3_END_OF_TURN@)
        + LLAMA3_ASSISTANT_HEADER@
}

/// Both summarization prompts ask for the requested length: the decimal
/// notation of `words` stands right after "in approximately " and right
/// before " words.", and the text to summarize follows "Text to
/// summarize:" and a blank line. The LLaMA 2 prompt opens the instruction
/// with `<s>[INST]` and closes it right after the text with ` [/INST]`; the
/// LLaMA 3 prompt opens with `<|begin_of_text|>` and ends with the open
/// assistant turn.
pub proof fn lemma_prompts_ask_for_length(text: Seq<char>, words: nat)
    ensures
        contains_run(llama2_prompt(text, words), "in approximately "@ + decimal(words) + " words."@),
        contains_run(llama3_prompt(text, words), "in approximately "@ + decimal(words) + " words."@),
        contains_run(llama2_prompt(text, words), "Text to summarize:\n\n"@ + text + " [/INST]"@),
        contains_run(llama3_prompt(text, words), "Text to summarize:\n\n"@ + text + "<|eot_id|>"@),
        llama2_prompt(text, words).take(9) == "<s>[INST]"@,
        ends_with(llama2_prompt(text, words), "\n\n"@ + text + " [/INST]"@),
        llama3_prompt(text, words).take(17) == "<|begin_of_text|>"@,
        ends_with(llama3_prompt(text, words), "<|start_header_id|>assistant<|end_header_id|>\n\n"@),
{
    reveal_strlit("<s>[INST] <<SYS>>\nYou are a helpful assistant that summarizes text. Provide concise, accurate summaries that capture the key points.\n<</SYS>>\n\nPlease provide a summary of the following text in approximately ");
    reveal_strlit(" words. Focus on the main ideas and key information.\n\nText to summarize:\n\n");
    reveal_strlit(" [/INST]");
    reveal_strlit("Please provide a summary of the following text in approximately ");
    reveal_strlit("<|begin_of_text|>");
    reveal_strlit("<|eot_id|>");
    reveal_strlit("<|start_header_id|>assistant<|end_header_id|>\n\n");
    reveal_strlit("in approximately ");
    reveal_strlit(" words.");
    reveal_strlit("Text to summarize:\n\n");
    reveal_strlit("\n\n");
    reveal_strlit("<s>[INST]");
    let d = decimal(words);
    let head2 = LLAMA2_PROMPT_HEAD@;
    let mid = PROMPT_REQUEST_MIDDLE@;
    let head3 = LLAMA3_REQUEST_HEAD@;
    let ask = "in approximately "@;
    let wrd = " words."@;
    let tts = "Text to summarize:\n\n"@;
    assert(head2.skip(head2.len() - ask.len()) =~= ask);
    assert(head3.skip(head3.len() - ask.len()) =~= ask);
    assert(mid.take(wrd.len() as int) =~= wrd);
    assert(mid.skip(mid.len() - tts.len()) =~= tts);
    // LLaMA 2
    let p2 = llama2_prompt(text, words);
    let run2 = ask + d + wrd;
    let s2 = head2.len() - ask.len();
    assert(p2.subrange(s2, s2 + run2.len()) =~= run2);
    let run2b = tts + text + LLAMA2_PROMPT_TAIL@;
    let t2 = head2.len() + d.len() + mid.len() - tts.len();
    assert(p2.subrange(t2, t2 + run2b.len()) =~= run2b);
    assert(p2.take(9) =~= "<s>[INST]"@);
    let end2 = "\n\n"@ + text + " [/INST]"@;
    assert(p2.skip(p2.len() - end2.len()) =~= end2);
    // LLaMA 3
    let p3 = llama3_prompt(text, words);
    let pre = LLAMA3_BEGIN@ + (LLAMA3_SYSTEM_HEADER@ + SUMMARIZER_SYSTEM_MESSAGE@ + LLAMA3_END_OF_TURN@) + LLAMA3_USER_HEADER@;
    assert(p3 =~= pre + (head3 + d + mid + text) + LLAMA3_END_OF_TURN@ + LLAMA3_ASSISTANT_HEADER@);
    let s3 = pre.len() + head3.len() - ask.len();
    assert(p3.subrange(s3, s3 + run2.len()) =~= run2);
    let run3b = tts + text + LLAMA3_END_OF_TURN@;
    let t3 = pre.len() + head3.len() + d.len() + mid.len() - tts.len();
    assert(p3.subrange(t3, t3 + run3b.len()) =~= run3b);
    assert(p3.take(17) =~= "<|begin_of_text|>"@);
    let end3 = LLAMA3_ASSISTANT_HEADER@;
    assert(p3.skip(p3.len() - end3.len()) =~= end3);
}

/// Chat template for LLaMA models
pub struct ChatTemplate;

impl ChatTemplate {
    /// Format a summarization prompt; the LLaMA 2 / TinyLlama format, the
    /// more widely supported one, is the default.
    pub fn summarization_prompt(text: &str, word_count: usize) -> (r: String)
        ensures
            r@ == llama2_prompt(text@, word_count as nat),
    {
        Self::summarization_prompt_llama2(text, word_count)
    }

    /// Format for LLaMA 2 / TinyLlama
    pub fn summarization_prompt_llama2(text: &str, word_count: usize) -> (r: String)
        ensures
            r@ == llama2_prompt(text@, word_count as nat),
    {
        let mut s = String::from_str(LLAMA2_PROMPT_HEAD);
        let n = u64_to_decimal(word_count as u64);
        push_str(&mut s, n.as_str());
        push_str(&mut s, PROMPT_REQUEST_MIDDLE);
        push_str(&mut s, text);
        push_str(&mut s, LLAMA2_PROMPT_TAIL);
        s
    }

    /// Format for LLaMA 3
    pub fn summarization_prompt_llama3(text: &str, word_count: usize) -> (r: String)
        ensures
            r@ == llama3_prompt(text@, word_count as nat),
    {
        let system = Self::system_message_llama3(SUMMARIZER_SYSTEM_MESSAGE);
        let mut request = String::from_str(LLAMA3_REQUEST_HEAD);
        let n = u64_to_decimal(word_count as u64);
        push_str(&mut request, n.as_str());
        push_str(&mut request, PROMPT_REQUEST_MIDDLE);
        push_str(&mut request, text);
        let user = Self::user_message_llama3(request.as_str());
        let assistant_start = Self::assistant_start_llama3();
        let mut s = String::from_str(LLAMA3_BEGIN);
        push_str(&mut s, system.as_str());
        push_str(&mut s, user.as_str());
        push_str(&mut s, assistant_start.as_str());
        s
    }

    /// Format a system message (LLaMA 3)
    pub fn system_message_llama3(content: &str) -> (r: String)
        ensures
            r@ == LLAMA3_SYSTEM_HEADER@ + content@ + LLAMA3_END_OF_TURN@,
    {
        let mut s = String::from_str(LLAMA3_SYSTEM_HEADER);
        push_str(&mut s, content);
        push_str(&mut s, LLAMA3_END_OF_TURN);
        s
    }

    /// Format a user message (LLaMA 3)
    pub fn user_message_llama3(content: &str) -> (r: String)
        ensures
            r@ == LLAMA3_USER_HEADER@ + content@ + LLAMA3_END_OF_TURN@,
    {
        let mut s = String::from_str(LLAMA3_USER_HEADER);
        push_str(&mut s, content);
        push_str(&mut s, LLAMA3_END_OF_TURN);
        s
    }

    /// Start assistant response (LLaMA 3)
    pub fn assistant_start_llama3() -> (r: String)
        ensures
            r@ == LLAMA3_ASSISTANT_HEADER@,
    {
        String::from_str(LLAMA3_ASSISTANT_HEADER)
    }
}


/// Padding to a length and then truncating to it always gives exactly that
/// length, the original tokens first: the two make a batch row of a fixed
/// size.
pub proof fn lemma_pad_truncate_fixed_length(tokens: Seq<u32>, n: nat, pad: u32)
    ensures
        ({
            let p = padded(tokens, n, pad, false);
            let t = if p.len() <= n { p } else { p.take(n as int) };
            &&& t.len() == n
            &&& forall|i: int| 0 <= i < n && i < tokens.len() ==> t[i] == tokens[i]
            &&& forall|i: int| tokens.len() <= i < n ==> t[i] == pad
        }),
{
}

/// Padding never shortens a sequence, keeps the original tokens in place
/// (after the padding when padding on the left), and fills the rest with
/// the padding id.
pub proof fn lemma_padded_shape(tokens: Seq<u32>, n: nat, pad: u32, pad_left: bool)
    ensures
        ({
            let p = padded(tokens, n, pad, pad_left);
            let extra = if tokens.len() >= n { 0 } else { n - tokens.len() };
            &&& p.len() == tokens.len() + extra
            &&& !pad_left ==> forall|i: int| 0 <= i < tokens.len() ==> #[trigger] p[i] == tokens[i]
            &&& !pad_left ==> forall|i: int| tokens.len() <= i < p.len() ==> #[trigger] p[i] == pad
            &&& pad_left ==> forall|i: int| 0 <= i < tokens.len() ==> p[i + extra] == #[trigger] tokens[i]
            &&& pad_left ==> forall|i: int| 0 <= i < extra ==> #[trigger] p[i] == pad
        }),
{
}

/// The attention mask of a sequence: 0 at padding tokens, 1 elsewhere.
pub open spec fn mask_of(tokens: Seq<u32>, pad: u32) -> Seq<u32> {
    Seq::new(tokens.len(), |i: int| if tokens[i] == pad { 0u32 } else { 1u32 })
}

/// The sum of a mask's entries.
pub open spec fn mask_sum(m: Seq<u32>) -> int
    decreases m.len(),
{
    if m.len() == 0 {
        0
    } else {
        mask_sum(m.drop_last()) + m.last()
    }
}

proof fn lemma_mask_count_concat(a: Seq<u32>, b: Seq<u32>, pad: u32)
    ensures
        mask_sum(mask_of(a + b, pad)) == mask_sum(mask_of(a, pad)) + mask_sum(mask_of(b, pad)),
    decreases b.len(),
{
    if b.len() == 0 {
        assert(a + b =~= a);
        assert(mask_of(b, pad) =~= Seq::<u32>::empty());
    } else {
        lemma_mask_count_concat(a, b.drop_last(), pad);
        assert((a + b).drop_last() =~= a + b.drop_last());
        assert(mask_of(a + b, pad).drop_last() =~= mask_of(a + b.drop_last(), pad));
        assert(mask_of(b, pad).drop_last() =~= mask_of(b.drop_last(), pad));
    }
}

proof fn lemma_mask_count_uniform(s: Seq<u32>, pad: u32)
    ensures
        (forall|i: int| 0 <= i < s.len() ==> s[i] != pad) ==> mask_sum(mask_of(s, pad)) == s.len(),
        (forall|i: int| 0 <= i < s.len() ==> s[i] == pad) ==> mask_sum(mask_of(s, pad)) == 0,
    decreases s.len(),
{
    if s.len() > 0 {
        lemma_mask_count_uniform(s.drop_last(), pad);
        assert(mask_of(s, pad).drop_last() =~= mask_of(s.drop_last(), pad));
    }
}

/// Padding then masking marks exactly the original tokens: when no token
/// is the padding id, the mask of the padded sequence is as long as that
/// sequence, is 0 exactly at the padding, and adds up to the number of
/// tokens.
pub proof fn lemma_mask_of_padded(tokens: Seq<u32>, n: nat, pad: u32, pad_left: bool)
    requires
        forall|i: int| 0 <= i < tokens.len() ==> tokens[i] != pad,
    ensures
        ({
            let p = padded(tokens, n, pad, pad_left);
            let m = mask_of(p, pad);
            &&& m.len() == p.len()
            &&& forall|i: int| 0 <= i < p.len() ==> #[trigger] m[i] == if p[i] == pad { 0u32 } else { 1u32 }
            &&& mask_sum(m) == tokens.len()
        }),
{
    lemma_mask_count_uniform(tokens, pad);
    if tokens.len() < n {
        let padding = Seq::new((n - tokens.len()) as nat, |_i: int| pad);
        lemma_mask_count_uniform(padding, pad);
        if pad_left {
            lemma_mask_count_concat(padding, tokens, pad);
        } else {
            lemma_mask_count_concat(tokens, padding, pad);
        }
    }
}

} // verus!
