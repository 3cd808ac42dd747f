//! Model Validator: decides whether a model directory is complete and usable.
//!
//! The directory is read by the caller into a [`ModelDirSnapshot`]: which of
//! the expected files exist, the directory listing, and the text of the
//! configuration and tokenizer files. The decision is made here.

use vstd::prelude::*;
use crate::error::io_error_text;
use crate::json::{json_has_member, json_parses, json_string_member, JsonDocument};
use crate::numfmt::{fixed2, format_fixed2, f64_value, push_str, to_f64_value, lemma_known_pows, lemma_f64_value_bound, lemma_bit_len, lemma_two_pow_mono, bit_len};
use crate::text::{push_string, into_reversed, contains_run, decimal, ends_with, join, sort_strings, sorted_lex, str_contains, str_ends_with, u64_to_decimal};
use crate::paths::{path_debug, with_path};
use crate::error::starts_with;

verus! {

pub const CONFIG_FILE: &'static str = "config.json";
pub const TOKENIZER_FILE: &'static str = "tokenizer.json";
pub const TOKENIZER_CONFIG_FILE: &'static str = "tokenizer_config.json";
pub const SPECIAL_TOKENS_MAP_FILE: &'static str = "special_tokens_map.json";
pub const GENERATION_CONFIG_FILE: &'static str = "generation_config.json";
pub const WEIGHT_SUFFIX: &'static str = ".safetensors";

/// Number of required files.
pub const REQUIRED_FILE_COUNT: usize = 2;
/// Number of optional but recommended files.
pub const OPTIONAL_FILE_COUNT: usize = 3;

/// Required files for a valid LLaMA model, by position.
pub open spec fn required_file(i: int) -> Seq<char> {
    if i == 0 { CONFIG_FILE@ } else { TOKENIZER_FILE@ }
}

/// Optional but recommended files, by position.
pub open spec fn optional_file(i: int) -> Seq<char> {
    if i == 0 {
        TOKENIZER_CONFIG_FILE@
    } else if i == 1 {
        SPECIAL_TOKENS_MAP_FILE@
    } else {
        GENERATION_CONFIG_FILE@
    }
}

/// Name of the `i`-th required file.
pub fn required_file_name(i: usize) -> (r: &'static str)
    requires
        i < REQUIRED_FILE_COUNT,
    ensures
        r@ == required_file(i as int),
{
    if i == 0 { CONFIG_FILE } else { TOKENIZER_FILE }
}

/// Name of the `i`-th optional file.
pub fn optional_file_name(i: usize) -> (r: &'static str)
    requires
        i < OPTIONAL_FILE_COUNT,
    ensures
        r@ == optional_file(i as int),
{
    if i == 0 {
        TOKENIZER_CONFIG_FILE
    } else if i == 1 {
        SPECIAL_TOKENS_MAP_FILE
    } else {
        GENERATION_CONFIG_FILE
    }
}

/// What the file system says about one directory entry.
pub struct EntryMeta {
    pub is_file: bool,
    pub len: u64,
}

/// One entry of the model directory's listing.
pub struct EntryInfo {
    /// The entry's file name, when it is valid UTF-8.
    pub name: Option<String>,
    /// The entry's metadata, or the error reading it.
    pub metadata: Result<EntryMeta, std::io::Error>,
}

/// What the caller read from a model directory.
pub struct ModelDirSnapshot {
    /// The directory's path.
    pub path: String,
    /// Whether the path exists.
    pub exists: bool,
    /// Whether the path is a directory.
    pub is_dir: bool,
    /// For each required file, in order: `None` when it does not exist,
    /// otherwise its length or the error reading its metadata.
    pub required: Vec<Option<Result<u64, std::io::Error>>>,
    /// For each optional file, in order: whether it exists.
    pub optional: Vec<bool>,
    /// The directory listing, or the error reading it.
    pub entries: Result<Vec<EntryInfo>, std::io::Error>,
    /// `config.json`'s text when the file exists, or the error reading it.
    pub config_text: Option<Result<String, std::io::Error>>,
    /// `tokenizer.json`'s text when the file exists, or the error reading it.
    pub tokenizer_text: Option<Result<String, std::io::Error>>,
}

/// A snapshot has one probe per required and per optional file.
pub open spec fn snapshot_well_formed(s: ModelDirSnapshot) -> bool {
    s.required.len() == REQUIRED_FILE_COUNT && s.optional.len() == OPTIONAL_FILE_COUNT
}

/// Nothing in the snapshot failed to be read.
pub open spec fn snapshot_readable(s: ModelDirSnapshot) -> bool {
    &&& forall|i: int| 0 <= i < s.required.len() ==> !(#[trigger] s.required@[i] matches Some(Err(_)))
    &&& s.entries matches Ok(es) && forall|i: int| 0 <= i < es.len() ==> (#[trigger] es@[i]).metadata is Ok
    &&& !(s.config_text matches Some(Err(_)))
    &&& !(s.tokenizer_text matches Some(Err(_)))
}

/// The configuration and tokenizer texts that were read are JSON.
pub open spec fn snapshot_json_ok(s: ModelDirSnapshot) -> bool {
    &&& s.config_text matches Some(Ok(t)) ==> json_parses(t@)
    &&& s.tokenizer_text matches Some(Ok(t)) ==> json_parses(t@)
}

pub const MISSING_REQUIRED_PREFIX: &'static str = "Missing required file: ";
pub const EMPTY_REQUIRED_PREFIX: &'static str = "Required file is empty: ";
pub const MISSING_OPTIONAL_PREFIX: &'static str = "Missing optional file: ";
pub const NO_WEIGHTS_MESSAGE: &'static str = "No model weight files found (.safetensors)";
pub const MISSING_FIELD_PREFIX: &'static str = "config.json missing field: ";
pub const MODEL_TYPE_PREFIX: &'static str = "Model type '";
pub const MODEL_TYPE_SUFFIX: &'static str = "' may not be compatible with LLaMA implementation";
pub const LLAMA_MARKER: &'static str = "llama";

/// Required files found, in order.
pub open spec fn required_present(req: Seq<Option<Result<u64, std::io::Error>>>, n: nat) -> Seq<Seq<char>>
    decreases n,
{
    if n == 0 {
        seq![]
    } else {
        let prev = required_present(req, (n - 1) as nat);
        if req[n - 1] is Some { prev.push(required_file(n - 1)) } else { prev }
    }
}

/// Required files missing, in order.
pub open spec fn required_missing(req: Seq<Option<Result<u64, std::io::Error>>>, n: nat) -> Seq<Seq<char>>
    decreases n,
{
    if n == 0 {
        seq![]
    } else {
        let prev = required_missing(req, (n - 1) as nat);
        if req[n - 1] is None { prev.push(required_file(n - 1)) } else { prev }
    }
}

/// Errors about required files: missing ones, and empty ones.
pub open spec fn required_errors(req: Seq<Option<Result<u64, std::io::Error>>>, n: nat) -> Seq<Seq<char>>
    decreases n,
{
    if n == 0 {
        seq![]
    } else {
        let prev = required_errors(req, (n - 1) as nat);
        match req[n - 1] {
            None => prev.push(MISSING_REQUIRED_PREFIX@ + required_file(n - 1)),
            Some(Ok(len)) => if len == 0 { prev.push(EMPTY_REQUIRED_PREFIX@ + required_file(n - 1)) } else { prev },
            Some(Err(_)) => prev,
        }
    }
}

/// Optional files found, in order.
pub open spec fn optional_present(opt: Seq<bool>, n: nat) -> Seq<Seq<char>>
    decreases n,
{
    if n == 0 {
        seq![]
    } else {
        let prev = optional_present(opt, (n - 1) as nat);
        if opt[n - 1] { prev.push(optional_file(n - 1)) } else { prev }
    }
}

/// Warnings about optional files that are missing, in order.
pub open spec fn optional_warnings(opt: Seq<bool>, n: nat) -> Seq<Seq<char>>
    decreases n,
{
    if n == 0 {
        seq![]
    } else {
        let prev = optional_warnings(opt, (n - 1) as nat);
        if opt[n - 1] { prev } else { prev.push(MISSING_OPTIONAL_PREFIX@ + optional_file(n - 1)) }
    }
}

/// Names of the listing's weight files (`*.safetensors`), in listing order.
pub open spec fn weight_names(es: Seq<EntryInfo>, n: nat) -> Seq<Seq<char>>
    decreases n,
{
    if n == 0 {
        seq![]
    } else {
        let prev = weight_names(es, (n - 1) as nat);
        match es[n - 1].name {
            Some(s) => if ends_with(s@, WEIGHT_SUFFIX@) { prev.push(s@) } else { prev },
            None => prev,
        }
    }
}

/// Total length of the listing's regular files.
pub open spec fn file_size_sum(es: Seq<EntryInfo>, n: nat) -> nat
    decreases n,
{
    if n == 0 {
        0
    } else {
        let prev = file_size_sum(es, (n - 1) as nat);
        match es[n - 1].metadata {
            Ok(m) => if m.is_file { prev + m.len as nat } else { prev },
            Err(_) => prev,
        }
    }
}

/// The listing of a snapshot, empty when it could not be read.
pub open spec fn listing(s: ModelDirSnapshot) -> Seq<EntryInfo> {
    match s.entries {
        Ok(es) => es@,
        Err(_) => seq![],
    }
}

/// Fields every LLaMA `config.json` should have.
pub open spec fn config_field(i: int) -> Seq<char> {
    if i == 0 {
        "hidden_size"@
    } else if i == 1 {
        "num_hidden_layers"@
    } else if i == 2 {
        "num_attention_heads"@
    } else {
        "vocab_size"@
    }
}

/// Warnings about the fields a configuration text lacks, in order.
pub open spec fn missing_field_warnings(text: Seq<char>, n: nat) -> Seq<Seq<char>>
    decreases n,
{
    if n == 0 {
        seq![]
    } else {
        let prev = missing_field_warnings(text, (n - 1) as nat);
        if json_has_member(text, config_field(n - 1)) { prev } else { prev.push(MISSING_FIELD_PREFIX@ + config_field(n - 1)) }
    }
}

/// `str::to_lowercase` of `s`.
pub uninterp spec fn lowercase(s: Seq<char>) -> Seq<char>;

/// `str::to_lowercase`. Claims the result is `lowercase` of the argument.
#[verifier::external_body]
fn to_lowercase(s: &str) -> (r: String)
    ensures
        r@ == lowercase(s@),
{
    s.to_lowercase()
}

/// The warning about a model type that does not look like LLaMA.
pub open spec fn model_type_warning(t: Seq<char>) -> Seq<char> {
    MODEL_TYPE_PREFIX@ + t + MODEL_TYPE_SUFFIX@
}

/// Warnings drawn from the configuration text: missing fields, then a
/// model type that does not mention LLaMA.
pub open spec fn config_warnings(text: Seq<char>) -> Seq<Seq<char>> {
    let fields = missing_field_warnings(text, 4);
    match json_string_member(text, "model_type"@) {
        Some(t) => if contains_run(lowercase(t), LLAMA_MARKER@) { fields } else { fields.push(model_type_warning(t)) },
        None => fields,
    }
}

/// Every missing-field warning begins with `c` (`config.json ...`).
proof fn lemma_missing_field_warnings_start(text: Seq<char>, n: nat)
    ensures
        forall|i: int| 0 <= i < missing_field_warnings(text, n).len()
            ==> (#[trigger] missing_field_warnings(text, n)[i]).len() > 0 && missing_field_warnings(text, n)[i][0] == 'c',
    decreases n,
{
    reveal_strlit("config.json missing field: ");
    if n > 0 {
        lemma_missing_field_warnings_start(text, (n - 1) as nat);
        let prev = missing_field_warnings(text, (n - 1) as nat);
        let w = MISSING_FIELD_PREFIX@ + config_field(n - 1);
        assert(w[0] == 'c');
        if !json_has_member(text, config_field(n - 1)) {
            assert forall|i: int| 0 <= i < prev.push(w).len() implies (#[trigger] prev.push(w)[i]).len() > 0 && prev.push(w)[i][0] == 'c' by {
                if i < prev.len() {
                    assert(prev.push(w)[i] == prev[i]);
                }
            }
        }
    }
}

/// A configuration whose model type mentions LLaMA (in any letter case)
/// draws no model-type warning; one whose model type does not draws
/// exactly one, the last, naming the type; without a model type there is
/// none. A configuration with all four fields and a LLaMA model type draws
/// no warning at all.
pub proof fn lemma_model_type_warning(text: Seq<char>)
    ensures
        match json_string_member(text, "model_type"@) {
            Some(t) => if contains_run(lowercase(t), "llama"@) {
                &&& forall|i: int| 0 <= i < config_warnings(text).len()
                    ==> !starts_with(#[trigger] config_warnings(text)[i], "Model type '"@)
                &&& json_has_member(text, "hidden_size"@) && json_has_member(text, "num_hidden_layers"@)
                    && json_has_member(text, "num_attention_heads"@) && json_has_member(text, "vocab_size"@)
                    ==> config_warnings(text).len() == 0
            } else {
                &&& config_warnings(text).len() >= 1
                &&& config_warnings(text).last() == "Model type '"@ + t + "' may not be compatible with LLaMA implementation"@
                &&& forall|i: int| 0 <= i < config_warnings(text).len() - 1
                    ==> !starts_with(#[trigger] config_warnings(text)[i], "Model type '"@)
            },
            None => forall|i: int| 0 <= i < config_warnings(text).len()
                ==> !starts_with(#[trigger] config_warnings(text)[i], "Model type '"@),
        },
{
    reveal_strlit("Model type '");
    reveal_strlit("llama");
    lemma_missing_field_warnings_start(text, 4);
    let fields = missing_field_warnings(text, 4);
    assert forall|i: int| 0 <= i < fields.len() implies !starts_with(#[trigger] fields[i], "Model type '"@) by {
        if starts_with(fields[i], "Model type '"@) {
            assert(fields[i].take(12)[0] == fields[i][0]);
        }
    }
    assert(LLAMA_MARKER@ == "llama"@);
    assert(MODEL_TYPE_PREFIX@ == "Model type '"@);
    assert(MODEL_TYPE_SUFFIX@ == "' may not be compatible with LLaMA implementation"@);
    assert(missing_field_warnings(text, 0) == Seq::<Seq<char>>::empty());
    if json_has_member(text, "hidden_size"@) && json_has_member(text, "num_hidden_layers"@)
        && json_has_member(text, "num_attention_heads"@) && json_has_member(text, "vocab_size"@) {
        assert(config_field(0) == "hidden_size"@);
        assert(config_field(1) == "num_hidden_layers"@);
        assert(config_field(2) == "num_attention_heads"@);
        assert(config_field(3) == "vocab_size"@);
        assert(missing_field_warnings(text, 1) == missing_field_warnings(text, 0));
        assert(missing_field_warnings(text, 2) == missing_field_warnings(text, 1));
        assert(missing_field_warnings(text, 3) == missing_field_warnings(text, 2));
        assert(fields == missing_field_warnings(text, 3));
    }
    match json_string_member(text, "model_type"@) {
        Some(t) => {
            if !contains_run(lowercase(t), "llama"@) {
                let w = model_type_warning(t);
                assert(config_warnings(text) == fields.push(w));
                assert forall|i: int| 0 <= i < fields.push(w).len() - 1 implies !starts_with(#[trigger] fields.push(w)[i], "Model type '"@) by {
                    assert(fields.push(w)[i] == fields[i]);
                }
            }
        },
        None => {},
    }
}

/// The model type named by the configuration text.
pub open spec fn config_model_type(s: ModelDirSnapshot) -> Option<Seq<char>> {
    match s.config_text {
        Some(Ok(t)) => json_string_member(t@, "model_type"@),
        _ => None,
    }
}

/// All errors the snapshot shows.
pub open spec fn snapshot_errors(s: ModelDirSnapshot) -> Seq<Seq<char>> {
    let req = required_errors(s.required@, REQUIRED_FILE_COUNT as nat);
    if weight_names(listing(s), listing(s).len()).len() == 0 { req.push(NO_WEIGHTS_MESSAGE@) } else { req }
}

/// All warnings the snapshot shows.
pub open spec fn snapshot_warnings(s: ModelDirSnapshot) -> Seq<Seq<char>> {
    let opt = optional_warnings(s.optional@, OPTIONAL_FILE_COUNT as nat);
    match s.config_text {
        Some(Ok(t)) => opt + config_warnings(t@),
        _ => opt,
    }
}

/// Files found: required, optional, then weight files in listing order.
pub open spec fn snapshot_present(s: ModelDirSnapshot) -> Seq<Seq<char>> {
    required_present(s.required@, REQUIRED_FILE_COUNT as nat)
        + optional_present(s.optional@, OPTIONAL_FILE_COUNT as nat)
        + weight_names(listing(s), listing(s).len())
}

/// Whether validation accepts a readable snapshot: no errors, and in
/// strict mode no warnings either.
pub open spec fn accepts(s: ModelDirSnapshot, strict: bool) -> bool {
    snapshot_errors(s).len() == 0 && (!strict || snapshot_warnings(s).len() == 0)
}

/// Strict mode only ever refuses more: a model directory strict validation
/// accepts is accepted by normal validation too, and both accept exactly
/// the directories without errors when there are no warnings.
pub proof fn lemma_strict_refines_normal(s: ModelDirSnapshot)
    ensures
        accepts(s, true) ==> accepts(s, false),
        snapshot_warnings(s).len() == 0 ==> (accepts(s, true) <==> accepts(s, false)),
        accepts(s, false) <==> snapshot_errors(s).len() == 0,
{
}

/// A readable model directory is accepted by normal validation exactly
/// when `config.json` and `tokenizer.json` are there and not empty and at
/// least one `.safetensors` weight file is listed.
pub proof fn lemma_complete_directory_accepted(s: ModelDirSnapshot)
    requires
        snapshot_well_formed(s),
        snapshot_readable(s),
    ensures
        accepts(s, false) <==> (
            (forall|i: int| 0 <= i < REQUIRED_FILE_COUNT ==> (#[trigger] s.required@[i] matches Some(Ok(len)) && len > 0))
            && weight_names(listing(s), listing(s).len()).len() > 0),
{
    let req = s.required@;
    reveal_with_fuel(required_errors, 3);
    assert(!(req[0] matches Some(Err(_))));
    assert(!(req[1] matches Some(Err(_))));
    let complete = forall|i: int| 0 <= i < REQUIRED_FILE_COUNT ==> (#[trigger] req[i] matches Some(Ok(len)) && len > 0);
    if complete {
        assert(req[0] matches Some(Ok(len)) && len > 0);
        assert(req[1] matches Some(Ok(len)) && len > 0);
        assert(required_errors(req, 2).len() == 0);
    } else {
        let i = choose|i: int| 0 <= i < REQUIRED_FILE_COUNT && !(#[trigger] req[i] matches Some(Ok(len)) && len > 0);
        assert(required_errors(req, 2).len() > 0);
    }
}

/// Model validator
pub struct ModelValidator {
    /// Strict mode - fail on warnings
    pub strict: bool,
}

impl Default for ModelValidator {
    fn default() -> (r: ModelValidator)
        ensures
            !r.strict,
    {
        ModelValidator { strict: false }
    }
}

/// Validation result
#[derive(Debug)]
pub struct ValidationResult {
    /// Whether the model is valid
    pub is_valid: bool,
    /// Files that were found
    pub files_present: Vec<String>,
    /// Required files that are missing
    pub files_missing: Vec<String>,
    /// Weight files found
    pub weight_files: Vec<String>,
    /// Model type from config
    pub model_type: Option<String>,
    /// Total size in bytes
    pub total_size: u64,
    /// Validation errors
    pub errors: Vec<String>,
    /// Validation warnings
    pub warnings: Vec<String>,
}

impl Default for ValidationResult {
    fn default() -> (r: ValidationResult)
        ensures
            !r.is_valid && r.files_present.len() == 0 && r.files_missing.len() == 0
                && r.weight_files.len() == 0 && r.model_type is None && r.total_size == 0
                && r.errors.len() == 0 && r.warnings.len() == 0,
    {
        ValidationResult {
            is_valid: false,
            files_present: Vec::new(),
            files_missing: Vec::new(),
            weight_files: Vec::new(),
            model_type: None,
            total_size: 0,
            errors: Vec::new(),
            warnings: Vec::new(),
        }
    }
}

/// Why validation failed.
#[derive(Debug)]
pub enum ValidationError {
    /// The model path does not exist.
    PathMissing(String),
    /// The model path is not a directory.
    NotADirectory(String),
    /// Reading the directory or a file's metadata failed.
    Io(std::io::Error),
    /// `config.json` could not be read.
    ConfigUnreadable(std::io::Error),
    /// `config.json` is not JSON (the parser's message).
    ConfigInvalid(String),
    /// `tokenizer.json` could not be read.
    TokenizerUnreadable(std::io::Error),
    /// `tokenizer.json` is not JSON (the parser's message).
    TokenizerInvalid(String),
    /// The directory is not a usable model: the errors found.
    Invalid(Vec<String>),
    /// Strict mode and there are warnings: the warnings found.
    StrictWarnings(Vec<String>),
}

pub const VALIDATION_FAILED_HEAD: &'static str = "Model validation failed:\n  - ";
pub const STRICT_FAILED_HEAD: &'static str = "Model validation failed (strict mode):\n  - ";
pub const LIST_SEPARATOR: &'static str = "\n  - ";

/// Text of a failure listing `items`.
pub open spec fn listed_failure(head: Seq<char>, items: Seq<Seq<char>>) -> Seq<char> {
    head + join(items, LIST_SEPARATOR@)
}

fn join_strings(items: &Vec<String>, sep: &str) -> (r: String)
    ensures
        r@ == join(items.deep_view(), sep@),
{
    let mut out = String::new();
    let mut i: usize = 0;
    while i < items.len()
        invariant
            i <= items.len(),
            out@ == join(items.deep_view().take(i as int), sep@),
        decreases items.len() - i,
    {
        let ghost dv = items.deep_view();
        assert(dv.take((i + 1) as int).drop_last() == dv.take(i as int));
        if i > 0 {
            push_str(&mut out, sep);
        } else {
            assert(dv.take(0) == Seq::<Seq<char>>::empty());
        }
        push_str(&mut out, items[i].as_str());
        i += 1;
    }
    assert(items.deep_view().take(items.len() as int) == items.deep_view());
    out
}

impl ValidationError {
    /// The failure's text. A path is shown as `{:?}` shows it; an I/O
    /// failure shows the operating system's text.
    pub fn message(&self) -> (r: String)
        ensures
            self matches ValidationError::Invalid(es) ==> r@ == listed_failure(VALIDATION_FAILED_HEAD@, es.deep_view()),
            self matches ValidationError::StrictWarnings(ws) ==> r@ == listed_failure(STRICT_FAILED_HEAD@, ws.deep_view()),
            self matches ValidationError::PathMissing(p) ==> r@ == "Model path does not exist: "@ + path_debug(p@),
            self matches ValidationError::NotADirectory(p) ==> r@ == "Model path is not a directory: "@ + path_debug(p@),
            self matches ValidationError::ConfigInvalid(m) ==> r@ == "Failed to parse config.json: "@ + m@,
            self matches ValidationError::TokenizerInvalid(m) ==> r@ == "Failed to parse tokenizer.json: "@ + m@,
    {
        match self {
            ValidationError::PathMissing(p) => with_path("Model path does not exist: ", p.as_str()),
            ValidationError::NotADirectory(p) => with_path("Model path is not a directory: ", p.as_str()),
            ValidationError::Io(e) => io_error_text(e),
            ValidationError::ConfigUnreadable(e) => {
                let mut s = String::from_str("Failed to read config.json: ");
                let t = io_error_text(e);
                push_str(&mut s, t.as_str());
                s
            },
            ValidationError::ConfigInvalid(m) => {
                let mut s = String::from_str("Failed to parse config.json: ");
                push_str(&mut s, m.as_str());
                s
            },
            ValidationError::TokenizerUnreadable(e) => {
                let mut s = String::from_str("Failed to read tokenizer.json: ");
                let t = io_error_text(e);
                push_str(&mut s, t.as_str());
                s
            },
            ValidationError::TokenizerInvalid(m) => {
                let mut s = String::from_str("Failed to parse tokenizer.json: ");
                push_str(&mut s, m.as_str());
                s
            },
            ValidationError::Invalid(es) => {
                let mut s = String::from_str(VALIDATION_FAILED_HEAD);
                let body = join_strings(es, LIST_SEPARATOR);
                push_str(&mut s, body.as_str());
                s
            },
            ValidationError::StrictWarnings(ws) => {
                let mut s = String::from_str(STRICT_FAILED_HEAD);
                let body = join_strings(ws, LIST_SEPARATOR);
                push_str(&mut s, body.as_str());
                s
            },
        }
    }
}

/// `prefix` followed by `name`.
fn prefixed(prefix: &str, name: &str) -> (r: String)
    ensures
        r@ == prefix@ + name@,
{
    let mut s = String::from_str(prefix);
    push_str(&mut s, name);
    s
}


pub proof fn lemma_file_size_sum_mono(es: Seq<EntryInfo>, i: nat, n: nat)
    requires
        i <= n,
    ensures
        file_size_sum(es, i) <= file_size_sum(es, n),
    decreases n,
{
    if i < n {
        lemma_file_size_sum_mono(es, i, (n - 1) as nat);
    }
}

/// The name of the `i`-th field every configuration should have.
fn config_field_name(i: usize) -> (r: &'static str)
    requires
        i < 4,
    ensures
        r@ == config_field(i as int),
{
    if i == 0 {
        "hidden_size"
    } else if i == 1 {
        "num_hidden_layers"
    } else if i == 2 {
        "num_attention_heads"
    } else {
        "vocab_size"
    }
}

/// Warnings drawn from a parsed configuration.
fn check_config(doc: &JsonDocument, warnings: &mut Vec<String>) -> (model_type: Option<String>)
    ensures
        final(warnings).deep_view() == old(warnings).deep_view() + config_warnings(doc@),
        match model_type {
            Some(t) => json_string_member(doc@, "model_type"@) == Some(t@),
            None => json_string_member(doc@, "model_type"@) is None,
        },
{
    let ghost start = warnings.deep_view();
    let mut i: usize = 0;
    while i < 4
        invariant
            i <= 4,
            warnings.deep_view() == start + missing_field_warnings(doc@, i as nat),
        decreases 4 - i,
    {
        let field = config_field_name(i);
        if !doc.has_member(field) {
            let w = prefixed(MISSING_FIELD_PREFIX, field);
            push_string(warnings, w);
        }
        i += 1;
    }
    let model_type = doc.string_member("model_type");
    if let Some(t) = &model_type {
        let lower = to_lowercase(t.as_str());
        if !str_contains(lower.as_str(), LLAMA_MARKER) {
            let mut w = String::from_str(MODEL_TYPE_PREFIX);
            push_str(&mut w, t.as_str());
            push_str(&mut w, MODEL_TYPE_SUFFIX);
            push_string(warnings, w);
        }
    }
    model_type
}

impl ModelValidator {
    /// Create a new validator
    pub fn new() -> (r: ModelValidator)
        ensures
            !r.strict,
    {
        ModelValidator { strict: false }
    }

    /// Enable strict validation mode
    pub fn strict(self) -> (r: ModelValidator)
        ensures
            r.strict,
    {
        ModelValidator { strict: true }
    }

    /// Validate a model directory. The directory is valid when both
    /// required files exist and are non-empty and at least one weight file
    /// is present; in strict mode it must also draw no warning.
    pub fn validate(&self, snap: ModelDirSnapshot) -> (r: Result<ValidationResult, ValidationError>)
        requires
            snapshot_well_formed(snap),
            file_size_sum(listing(snap), listing(snap).len()) <= u64::MAX,
        ensures
            !snap.exists ==> (r matches Err(ValidationError::PathMissing(p)) && p@ == snap.path@),
            snap.exists && !snap.is_dir ==> (r matches Err(ValidationError::NotADirectory(p)) && p@ == snap.path@),
            r matches Err(ValidationError::Io(_)) ==> !snapshot_readable(snap),
            r matches Err(ValidationError::ConfigUnreadable(_)) ==> !snapshot_readable(snap),
            r matches Err(ValidationError::TokenizerUnreadable(_)) ==> !snapshot_readable(snap),
            r matches Err(ValidationError::ConfigInvalid(_)) ==> !snapshot_json_ok(snap),
            r matches Err(ValidationError::TokenizerInvalid(_)) ==> !snapshot_json_ok(snap),
            snap.exists && snap.is_dir && snapshot_readable(snap) && snapshot_json_ok(snap) ==> {
                if snapshot_errors(snap).len() > 0 {
                    r matches Err(ValidationError::Invalid(es)) && es.deep_view() == snapshot_errors(snap)
                } else if self.strict && snapshot_warnings(snap).len() > 0 {
                    r matches Err(ValidationError::StrictWarnings(ws)) && ws.deep_view() == snapshot_warnings(snap)
                } else {
                    r is Ok
                }
            },
            snap.exists && snap.is_dir && snapshot_readable(snap) && snapshot_json_ok(snap)
                ==> (r is Ok <==> accepts(snap, self.strict)),
            r matches Ok(res) ==> {
                &&& snapshot_readable(snap) && snapshot_json_ok(snap)
                &&& res.is_valid && res.errors.len() == 0
                &&& res.files_present.deep_view() == snapshot_present(snap)
                &&& res.files_missing.deep_view() == required_missing(snap.required@, REQUIRED_FILE_COUNT as nat)
                &&& sorted_lex(res.weight_files.deep_view())
                &&& res.weight_files.deep_view().to_multiset() == weight_names(listing(snap), listing(snap).len()).to_multiset()
                &&& match res.model_type {
                    Some(t) => config_model_type(snap) == Some(t@),
                    None => config_model_type(snap) is None,
                }
                &&& res.total_size == file_size_sum(listing(snap), listing(snap).len())
                &&& res.warnings.deep_view() == snapshot_warnings(snap)
                &&& self.strict ==> res.warnings.len() == 0
            },
    {
        let ghost s0 = snap;
        let ModelDirSnapshot { path, exists, is_dir, required, optional, entries, config_text, tokenizer_text } = snap;
        if !exists {
            return Err(ValidationError::PathMissing(path));
        }
        if !is_dir {
            return Err(ValidationError::NotADirectory(path));
        }
        let mut files_present: Vec<String> = Vec::new();
        let mut files_missing: Vec<String> = Vec::new();
        let mut errors: Vec<String> = Vec::new();
        let mut warnings: Vec<String> = Vec::new();

        // Required files
        let ghost req = required@;
        let mut probes = into_reversed(required);
        let mut i: usize = 0;
        while i < REQUIRED_FILE_COUNT
            invariant
                s0 == snap,
                s0.exists && s0.is_dir,
                req == s0.required@,
                req.len() == REQUIRED_FILE_COUNT,
                i <= REQUIRED_FILE_COUNT,
                probes.len() + i == REQUIRED_FILE_COUNT,
                forall|k: int| 0 <= k < probes.len() ==> probes@[k] == req[REQUIRED_FILE_COUNT - 1 - k],
                forall|k: int| 0 <= k < i ==> !(#[trigger] req[k] matches Some(Err(_))),
                files_present.deep_view() == required_present(req, i as nat),
                files_missing.deep_view() == required_missing(req, i as nat),
                errors.deep_view() == required_errors(req, i as nat),
            decreases REQUIRED_FILE_COUNT - i,
        {
            let probe = probes.pop().unwrap();
            assert(probe == req[i as int]);
            let name = required_file_name(i);
            match probe {
                None => {
                    push_string(&mut files_missing, String::from_str(name));
                    push_string(&mut errors, prefixed(MISSING_REQUIRED_PREFIX, name));
                },
                Some(Err(e)) => {
                    assert(s0.required@[i as int] matches Some(Err(_)));
                    return Err(ValidationError::Io(e));
                },
                Some(Ok(len)) => {
                    push_string(&mut files_present, String::from_str(name));
                    if len == 0 {
                        push_string(&mut errors, prefixed(EMPTY_REQUIRED_PREFIX, name));
                    }
                },
            }
            i += 1;
        }

        // Optional files
        let ghost present_required = files_present.deep_view();
        let mut j: usize = 0;
        while j < OPTIONAL_FILE_COUNT
            invariant
                optional@ == s0.optional@,
                optional.len() == OPTIONAL_FILE_COUNT,
                j <= OPTIONAL_FILE_COUNT,
                files_present.deep_view() == present_required + optional_present(optional@, j as nat),
                warnings.deep_view() == optional_warnings(optional@, j as nat),
            decreases OPTIONAL_FILE_COUNT - j,
        {
            let name = optional_file_name(j);
            if optional[j] {
                push_string(&mut files_present, String::from_str(name));
            } else {
                push_string(&mut warnings, prefixed(MISSING_OPTIONAL_PREFIX, name));
            }
            j += 1;
        }

        // Weight files
        let es = match entries {
            Ok(es) => es,
            Err(e) => return Err(ValidationError::Io(e)),
        };
        let ghost esv = es@;
        let ghost present_before_weights = files_present.deep_view();
        let mut weight_files: Vec<String> = Vec::new();
        let mut k: usize = 0;
        while k < es.len()
            invariant
                esv == es@,
                k <= es.len(),
                files_present.deep_view() == present_before_weights + weight_names(esv, k as nat),
                weight_files.deep_view() == weight_names(esv, k as nat),
            decreases es.len() - k,
        {
            match &es[k].name {
                Some(name) => {
                    if str_ends_with(name.as_str(), WEIGHT_SUFFIX) {
                        push_string(&mut weight_files, name.clone());
                        push_string(&mut files_present, name.clone());
                    }
                },
                None => {},
            }
            k += 1;
        }
        let ghost unsorted = weight_files.deep_view();
        sort_strings(&mut weight_files);
        if weight_files.len() == 0 {
            push_string(&mut errors, String::from_str(NO_WEIGHTS_MESSAGE));
        }

        // config.json
        let mut model_type: Option<String> = None;
        match config_text {
            None => {},
            Some(Err(e)) => return Err(ValidationError::ConfigUnreadable(e)),
            Some(Ok(text)) => {
                match JsonDocument::parse(text.as_str()) {
                    Err(m) => return Err(ValidationError::ConfigInvalid(m)),
                    Ok(doc) => {
                        model_type = check_config(&doc, &mut warnings);
                    },
                }
            },
        }

        // tokenizer.json
        match tokenizer_text {
            None => {},
            Some(Err(e)) => return Err(ValidationError::TokenizerUnreadable(e)),
            Some(Ok(text)) => {
                match JsonDocument::parse(text.as_str()) {
                    Err(m) => return Err(ValidationError::TokenizerInvalid(m)),
                    Ok(_) => {},
                }
            },
        }

        // Total size
        let n = es.len();
        let mut pending = into_reversed(es);
        let mut total: u64 = 0;
        let mut m: usize = 0;
        while m < n
            invariant
                s0 == snap,
                s0.exists && s0.is_dir,
                s0.entries matches Ok(ev) && ev@ == esv,
                n == esv.len(),
                m <= n,
                pending.len() + m == n,
                forall|q: int| 0 <= q < pending.len() ==> pending@[q] == esv[n - 1 - q],
                forall|q: int| 0 <= q < m ==> (#[trigger] esv[q]).metadata is Ok,
                total == file_size_sum(esv, m as nat),
                file_size_sum(esv, n as nat) <= u64::MAX,
            decreases n - m,
        {
            let entry = pending.pop().unwrap();
            assert(entry == esv[m as int]);
            proof {
                lemma_file_size_sum_mono(esv, (m + 1) as nat, n as nat);
            }
            match entry.metadata {
                Err(e) => {
                    assert(!(esv[m as int].metadata is Ok));
                    return Err(ValidationError::Io(e));
                },
                Ok(meta) => {
                    if meta.is_file {
                        total = total + meta.len;
                    }
                },
            }
            m += 1;
        }

        assert(snapshot_readable(s0));
        assert(snapshot_json_ok(s0));
        if errors.len() > 0 {
            return Err(ValidationError::Invalid(errors));
        }
        if self.strict && warnings.len() > 0 {
            return Err(ValidationError::StrictWarnings(warnings));
        }
        Ok(ValidationResult {
            is_valid: true,
            files_present,
            files_missing,
            weight_files,
            model_type,
            total_size: total,
            errors,
            warnings,
        })
    }
}

pub const VALID_SUMMARY_HEAD: &'static str = "Valid model with ";
pub const VALID_SUMMARY_MIDDLE: &'static str = " weight files (";
pub const VALID_SUMMARY_TAIL: &'static str = " GB)";
pub const INVALID_SUMMARY_HEAD: &'static str = "Invalid model: ";
pub const INVALID_SUMMARY_TAIL: &'static str = " errors";

impl ValidationResult {
    /// Check if validation passed
    pub fn is_ok(&self) -> (r: bool)
        ensures
            r == (self.is_valid && self.errors.len() == 0),
    {
        self.is_valid && self.errors.len() == 0
    }

    /// Get a summary string: the number of weight files and the size in GB
    /// (two decimals) of a valid model, the number of errors otherwise.
    pub fn summary(&self) -> (r: String)
        ensures
            self.is_valid ==> r@ == VALID_SUMMARY_HEAD@ + decimal(self.weight_files.len() as nat)
                + VALID_SUMMARY_MIDDLE@ + fixed2(to_f64_value(self.total_size as nat), 1073741824) + VALID_SUMMARY_TAIL@,
            !self.is_valid ==> r@ == INVALID_SUMMARY_HEAD@ + decimal(self.errors.len() as nat) + INVALID_SUMMARY_TAIL@,
    {
        if self.is_valid {
            let mut s = String::from_str(VALID_SUMMARY_HEAD);
            let n = u64_to_decimal(self.weight_files.len() as u64);
            push_str(&mut s, n.as_str());
            push_str(&mut s, VALID_SUMMARY_MIDDLE);
            proof {
                lemma_known_pows();
                lemma_bit_len(self.total_size as nat, 64);
                lemma_two_pow_mono(bit_len(self.total_size as nat), 64);
                lemma_f64_value_bound(self.total_size as nat);
            }
            let v = f64_value(self.total_size as u128);
            let gb = format_fixed2(v, 1073741824);
            push_str(&mut s, gb.as_str());
            push_str(&mut s, VALID_SUMMARY_TAIL);
            s
        } else {
            let mut s = String::from_str(INVALID_SUMMARY_HEAD);
            let n = u64_to_decimal(self.errors.len() as u64);
            push_str(&mut s, n.as_str());
            push_str(&mut s, INVALID_SUMMARY_TAIL);
            s
        }
    }
}

} // verus!
