//! Model Manager: where models are cached, how a model directory is
//! validated, what is downloaded, and how a usable model is settled on.

pub mod cache;
pub mod downloader;
pub mod validator;

use vstd::prelude::*;
use crate::paths::{join_path, path_join, sanitize_name, sanitized};

verus! {

/// Gated model (requires HF token)
pub const GATED_MODEL_ID: &'static str = "meta-llama/Meta-Llama-3-8B-Instruct";
/// Open model (no token required)
pub const OPEN_MODEL_ID: &'static str = "TinyLlama/TinyLlama-1.1B-Chat-v1.0";
/// Display name of the gated model.
pub const GATED_MODEL_NAME: &'static str = "LLaMA 3 8B Instruct";
/// Display name of the open model.
pub const OPEN_MODEL_NAME: &'static str = "TinyLlama 1.1B Chat";

pub const DEFAULT_CACHE_DIR_NAME: &'static str = ".pdf_summarizer";
pub const MODEL_SUBDIR: &'static str = "models";

/// `dirs::home_dir()`, the path read lossily as text. Nothing is claimed:
/// the answer comes from the environment.
#[verifier::external_body]
fn home_dir() -> Option<String> {
    dirs::home_dir().map(|p| p.to_string_lossy().into_owned())
}

/// `dirs::data_local_dir()`, the path read lossily as text. Nothing is
/// claimed: the answer comes from the environment.
#[verifier::external_body]
fn data_local_dir() -> Option<String> {
    dirs::data_local_dir().map(|p| p.to_string_lossy().into_owned())
}

/// The model cache below a base directory: `<base>/.pdf_summarizer/models`.
pub open spec fn cache_dir_under(base: Seq<char>) -> Seq<char> {
    path_join(path_join(base, DEFAULT_CACHE_DIR_NAME@), MODEL_SUBDIR@)
}

/// The model cache below `base`.
pub fn cache_dir_in(base: &str) -> (r: String)
    ensures
        r@ == cache_dir_under(base@),
{
    let app = join_path(base, DEFAULT_CACHE_DIR_NAME);
    join_path(app.as_str(), MODEL_SUBDIR)
}

pub const NO_HOME_DIR_MESSAGE: &'static str = "Could not determine home directory";

/// The model cache chosen from the home directory and the local data
/// directory: below the home directory when there is one, otherwise below
/// the local data directory, otherwise the error.
pub open spec fn cache_dir_choice(home: Option<Seq<char>>, data_local: Option<Seq<char>>) -> Result<Seq<char>, Seq<char>> {
    match home {
        Some(h) => Ok(cache_dir_under(h)),
        None => match data_local {
            Some(d) => Ok(cache_dir_under(d)),
            None => Err(NO_HOME_DIR_MESSAGE@),
        },
    }
}

/// An optional path as characters.
pub open spec fn opt_chars(p: Option<String>) -> Option<Seq<char>> {
    match p {
        Some(s) => Some(s@),
        None => None,
    }
}

/// A path result as characters.
pub open spec fn result_chars(r: Result<String, String>) -> Result<Seq<char>, Seq<char>> {
    match r {
        Ok(s) => Ok(s@),
        Err(m) => Err(m@),
    }
}

/// The model cache for the given home and local data directories (as
/// `dirs::home_dir()` and `dirs::data_local_dir()` report them).
pub fn cache_dir_from(home: Option<String>, data_local: Option<String>) -> (r: Result<String, String>)
    ensures
        result_chars(r) == cache_dir_choice(opt_chars(home), opt_chars(data_local)),
{
    let base = match home {
        Some(h) => h,
        None => match data_local {
            Some(d) => d,
            None => return Err(String::from_str(NO_HOME_DIR_MESSAGE)),
        },
    };
    Ok(cache_dir_in(base.as_str()))
}

/// Get the default cache directory: below the home directory, or the local
/// data directory when there is no home directory. Which directories those
/// are depends on the environment.
pub fn get_default_cache_dir() -> (r: Result<String, String>)
    ensures
        exists|h: Option<Seq<char>>, d: Option<Seq<char>>| result_chars(r) == #[trigger] cache_dir_choice(h, d),
{
    let home = home_dir();
    let data_local = match home {
        Some(_) => None,
        None => data_local_dir(),
    };
    let r = cache_dir_from(home, data_local);
    proof {
        let h = opt_chars(home);
        let d = opt_chars(data_local);
        assert(result_chars(r) == cache_dir_choice(h, d));
    }
    r
}

/// The directory of `model_id` inside the cache directory `cache_dir`.
pub fn model_path_in(cache_dir: &str, model_id: &str) -> (r: String)
    ensures
        r@ == path_join(cache_dir@, sanitized(model_id@)),
{
    let safe_name = sanitize_name(model_id);
    join_path(cache_dir, safe_name.as_str())
}

/// Get the default model path for a specific model
pub fn get_model_path(model_id: &str) -> (r: Result<String, String>)
    ensures
        r matches Ok(p) ==> exists|base: Seq<char>| p@ == path_join(cache_dir_under(base), sanitized(model_id@)),
        r matches Err(m) ==> m@ == NO_HOME_DIR_MESSAGE@,
{
    let cache_dir = get_default_cache_dir()?;
    Ok(model_path_in(cache_dir.as_str(), model_id))
}

/// Model information
#[derive(Debug, Clone)]
pub struct ModelInfo {
    /// Model ID (HuggingFace format)
    pub model_id: String,
    /// Local path to the model
    pub local_path: String,
    /// Whether the model is fully downloaded
    pub is_complete: bool,
    /// Model size in bytes
    pub size_bytes: u64,
    /// Required files present
    pub files_present: Vec<String>,
    /// Missing files
    pub files_missing: Vec<String>,
}

/// Where settling on a model stands.
#[derive(Debug)]
pub enum Acquisition {
    /// Nothing done yet.
    Start,
    /// The user's model directory is being validated.
    CheckingProvided { path: String },
    /// The cache location of `model_id` is being looked up.
    LocatingCache { model_id: &'static str, model_name: &'static str },
    /// A cached copy of `model_id` at `path` is being validated.
    CheckingCached { model_id: &'static str, model_name: &'static str, path: String },
    /// `model_id` is being downloaded into its cache directory `path`.
    Downloading { model_id: &'static str, path: String },
    /// The downloaded model at `path` is being validated.
    CheckingDownloaded { path: String },
    /// The model at `path` is ready.
    Ready { path: String },
    /// Settling on a model failed.
    Failed,
}

/// What the caller observed after performing the last action.
#[derive(Debug)]
pub enum AcquisitionEvent {
    /// Start: the model path the user gave, whether it exists, and whether
    /// a HuggingFace token is available.
    Begin { model_path: Option<String>, model_path_exists: bool, hf_token_present: bool },
    /// The validated directory is a usable model.
    ValidationPassed,
    /// The validated directory is not a usable model.
    ValidationFailed { message: String },
    /// The cache location, and whether something is there.
    CacheLocated { path: String, exists: bool },
    /// The cache location could not be determined.
    CacheUnavailable { message: String },
    /// The model was downloaded into its cache directory.
    Downloaded,
    /// The download failed.
    DownloadFailed { message: String },
}

/// Why settling on a model failed.
#[derive(Debug)]
pub enum AcquisitionFailure {
    /// The model path the user gave does not exist.
    ProvidedPathMissing(String),
    /// The model directory did not pass validation.
    InvalidModel(String),
    /// The cache directory could not be determined.
    CacheUnavailable(String),
    /// Downloading the model failed.
    DownloadFailed(String),
    /// An event that does not belong to the current state.
    UnexpectedEvent,
}

/// What the caller is asked to do next.
#[derive(Debug)]
pub enum AcquisitionAction {
    /// Validate the model directory at `path`, then report
    /// `ValidationPassed` or `ValidationFailed`.
    Validate { path: String },
    /// Find the cache directory of `model_id`, then report `CacheLocated`
    /// or `CacheUnavailable`.
    LocateCache { model_id: &'static str },
    /// Download `model_id` into the cache, then report `Downloaded` or
    /// `DownloadFailed`.
    Download { model_id: &'static str, model_name: &'static str },
    /// Use the model at `path`.
    Finish { path: String },
    /// Give up.
    Fail { failure: AcquisitionFailure },
}

/// The model used when the user names none: the gated LLaMA 3 model when a
/// HuggingFace token is available, the open TinyLlama model otherwise.
pub open spec fn default_model(hf_token_present: bool) -> (&'static str, &'static str) {
    if hf_token_present {
        (GATED_MODEL_ID, GATED_MODEL_NAME)
    } else {
        (OPEN_MODEL_ID, OPEN_MODEL_NAME)
    }
}

/// The transition table of settling on a model.
pub open spec fn acquisition_step(state: Acquisition, event: AcquisitionEvent) -> (Acquisition, AcquisitionAction) {
    match (state, event) {
        (Acquisition::Start, AcquisitionEvent::Begin { model_path, model_path_exists, hf_token_present }) => {
            match model_path {
                Some(p) => if model_path_exists {
                    (Acquisition::CheckingProvided { path: p }, AcquisitionAction::Validate { path: p })
                } else {
                    (Acquisition::Failed, AcquisitionAction::Fail { failure: AcquisitionFailure::ProvidedPathMissing(p) })
                },
                None => {
                    let (id, name) = default_model(hf_token_present);
                    (Acquisition::LocatingCache { model_id: id, model_name: name }, AcquisitionAction::LocateCache { model_id: id })
                },
            }
        },
        (Acquisition::CheckingProvided { path }, AcquisitionEvent::ValidationPassed) =>
            (Acquisition::Ready { path }, AcquisitionAction::Finish { path }),
        (Acquisition::CheckingProvided { .. }, AcquisitionEvent::ValidationFailed { message }) =>
            (Acquisition::Failed, AcquisitionAction::Fail { failure: AcquisitionFailure::InvalidModel(message) }),
        (Acquisition::LocatingCache { model_id, model_name }, AcquisitionEvent::CacheLocated { path, exists }) =>
            if exists {
                (Acquisition::CheckingCached { model_id, model_name, path }, AcquisitionAction::Validate { path })
            } else {
                (Acquisition::Downloading { model_id, path }, AcquisitionAction::Download { model_id, model_name })
            },
        (Acquisition::LocatingCache { .. }, AcquisitionEvent::CacheUnavailable { message }) =>
            (Acquisition::Failed, AcquisitionAction::Fail { failure: AcquisitionFailure::CacheUnavailable(message) }),
        (Acquisition::CheckingCached { path, .. }, AcquisitionEvent::ValidationPassed) =>
            (Acquisition::Ready { path }, AcquisitionAction::Finish { path }),
        (Acquisition::CheckingCached { model_id, model_name, path }, AcquisitionEvent::ValidationFailed { .. }) =>
            (Acquisition::Downloading { model_id, path }, AcquisitionAction::Download { model_id, model_name }),
        (Acquisition::Downloading { path, .. }, AcquisitionEvent::Downloaded) =>
            (Acquisition::CheckingDownloaded { path }, AcquisitionAction::Validate { path }),
        (Acquisition::Downloading { .. }, AcquisitionEvent::DownloadFailed { message }) =>
            (Acquisition::Failed, AcquisitionAction::Fail { failure: AcquisitionFailure::DownloadFailed(message) }),
        (Acquisition::CheckingDownloaded { path }, AcquisitionEvent::ValidationPassed) =>
            (Acquisition::Ready { path }, AcquisitionAction::Finish { path }),
        (Acquisition::CheckingDownloaded { .. }, AcquisitionEvent::ValidationFailed { message }) =>
            (Acquisition::Failed, AcquisitionAction::Fail { failure: AcquisitionFailure::InvalidModel(message) }),
        _ => (Acquisition::Failed, AcquisitionAction::Fail { failure: AcquisitionFailure::UnexpectedEvent }),
    }
}

/// One decision of `ensure_model_available`: from where things stand and
/// what was observed, the next state and what to do.
pub fn acquisition_next(state: Acquisition, event: AcquisitionEvent) -> (r: (Acquisition, AcquisitionAction))
    ensures
        r == acquisition_step(state, event),
{
    match (state, event) {
        (Acquisition::Start, AcquisitionEvent::Begin { model_path, model_path_exists, hf_token_present }) => {
            match model_path {
                Some(p) => if model_path_exists {
                    let q = p.clone();
                    (Acquisition::CheckingProvided { path: p }, AcquisitionAction::Validate { path: q })
                } else {
                    (Acquisition::Failed, AcquisitionAction::Fail { failure: AcquisitionFailure::ProvidedPathMissing(p) })
                },
                None => {
                    if hf_token_present {
                        (Acquisition::LocatingCache { model_id: GATED_MODEL_ID, model_name: GATED_MODEL_NAME },
                            AcquisitionAction::LocateCache { model_id: GATED_MODEL_ID })
                    } else {
                        (Acquisition::LocatingCache { model_id: OPEN_MODEL_ID, model_name: OPEN_MODEL_NAME },
                            AcquisitionAction::LocateCache { model_id: OPEN_MODEL_ID })
                    }
                },
            }
        },
        (Acquisition::CheckingProvided { path }, AcquisitionEvent::ValidationPassed) => {
            let q = path.clone();
            (Acquisition::Ready { path }, AcquisitionAction::Finish { path: q })
        },
        (Acquisition::CheckingProvided { .. }, AcquisitionEvent::ValidationFailed { message }) =>
            (Acquisition::Failed, AcquisitionAction::Fail { failure: AcquisitionFailure::InvalidModel(message) }),
        (Acquisition::LocatingCache { model_id, model_name }, AcquisitionEvent::CacheLocated { path, exists }) => {
            if exists {
                let q = path.clone();
                (Acquisition::CheckingCached { model_id, model_name, path }, AcquisitionAction::Validate { path: q })
            } else {
                (Acquisition::Downloading { model_id, path }, AcquisitionAction::Download { model_id, model_name })
            }
        },
        (Acquisition::LocatingCache { .. }, AcquisitionEvent::CacheUnavailable { message }) =>
            (Acquisition::Failed, AcquisitionAction::Fail { failure: AcquisitionFailure::CacheUnavailable(message) }),
        (Acquisition::CheckingCached { path, .. }, AcquisitionEvent::ValidationPassed) => {
            let q = path.clone();
            (Acquisition::Ready { path }, AcquisitionAction::Finish { path: q })
        },
        (Acquisition::CheckingCached { model_id, model_name, path }, AcquisitionEvent::ValidationFailed { .. }) =>
            (Acquisition::Downloading { model_id, path }, AcquisitionAction::Download { model_id, model_name }),
        (Acquisition::Downloading { path, .. }, AcquisitionEvent::Downloaded) => {
            let q = path.clone();
            (Acquisition::CheckingDownloaded { path }, AcquisitionAction::Validate { path: q })
        },
        (Acquisition::Downloading { .. }, AcquisitionEvent::DownloadFailed { message }) =>
            (Acquisition::Failed, AcquisitionAction::Fail { failure: AcquisitionFailure::DownloadFailed(message) }),
        (Acquisition::CheckingDownloaded { path }, AcquisitionEvent::ValidationPassed) => {
            let q = path.clone();
            (Acquisition::Ready { path }, AcquisitionAction::Finish { path: q })
        },
        (Acquisition::CheckingDownloaded { .. }, AcquisitionEvent::ValidationFailed { message }) =>
            (Acquisition::Failed, AcquisitionAction::Fail { failure: AcquisitionFailure::InvalidModel(message) }),
        _ => (Acquisition::Failed, AcquisitionAction::Fail { failure: AcquisitionFailure::UnexpectedEvent }),
    }
}

/// A model the library settles on has always just passed validation: a
/// `Finish` action comes only from a `ValidationPassed` event.
pub proof fn lemma_finish_only_after_validation(state: Acquisition, event: AcquisitionEvent)
    ensures
        acquisition_step(state, event).1 is Finish ==> event is ValidationPassed,
{
}

/// Without a model path, the gated LLaMA 3 model is looked up when a
/// HuggingFace token is available and the open TinyLlama model otherwise.
pub proof fn lemma_token_selects_model(model_path_exists: bool, hf_token_present: bool)
    ensures
        ({
            let (s, a) = acquisition_step(
                Acquisition::Start,
                AcquisitionEvent::Begin { model_path: None, model_path_exists, hf_token_present },
            );
            &&& a == AcquisitionAction::LocateCache {
                model_id: if hf_token_present { GATED_MODEL_ID } else { OPEN_MODEL_ID },
            }
            &&& s is LocatingCache
        }),
{
}

/// A cached model that passes validation is used as it is: finding it in
/// the cache leads to validating that directory, and passing validation
/// finishes with it, with no download in between.
pub proof fn lemma_cached_model_reused(model_id: &'static str, model_name: &'static str, path: String)
    ensures
        ({
            let (s1, a1) = acquisition_step(
                Acquisition::LocatingCache { model_id, model_name },
                AcquisitionEvent::CacheLocated { path, exists: true },
            );
            let (s2, a2) = acquisition_step(s1, AcquisitionEvent::ValidationPassed);
            &&& a1 == AcquisitionAction::Validate { path }
            &&& a2 == AcquisitionAction::Finish { path }
            &&& s2 == Acquisition::Ready { path }
        }),
{
}

/// A model directory given by the user is never replaced by a download:
/// it is either validated and used, or the run fails.
pub proof fn lemma_provided_path_never_downloads(path: String, exists: bool, hf_token_present: bool, event: AcquisitionEvent)
    ensures
        ({
            let (s1, a1) = acquisition_step(
                Acquisition::Start,
                AcquisitionEvent::Begin { model_path: Some(path), model_path_exists: exists, hf_token_present },
            );
            &&& !(a1 is Download)
            &&& !(acquisition_step(s1, event).1 is Download)
            &&& !exists ==> a1 == AcquisitionAction::Fail { failure: AcquisitionFailure::ProvidedPathMissing(path) }
        }),
{
}

/// How many more steps settling on a model can take from a state.
pub open spec fn acquisition_rank(s: Acquisition) -> nat {
    match s {
        Acquisition::Start => 5,
        Acquisition::LocatingCache { .. } => 4,
        Acquisition::CheckingCached { .. } => 3,
        Acquisition::Downloading { .. } => 2,
        Acquisition::CheckingDownloaded { .. } => 1,
        Acquisition::CheckingProvided { .. } => 1,
        Acquisition::Ready { .. } => 0,
        Acquisition::Failed => 0,
    }
}

/// Settling on a model always ends, after at most five steps: every step
/// from an unfinished state lands closer to the end, and it lands at the
/// end (`Ready` or `Failed`) exactly when it asks the caller to finish or
/// to give up.
pub proof fn lemma_acquisition_terminates(state: Acquisition, event: AcquisitionEvent)
    requires
        acquisition_rank(state) > 0,
    ensures
        acquisition_rank(acquisition_step(state, event).0) < acquisition_rank(state),
        (acquisition_step(state, event).1 is Finish || acquisition_step(state, event).1 is Fail)
            <==> acquisition_rank(acquisition_step(state, event).0) == 0,
{
}

/// The states that hold on to the cache directory `p` of the model being
/// settled on.
pub open spec fn keeps_cache_path(s: Acquisition, p: String) -> bool {
    match s {
        Acquisition::CheckingCached { path, .. } => path == p,
        Acquisition::Downloading { path, .. } => path == p,
        Acquisition::CheckingDownloaded { path } => path == p,
        Acquisition::Ready { path } => path == p,
        _ => false,
    }
}

/// Whether the event reports the cache directory `p`.
pub open spec fn located_at(e: AcquisitionEvent, p: String) -> bool {
    e matches AcquisitionEvent::CacheLocated { path, .. } && path == p
}

/// Once the cache directory of the default model is located, settling on a
/// model ends with that directory or fails: every step keeps it, whether
/// the cached copy is used or downloaded again, and a `Finish` names it.
pub proof fn lemma_success_is_cache_path(state: Acquisition, event: AcquisitionEvent, p: String)
    requires
        keeps_cache_path(state, p) || (state is LocatingCache && located_at(event, p)),
    ensures
        keeps_cache_path(acquisition_step(state, event).0, p) || acquisition_step(state, event).0 is Failed,
        acquisition_step(state, event).1 matches AcquisitionAction::Finish { path } ==> path == p,
        acquisition_step(state, event).1 matches AcquisitionAction::Validate { path } ==> path == p,
{
}

} // verus!
