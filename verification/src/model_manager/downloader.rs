//! What to fetch from the HuggingFace Hub, and from where.

use vstd::prelude::*;
use crate::numfmt::push_str;
use crate::model_manager::validator::{required_file, optional_file, REQUIRED_FILE_COUNT, OPTIONAL_FILE_COUNT, CONFIG_FILE, TOKENIZER_FILE, TOKENIZER_CONFIG_FILE, SPECIAL_TOKENS_MAP_FILE, GENERATION_CONFIG_FILE};
use crate::text::{ends_with, push_string, str_ends_with, str_eq};

verus! {

/// HuggingFace API base URL
pub const HF_API_URL: &'static str = "https://huggingface.co/api/models";
/// HuggingFace file download base URL
pub const HF_CDN_URL: &'static str = "https://huggingface.co";
/// Path segment between a model id and a file name in a download URL.
pub const RESOLVE_MAIN: &'static str = "/resolve/main/";
/// The user agent the downloader announces.
pub const USER_AGENT_VALUE: &'static str = "pdf-summarizer/0.1.0";

/// A file of a model repository as the HuggingFace API lists it.
#[derive(Debug, Clone)]
pub struct RemoteFile {
    /// File name within the repository.
    pub filename: String,
    /// Size in bytes, when the API gives it.
    pub size: Option<u64>,
}

/// Whether a repository file is needed locally: the configuration and
/// tokenizer files, the weight files, and the special-token, generation and
/// SentencePiece files.
pub open spec fn wanted_file(name: Seq<char>) -> bool {
    ||| name == "config.json"@
    ||| name == "tokenizer.json"@
    ||| name == "tokenizer_config.json"@
    ||| ends_with(name, ".safetensors"@)
    ||| name == "special_tokens_map.json"@
    ||| name == "generation_config.json"@
    ||| name == "tokenizer.model"@
}

/// The files to download, in listing order, with their sizes (0 when unknown).
pub open spec fn files_to_fetch(files: Seq<RemoteFile>) -> Seq<(Seq<char>, u64)>
    decreases files.len(),
{
    if files.len() == 0 {
        seq![]
    } else {
        let prev = files_to_fetch(files.drop_last());
        let f = files.last();
        if wanted_file(f.filename@) {
            prev.push((f.filename@, match f.size { Some(s) => s, None => 0u64 }))
        } else {
            prev
        }
    }
}

/// The size a listed file is fetched with: its listed size, 0 when unknown.
pub open spec fn listed_size(f: RemoteFile) -> u64 {
    match f.size {
        Some(s) => s,
        None => 0u64,
    }
}

/// Every file a model directory needs that the listing shows is fetched
/// with its listed size: the files the validator requires (`config.json`,
/// `tokenizer.json`) and recommends, `tokenizer.model`, and every
/// `.safetensors` weight file; and nothing else is fetched: each file
/// fetched is a listed one with one of those names.
pub proof fn lemma_needed_files_fetched(files: Seq<RemoteFile>)
    ensures
        forall|i: int| 0 <= i < files.len() && ({
            let name = (#[trigger] files[i]).filename@;
            ||| name == "config.json"@
            ||| name == "tokenizer.json"@
            ||| (exists|k: int| 0 <= k < REQUIRED_FILE_COUNT && name == required_file(k))
            ||| (exists|k: int| 0 <= k < OPTIONAL_FILE_COUNT && name == optional_file(k))
            ||| name == "tokenizer.model"@
            ||| ends_with(name, ".safetensors"@)
        }) ==> files_to_fetch(files).contains((files[i].filename@, listed_size(files[i]))),
        forall|j: int| 0 <= j < files_to_fetch(files).len() ==> exists|i: int| 0 <= i < files.len()
            && (#[trigger] files_to_fetch(files)[j]) == (files[i].filename@, listed_size(files[i])) && ({
                let name = files[i].filename@;
                ||| name == "config.json"@
                ||| name == "tokenizer.json"@
                ||| name == "tokenizer_config.json"@
                ||| name == "special_tokens_map.json"@
                ||| name == "generation_config.json"@
                ||| name == "tokenizer.model"@
                ||| ends_with(name, ".safetensors"@)
            }),
    decreases files.len(),
{
    reveal_strlit("config.json");
    reveal_strlit("tokenizer.json");
    assert(CONFIG_FILE@ == "config.json"@);
    assert(TOKENIZER_FILE@ == "tokenizer.json"@);
    assert(TOKENIZER_CONFIG_FILE@ == "tokenizer_config.json"@);
    assert(SPECIAL_TOKENS_MAP_FILE@ == "special_tokens_map.json"@);
    assert(GENERATION_CONFIG_FILE@ == "generation_config.json"@);
    if files.len() > 0 {
        let rest = files.drop_last();
        lemma_needed_files_fetched(rest);
        let prev = files_to_fetch(rest);
        let out = files_to_fetch(files);
        let f = files.last();
        assert(out == prev || out == prev.push((f.filename@, listed_size(f))));
        assert forall|i: int| 0 <= i < files.len() && ({
            let name = (#[trigger] files[i]).filename@;
            ||| name == "config.json"@
            ||| name == "tokenizer.json"@
            ||| (exists|k: int| 0 <= k < REQUIRED_FILE_COUNT && name == required_file(k))
            ||| (exists|k: int| 0 <= k < OPTIONAL_FILE_COUNT && name == optional_file(k))
            ||| name == "tokenizer.model"@
            ||| ends_with(name, ".safetensors"@)
        }) implies out.contains((files[i].filename@, listed_size(files[i]))) by {
            if i < files.len() - 1 {
                assert(files[i] == rest[i]);
                let j = choose|j: int| 0 <= j < prev.len() && prev[j] == (rest[i].filename@, listed_size(rest[i]));
                if out != prev {
                    assert(out[j] == prev[j]);
                }
            } else {
                assert(wanted_file(f.filename@));
                assert(out[out.len() - 1] == (f.filename@, listed_size(f)));
            }
        }
        assert forall|j: int| 0 <= j < out.len() implies exists|i: int| 0 <= i < files.len()
            && (#[trigger] out[j]) == (files[i].filename@, listed_size(files[i])) && ({
                let name = files[i].filename@;
                ||| name == "config.json"@
                ||| name == "tokenizer.json"@
                ||| name == "tokenizer_config.json"@
                ||| name == "special_tokens_map.json"@
                ||| name == "generation_config.json"@
                ||| name == "tokenizer.model"@
                ||| ends_with(name, ".safetensors"@)
            }) by {
            if j < prev.len() {
                if out != prev {
                    assert(out[j] == prev[j]);
                }
                let i = choose|i: int| 0 <= i < rest.len() && prev[j] == (rest[i].filename@, listed_size(rest[i]));
                assert(files[i] == rest[i]);
            } else {
                assert(files[files.len() - 1] == f);
            }
        }
    }
}

fn is_wanted_file(name: &str) -> (r: bool)
    ensures
        r == wanted_file(name@),
{
    str_eq(name, "config.json") || str_eq(name, "tokenizer.json") || str_eq(name, "tokenizer_config.json")
        || str_ends_with(name, ".safetensors") || str_eq(name, "special_tokens_map.json")
        || str_eq(name, "generation_config.json") || str_eq(name, "tokenizer.model")
}

/// Get list of files to download
pub fn get_files_to_download(files: &Vec<RemoteFile>) -> (r: Vec<(String, u64)>)
    ensures
        r@.map_values(|p: (String, u64)| (p.0@, p.1)) == files_to_fetch(files@),
{
    let mut out: Vec<(String, u64)> = Vec::new();
    let mut i: usize = 0;
    while i < files.len()
        invariant
            i <= files.len(),
            out@.map_values(|p: (String, u64)| (p.0@, p.1)) == files_to_fetch(files@.take(i as int)),
        decreases files.len() - i,
    {
        assert(files@.take((i + 1) as int).drop_last() == files@.take(i as int));
        let f = &files[i];
        if is_wanted_file(f.filename.as_str()) {
            let size: u64 = match f.size {
                Some(s) => s,
                None => 0,
            };
            let ghost before = out@;
            out.push((f.filename.clone(), size));
            assert(out@.map_values(|p: (String, u64)| (p.0@, p.1)) =~= before.map_values(|p: (String, u64)| (p.0@, p.1)).push((f.filename@, size)));
        }
        i += 1;
    }
    assert(files@.take(files.len() as int) == files@);
    out
}

pub const NO_FILES_HEAD: &'static str = "No downloadable files found for model: ";

/// The files of `model_id` to download, or the error given when the listing
/// holds none of the wanted files.
pub fn download_plan(model_id: &str, files: &Vec<RemoteFile>) -> (r: Result<Vec<(String, u64)>, String>)
    ensures
        files_to_fetch(files@).len() == 0 ==> (r matches Err(m) && m@ == NO_FILES_HEAD@ + model_id@),
        files_to_fetch(files@).len() > 0 ==> (r matches Ok(v)
            && v@.map_values(|p: (String, u64)| (p.0@, p.1)) == files_to_fetch(files@)),
{
    let wanted = get_files_to_download(files);
    if wanted.len() == 0 {
        assert(files_to_fetch(files@).len() == wanted@.map_values(|p: (String, u64)| (p.0@, p.1)).len());
        let mut m = String::from_str(NO_FILES_HEAD);
        push_str(&mut m, model_id);
        return Err(m);
    }
    Ok(wanted)
}

/// URL of the API description of a model.
pub fn model_info_url(model_id: &str) -> (r: String)
    ensures
        r@ == HF_API_URL@ + seq!['/'] + model_id@,
{
    let mut s = String::from_str(HF_API_URL);
    crate::text::push_char(&mut s, '/');
    push_str(&mut s, model_id);
    s
}

/// URL of a file of a model repository.
pub fn file_url(model_id: &str, filename: &str) -> (r: String)
    ensures
        r@ == HF_CDN_URL@ + seq!['/'] + model_id@ + RESOLVE_MAIN@ + filename@,
{
    let mut s = String::from_str(HF_CDN_URL);
    crate::text::push_char(&mut s, '/');
    push_str(&mut s, model_id);
    push_str(&mut s, RESOLVE_MAIN);
    push_str(&mut s, filename);
    s
}

/// Value of the `Authorization` header for a token.
pub fn bearer_value(token: &str) -> (r: String)
    ensures
        r@ == "Bearer "@ + token@,
{
    let mut s = String::from_str("Bearer ");
    push_str(&mut s, token);
    s
}

/// Whether an HTTP status means the model is gated for this user.
pub fn is_access_denied(status: u16) -> (r: bool)
    ensures
        r == (status == 401 || status == 403),
{
    status == 401 || status == 403
}

pub const ACCESS_DENIED_HEAD: &'static str = "Access denied to model '";
pub const ACCESS_DENIED_MIDDLE: &'static str = "'. This is likely a gated model.\nPlease:\n1. Visit https://huggingface.co/";
pub const ACCESS_DENIED_TAIL: &'static str = " and accept the license\n2. Create an access token at https://huggingface.co/settings/tokens\n3. Set HF_TOKEN environment variable or use --hf-token flag";

/// The explanation given when a model is gated.
pub fn access_denied_message(model_id: &str) -> (r: String)
    ensures
        r@ == ACCESS_DENIED_HEAD@ + model_id@ + ACCESS_DENIED_MIDDLE@ + model_id@ + ACCESS_DENIED_TAIL@,
{
    let mut s = String::from_str(ACCESS_DENIED_HEAD);
    push_str(&mut s, model_id);
    push_str(&mut s, ACCESS_DENIED_MIDDLE);
    push_str(&mut s, model_id);
    push_str(&mut s, ACCESS_DENIED_TAIL);
    s
}

/// Whether a file on disk is kept: it has content and its length is the
/// size the listing gives. (A size the listing leaves out counts as 0, so
/// such a file is always fetched again.)
pub open spec fn keeps_file(existing_len: Option<u64>, listed_size: u64) -> bool {
    existing_len matches Some(n) && n > 0 && n == listed_size
}

/// Whether a file already on disk is kept instead of downloaded again: it
/// exists with the correct size. `existing_len` is its length, `None` when
/// it does not exist or its metadata cannot be read; `listed_size` is the
/// size the repository listing gives.
pub fn keep_existing_file(existing_len: Option<u64>, listed_size: u64) -> (r: bool)
    ensures
        r == keeps_file(existing_len, listed_size),
{
    match existing_len {
        Some(n) => n > 0 && n == listed_size,
        None => false,
    }
}

/// Where the download of the planned files stands. Files are taken in plan
/// order; `Checking(i)` waits to hear whether file `i` is already on disk,
/// `Fetching(i)` waits for its download.
#[derive(Debug, Clone, Copy, PartialEq, Eq, Structural)]
pub enum DownloadState {
    Checking(usize),
    Fetching(usize),
    Finished,
    Failed,
}

/// What the caller observed after the last action.
#[derive(Debug, Clone, Copy, PartialEq, Eq, Structural)]
pub enum DownloadEvent {
    /// The length of the file already on disk, `None` when there is none
    /// or its metadata cannot be read.
    Existing(Option<u64>),
    /// The file was downloaded.
    Fetched,
    /// Downloading the file failed.
    FetchFailed,
}

/// What the caller is asked to do next.
#[derive(Debug, Clone, Copy, PartialEq, Eq, Structural)]
pub enum DownloadAction {
    /// Look for file `i` on disk, then report `Existing`.
    CheckExisting(usize),
    /// Download file `i`, then report `Fetched` or `FetchFailed`.
    Fetch(usize),
    /// Remove what the failed download of file `i` left, and give up with
    /// its error.
    RemovePartial(usize),
    /// All files are in place.
    Finish,
    /// An event that does not belong to the current state.
    Fail,
}

/// After file `i` is in place: the next file, or the end.
pub open spec fn after_file(count: nat, i: usize) -> (DownloadState, DownloadAction) {
    if i + 1 < count {
        (DownloadState::Checking((i + 1) as usize), DownloadAction::CheckExisting((i + 1) as usize))
    } else {
        (DownloadState::Finished, DownloadAction::Finish)
    }
}

/// The first step of downloading `count` planned files.
pub open spec fn download_start(count: usize) -> (DownloadState, DownloadAction) {
    if count == 0 {
        (DownloadState::Finished, DownloadAction::Finish)
    } else {
        (DownloadState::Checking(0), DownloadAction::CheckExisting(0))
    }
}

/// The transitions of downloading the planned files, whose listed sizes
/// are `sizes`: a file already on disk with its listed size is kept, any
/// other is fetched; a failed fetch ends the run after its partial file is
/// removed.
pub open spec fn download_step(sizes: Seq<u64>, state: DownloadState, event: DownloadEvent) -> (DownloadState, DownloadAction) {
    match (state, event) {
        (DownloadState::Checking(i), DownloadEvent::Existing(len)) =>
            if i < sizes.len() {
                if keeps_file(len, sizes[i as int]) { after_file(sizes.len(), i) } else { (DownloadState::Fetching(i), DownloadAction::Fetch(i)) }
            } else {
                (DownloadState::Failed, DownloadAction::Fail)
            },
        (DownloadState::Fetching(i), DownloadEvent::Fetched) =>
            if i < sizes.len() { after_file(sizes.len(), i) } else { (DownloadState::Failed, DownloadAction::Fail) },
        (DownloadState::Fetching(i), DownloadEvent::FetchFailed) =>
            (DownloadState::Failed, DownloadAction::RemovePartial(i)),
        _ => (DownloadState::Failed, DownloadAction::Fail),
    }
}

fn next_file(count: usize, i: usize) -> (r: (DownloadState, DownloadAction))
    requires
        i < count,
    ensures
        r == after_file(count as nat, i),
{
    if i + 1 < count {
        (DownloadState::Checking(i + 1), DownloadAction::CheckExisting(i + 1))
    } else {
        (DownloadState::Finished, DownloadAction::Finish)
    }
}

/// How downloading `count` planned files begins.
pub fn download_begin(count: usize) -> (r: (DownloadState, DownloadAction))
    ensures
        r == download_start(count),
{
    if count == 0 {
        (DownloadState::Finished, DownloadAction::Finish)
    } else {
        (DownloadState::Checking(0), DownloadAction::CheckExisting(0))
    }
}

/// One decision of `download_model`: from where the download stands and
/// what was observed, the next state and what to do. `sizes` are the
/// listed sizes of the planned files.
pub fn download_next(sizes: &[u64], state: DownloadState, event: DownloadEvent) -> (r: (DownloadState, DownloadAction))
    ensures
        r == download_step(sizes@, state, event),
{
    match (state, event) {
        (DownloadState::Checking(i), DownloadEvent::Existing(len)) => {
            if i < sizes.len() {
                if keep_existing_file(len, sizes[i]) {
                    next_file(sizes.len(), i)
                } else {
                    (DownloadState::Fetching(i), DownloadAction::Fetch(i))
                }
            } else {
                (DownloadState::Failed, DownloadAction::Fail)
            }
        },
        (DownloadState::Fetching(i), DownloadEvent::Fetched) => {
            if i < sizes.len() {
                next_file(sizes.len(), i)
            } else {
                (DownloadState::Failed, DownloadAction::Fail)
            }
        },
        (DownloadState::Fetching(i), DownloadEvent::FetchFailed) => (DownloadState::Failed, DownloadAction::RemovePartial(i)),
        _ => (DownloadState::Failed, DownloadAction::Fail),
    }
}

/// A file is downloaded only when it is not already there with its listed
/// size: a `Fetch` comes only from checking that very file and finding it
/// missing, empty, unreadable, or of another length than listed.
pub proof fn lemma_fetch_only_missing(sizes: Seq<u64>, state: DownloadState, event: DownloadEvent, i: usize)
    ensures
        download_step(sizes, state, event).1 == DownloadAction::Fetch(i) ==> {
            &&& state == DownloadState::Checking(i)
            &&& i < sizes.len()
            &&& event matches DownloadEvent::Existing(len) && !keeps_file(len, sizes[i as int])
        },
{
}

/// An existing file with content is fetched again exactly when its length
/// differs from the listed size.
pub proof fn lemma_wrong_size_refetched(sizes: Seq<u64>, i: usize, len: u64)
    requires
        i < sizes.len(),
        len > 0,
    ensures
        (download_step(sizes, DownloadState::Checking(i), DownloadEvent::Existing(Some(len))).1 == DownloadAction::Fetch(i))
            <==> len != sizes[i as int],
{
}

/// Files are taken one after another in plan order: a step that moves on
/// moves from file `i` to file `i + 1`, and the run finishes only once the
/// last planned file is in place.
pub proof fn lemma_files_in_order(sizes: Seq<u64>, state: DownloadState, event: DownloadEvent)
    requires
        sizes.len() <= usize::MAX,
    ensures
        ({
            let (s, a) = download_step(sizes, state, event);
            &&& (s matches DownloadState::Checking(j) ==> (state matches DownloadState::Checking(i) && j == i + 1)
                    || (state matches DownloadState::Fetching(i) && j == i + 1))
            &&& (a == DownloadAction::Finish ==> (state matches DownloadState::Checking(i) && i + 1 == sizes.len())
                    || (state matches DownloadState::Fetching(i) && i + 1 == sizes.len()))
            &&& (s matches DownloadState::Fetching(j) ==> state == DownloadState::Checking(j))
        }),
{
}

/// A failed download ends the run, and only then is a partial file removed.
pub proof fn lemma_failure_ends_run(sizes: Seq<u64>, state: DownloadState, event: DownloadEvent)
    ensures
        forall|i: usize| (#[trigger] download_step(sizes, state, event).1 == DownloadAction::RemovePartial(i))
            <==> (state == DownloadState::Fetching(i) && event == DownloadEvent::FetchFailed),
        download_step(sizes, state, event).1 matches DownloadAction::RemovePartial(_)
            ==> download_step(sizes, state, event).0 == DownloadState::Failed,
        download_step(sizes, DownloadState::Failed, event).1 == DownloadAction::Fail,
        download_step(sizes, DownloadState::Finished, event).1 == DownloadAction::Fail,
{
}

/// How many more steps downloading `count` planned files can take from a
/// state: two per file still to place, one less once a file is being
/// fetched.
pub open spec fn download_rank(count: nat, s: DownloadState) -> nat {
    match s {
        DownloadState::Checking(i) => if i < count { (2 * (count - i)) as nat } else { 1 },
        DownloadState::Fetching(i) => if i < count { (2 * (count - i) - 1) as nat } else { 1 },
        DownloadState::Finished => 0,
        DownloadState::Failed => 0,
    }
}

/// Downloading always ends: every step from an unfinished state lands
/// closer to the end, and it lands at the end exactly when it asks the
/// caller to finish, to remove a partial file and give up, or to fail.
pub proof fn lemma_download_terminates(sizes: Seq<u64>, state: DownloadState, event: DownloadEvent)
    requires
        sizes.len() <= usize::MAX,
        download_rank(sizes.len(), state) > 0,
    ensures
        download_rank(sizes.len(), download_step(sizes, state, event).0) < download_rank(sizes.len(), state),
        (download_step(sizes, state, event).1 is Finish || download_step(sizes, state, event).1 is RemovePartial
            || download_step(sizes, state, event).1 is Fail)
            <==> download_rank(sizes.len(), download_step(sizes, state, event).0) == 0,
{
}

} // verus!
