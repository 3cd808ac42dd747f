//! Model Cache Management: where cached models live.

use vstd::prelude::*;
use crate::numfmt::{push_str, size_string, size_text};
use crate::paths::{join_path, path_join, sanitize_name, sanitized};

verus! {

/// Model cache manager
pub struct ModelCache {
    /// Root cache directory
    cache_dir: String,
}

/// `std::path::Path::is_dir` (true when the path exists and is a
/// directory). Nothing is claimed: the answer depends on the disk.
#[verifier::external_body]
fn path_is_dir(path: &str) -> bool {
    std::path::Path::new(path).is_dir()
}

/// Suffix of a file that is still being downloaded.
pub const DOWNLOAD_SUFFIX: &'static str = ".download";

impl View for ModelCache {
    type V = Seq<char>;

    /// The cache is seen as its root directory.
    closed spec fn view(&self) -> Seq<char> {
        self.cache_dir@
    }
}

/// Directory of the model `model_name` in the cache rooted at `cache_dir`.
pub open spec fn cached_model_dir(cache_dir: Seq<char>, model_name: Seq<char>) -> Seq<char> {
    path_join(cache_dir, sanitized(model_name))
}

/// A model's directory lies directly inside the cache directory: the cache
/// path, at most one separator, then the sanitized name, which holds no
/// separator and is as long as the name.
pub proof fn lemma_model_dir_inside_cache(cache_dir: Seq<char>, model_name: Seq<char>)
    ensures
        cached_model_dir(cache_dir, model_name) == cache_dir + sanitized(model_name)
            || cached_model_dir(cache_dir, model_name) == cache_dir + seq!['/'] + sanitized(model_name),
        forall|i: int| 0 <= i < sanitized(model_name).len() ==> #[trigger] sanitized(model_name)[i] != '/',
        sanitized(model_name).len() == model_name.len(),
{
    crate::paths::lemma_sanitized_has_no_separator(model_name);
    let s = sanitized(model_name);
    if s.len() > 0 {
        assert(s[0] != '/');
    }
}

/// Sum of the sizes of the files in the cache.
pub open spec fn sizes_total(sizes: Seq<u64>) -> int
    decreases sizes.len(),
{
    if sizes.len() == 0 {
        0
    } else {
        sizes_total(sizes.drop_last()) + sizes.last()
    }
}

proof fn lemma_sizes_total_grows(sizes: Seq<u64>, i: int)
    requires
        0 <= i < sizes.len(),
    ensures
        sizes_total(sizes.take(i + 1)) == sizes_total(sizes.take(i)) + sizes[i],
        sizes_total(sizes.take(i)) <= sizes_total(sizes.take(i + 1)),
{
    assert(sizes.take(i + 1).drop_last() == sizes.take(i));
}

proof fn lemma_sizes_total_prefix(sizes: Seq<u64>, i: int)
    requires
        0 <= i <= sizes.len(),
    ensures
        sizes_total(sizes.take(i)) <= sizes_total(sizes),
    decreases sizes.len() - i,
{
    if i < sizes.len() {
        lemma_sizes_total_grows(sizes, i);
        lemma_sizes_total_prefix(sizes, i + 1);
    } else {
        assert(sizes.take(i) == sizes);
    }
}

impl ModelCache {
    /// A cache manager for the directory `cache_dir` (which the caller has
    /// made sure exists).
    pub fn new(cache_dir: String) -> (r: ModelCache)
        ensures
            r@ == cache_dir@,
    {
        ModelCache { cache_dir }
    }

    /// Get the cache directory path
    pub fn cache_dir(&self) -> (r: &str)
        ensures
            r@ == self@,
    {
        self.cache_dir.as_str()
    }

    /// Get the path for a specific model, its name sanitized for the file
    /// system.
    pub fn model_path(&self, model_name: &str) -> (r: String)
        ensures
            r@ == cached_model_dir(self@, model_name@),
    {
        let safe_name = sanitize_name(model_name);
        join_path(self.cache_dir.as_str(), safe_name.as_str())
    }

    /// Check if a model exists in cache (as a directory). What comes back
    /// depends on the disk; the path looked at is `model_path(model_name)`.
    pub fn has_model(&self, model_name: &str) -> bool {
        let path = self.model_path(model_name);
        path_is_dir(path.as_str())
    }

    /// Get total cache size in bytes, from the sizes of the files found
    /// under the cache directory (at any depth). `None` when the total does
    /// not fit in a `u64`.
    pub fn total_size(&self, file_sizes: &[u64]) -> (r: Option<u64>)
        ensures
            sizes_total(file_sizes@) <= u64::MAX ==> r == Some(sizes_total(file_sizes@) as u64),
            sizes_total(file_sizes@) > u64::MAX ==> r is None,
    {
        let mut size: u64 = 0;
        let mut i: usize = 0;
        while i < file_sizes.len()
            invariant
                0 <= i <= file_sizes@.len(),
                size == sizes_total(file_sizes@.take(i as int)),
            decreases file_sizes@.len() - i,
        {
            proof {
                lemma_sizes_total_grows(file_sizes@, i as int);
            }
            let file_size = file_sizes[i];
            if size > u64::MAX - file_size {
                proof {
                    lemma_sizes_total_prefix(file_sizes@, i as int + 1);
                }
                return None;
            }
            size = size + file_size;
            i = i + 1;
        }
        assert(file_sizes@.take(i as int) == file_sizes@);
        Some(size)
    }

    /// Get a temporary download path for a file
    pub fn temp_download_path(&self, model_name: &str, filename: &str) -> (r: String)
        ensures
            r@ == path_join(cached_model_dir(self@, model_name@), filename@ + DOWNLOAD_SUFFIX@),
    {
        let dir = self.model_path(model_name);
        let mut name = String::from_str(filename);
        push_str(&mut name, DOWNLOAD_SUFFIX);
        join_path(dir.as_str(), name.as_str())
    }
}

/// Format bytes as human-readable string
pub fn format_size(bytes: u64) -> (r: String)
    ensures
        r@ == size_text(bytes as nat),
{
    size_string(bytes)
}

} // verus!
