//! Command-line decisions: checking the arguments, choosing the PDF files,
//! where output goes and how verbose logging is.

use vstd::prelude::*;
use crate::output::{extension, path_extension};
use crate::paths::{path_debug, with_path};
use crate::text::{push_string, str_eq};

verus! {

/// What the caller found out about a path named on the command line.
pub struct PathFacts {
    /// The path as given.
    pub path: String,
    /// Whether it exists.
    pub exists: bool,
    /// Whether it is of the expected kind (a directory for the folder, a
    /// regular file for the files).
    pub is_expected_kind: bool,
}

/// The arguments, as far as checking them needs: what was given, the
/// outcome of the floating-point range checks, and what the file system
/// says about the paths.
pub struct ArgsFacts {
    /// Whether `--files` was given.
    pub has_files: bool,
    /// Whether `--folder` was given.
    pub has_folder: bool,
    pub summary_length: usize,
    /// `!(temperature < 0.0 || temperature > 2.0)`
    pub temperature_in_range: bool,
    /// `!(top_p < 0.0 || top_p > 1.0)`
    pub top_p_in_range: bool,
    /// The folder, when given.
    pub folder: Option<PathFacts>,
    /// The files, in the order given.
    pub files: Vec<PathFacts>,
}

/// The first problem found with the arguments.
#[derive(Debug)]
pub enum ArgsProblem {
    NoInput,
    ZeroSummaryLength,
    TemperatureOutOfRange,
    TopPOutOfRange,
    FolderMissing(String),
    FolderNotADirectory(String),
    FileMissing(String),
    NotAFile(String),
}

/// Index of the first given file that is missing or not a file, if any.
pub open spec fn first_bad_file(files: Seq<PathFacts>, n: nat) -> Option<int>
    decreases n,
{
    if n == 0 {
        None
    } else {
        match first_bad_file(files, (n - 1) as nat) {
            Some(i) => Some(i),
            None => if !files[n - 1].exists || !files[n - 1].is_expected_kind { Some(n - 1) } else { None },
        }
    }
}

/// The checks, in the order they are made.
pub open spec fn argument_problem(a: ArgsFacts) -> Option<ArgsProblem> {
    if !a.has_files && !a.has_folder {
        Some(ArgsProblem::NoInput)
    } else if a.summary_length == 0 {
        Some(ArgsProblem::ZeroSummaryLength)
    } else if !a.temperature_in_range {
        Some(ArgsProblem::TemperatureOutOfRange)
    } else if !a.top_p_in_range {
        Some(ArgsProblem::TopPOutOfRange)
    } else {
        match a.folder {
            Some(f) => if !f.exists {
                Some(ArgsProblem::FolderMissing(f.path))
            } else if !f.is_expected_kind {
                Some(ArgsProblem::FolderNotADirectory(f.path))
            } else {
                file_problem(a.files@)
            },
            None => file_problem(a.files@),
        }
    }
}

/// The problem with the first bad file, if any.
pub open spec fn file_problem(files: Seq<PathFacts>) -> Option<ArgsProblem> {
    match first_bad_file(files, files.len()) {
        Some(i) => if !files[i].exists {
            Some(ArgsProblem::FileMissing(files[i].path))
        } else {
            Some(ArgsProblem::NotAFile(files[i].path))
        },
        None => None,
    }
}

/// Once a prefix has no bad file, a bad file right after it is the first one.
proof fn lemma_first_bad_file(files: Seq<PathFacts>, i: nat, n: nat)
    requires
        i < n <= files.len(),
        first_bad_file(files, i) is None,
        !files[i as int].exists || !files[i as int].is_expected_kind,
    ensures
        first_bad_file(files, n) == Some(i as int),
    decreases n,
{
    if n > i + 1 {
        lemma_first_bad_file(files, i, (n - 1) as nat);
    }
}

/// Before the first bad file every file is good.
proof fn lemma_no_bad_file(files: Seq<PathFacts>, n: nat)
    requires
        n <= files.len(),
        first_bad_file(files, n) is None,
    ensures
        forall|k: int| 0 <= k < n ==> (#[trigger] files[k]).exists && files[k].is_expected_kind,
    decreases n,
{
    if n > 0 {
        lemma_no_bad_file(files, (n - 1) as nat);
    }
}

/// Arguments that pass the checks name at least one input, ask for a
/// summary of at least one word, keep temperature and top-p in range, and
/// name only an existing directory and existing regular files.
pub proof fn lemma_accepted_arguments(a: ArgsFacts)
    requires
        argument_problem(a) is None,
    ensures
        a.has_files || a.has_folder,
        a.summary_length > 0,
        a.temperature_in_range && a.top_p_in_range,
        a.folder matches Some(f) ==> f.exists && f.is_expected_kind,
        forall|k: int| 0 <= k < a.files.len() ==> (#[trigger] a.files@[k]).exists && a.files@[k].is_expected_kind,
{
    lemma_no_bad_file(a.files@, a.files.len() as nat);
}

/// Validate the arguments: at least one input, a positive summary length,
/// temperature in 0..=2, top-p in 0..=1, an existing folder, existing files.
pub fn check_arguments(a: &ArgsFacts) -> (r: Result<(), ArgsProblem>)
    ensures
        match argument_problem(*a) {
            Some(p) => r == Err::<(), ArgsProblem>(p),
            None => r is Ok,
        },
{
    if !a.has_files && !a.has_folder {
        return Err(ArgsProblem::NoInput);
    }
    if a.summary_length == 0 {
        return Err(ArgsProblem::ZeroSummaryLength);
    }
    if !a.temperature_in_range {
        return Err(ArgsProblem::TemperatureOutOfRange);
    }
    if !a.top_p_in_range {
        return Err(ArgsProblem::TopPOutOfRange);
    }
    if let Some(f) = &a.folder {
        if !f.exists {
            return Err(ArgsProblem::FolderMissing(f.path.clone()));
        }
        if !f.is_expected_kind {
            return Err(ArgsProblem::FolderNotADirectory(f.path.clone()));
        }
    }
    let mut i: usize = 0;
    while i < a.files.len()
        invariant
            i <= a.files.len(),
            first_bad_file(a.files@, i as nat) is None,
            argument_problem(*a) == file_problem(a.files@),
        decreases a.files.len() - i,
    {
        let f = &a.files[i];
        if !f.exists || !f.is_expected_kind {
            proof { lemma_first_bad_file(a.files@, i as nat, a.files.len() as nat); }
            if !f.exists {
                return Err(ArgsProblem::FileMissing(f.path.clone()));
            }
            return Err(ArgsProblem::NotAFile(f.path.clone()));
        }
        i += 1;
    }
    Ok(())
}

impl ArgsProblem {
    /// The problem's text; a path is shown as `{:?}` shows it.
    pub fn message(&self) -> (r: String)
        ensures
            self is NoInput ==> r@ == "At least one of --files (-f) or --folder (-F) must be provided"@,
            self is ZeroSummaryLength ==> r@ == "Summary length must be greater than 0"@,
            self is TemperatureOutOfRange ==> r@ == "Temperature must be between 0.0 and 2.0"@,
            self is TopPOutOfRange ==> r@ == "Top-p must be between 0.0 and 1.0"@,
            self matches ArgsProblem::FolderMissing(p) ==> r@ == "Folder does not exist: "@ + path_debug(p@),
            self matches ArgsProblem::FolderNotADirectory(p) ==> r@ == "Path is not a directory: "@ + path_debug(p@),
            self matches ArgsProblem::FileMissing(p) ==> r@ == "File does not exist: "@ + path_debug(p@),
            self matches ArgsProblem::NotAFile(p) ==> r@ == "Path is not a file: "@ + path_debug(p@),
    {
        match self {
            ArgsProblem::NoInput => String::from_str("At least one of --files (-f) or --folder (-F) must be provided"),
            ArgsProblem::ZeroSummaryLength => String::from_str("Summary length must be greater than 0"),
            ArgsProblem::TemperatureOutOfRange => String::from_str("Temperature must be between 0.0 and 2.0"),
            ArgsProblem::TopPOutOfRange => String::from_str("Top-p must be between 0.0 and 1.0"),
            ArgsProblem::FolderMissing(p) => with_path("Folder does not exist: ", p.as_str()),
            ArgsProblem::FolderNotADirectory(p) => with_path("Path is not a directory: ", p.as_str()),
            ArgsProblem::FileMissing(p) => with_path("File does not exist: ", p.as_str()),
            ArgsProblem::NotAFile(p) => with_path("Path is not a file: ", p.as_str()),
        }
    }
}

/// Whether a path names a PDF file (its extension is `pdf`).
pub fn is_pdf_path(path: &str) -> (r: bool)
    ensures
        r == (extension(path@) == Some("pdf"@)),
{
    match path_extension(path) {
        Some(e) => str_eq(e.as_str(), "pdf"),
        None => false,
    }
}

/// The PDF files among `paths`, in order.
pub open spec fn pdf_paths(paths: Seq<Seq<char>>) -> Seq<Seq<char>>
    decreases paths.len(),
{
    if paths.len() == 0 {
        seq![]
    } else {
        let prev = pdf_paths(paths.drop_last());
        if extension(paths.last()) == Some("pdf"@) { prev.push(paths.last()) } else { prev }
    }
}

/// The regular PDF files of a folder walk, in walk order: `(path, is_file)`.
pub open spec fn pdf_entries(entries: Seq<(Seq<char>, bool)>) -> Seq<Seq<char>>
    decreases entries.len(),
{
    if entries.len() == 0 {
        seq![]
    } else {
        let prev = pdf_entries(entries.drop_last());
        let e = entries.last();
        if e.1 && extension(e.0) == Some("pdf"@) { prev.push(e.0) } else { prev }
    }
}

/// Every path the choice of files keeps has the extension `pdf`, and every
/// folder entry it keeps is a regular file.
pub proof fn lemma_collected_are_pdfs(paths: Seq<Seq<char>>, entries: Seq<(Seq<char>, bool)>)
    ensures
        forall|k: int| 0 <= k < pdf_paths(paths).len() ==> extension(#[trigger] pdf_paths(paths)[k]) == Some("pdf"@),
        forall|k: int| 0 <= k < pdf_entries(entries).len() ==> extension(#[trigger] pdf_entries(entries)[k]) == Some("pdf"@)
            && entries.contains((pdf_entries(entries)[k], true)),
    decreases paths.len() + entries.len(),
{
    if paths.len() > 0 {
        lemma_collected_are_pdfs(paths.drop_last(), entries);
    }
    if entries.len() > 0 {
        lemma_collected_are_pdfs(paths, entries.drop_last());
        let prev = pdf_entries(entries.drop_last());
        assert forall|k: int| 0 <= k < prev.len() implies entries.contains((#[trigger] prev[k], true)) by {
            let j = choose|j: int| 0 <= j < entries.drop_last().len() && entries.drop_last()[j] == (prev[k], true);
            assert(entries[j] == (prev[k], true));
        }
        if entries.last().1 && extension(entries.last().0) == Some("pdf"@) {
            assert(entries[entries.len() - 1] == (entries.last().0, true));
        }
    }
}

pub const NO_PDF_FILES_MESSAGE: &'static str = "No PDF files found to process";

/// All PDF files to process: the given files with a `pdf` extension, then
/// the regular `pdf` files found walking the folder; an error when there
/// are none.
pub fn collect_pdf_files(files: &Vec<String>, folder_entries: &Vec<(String, bool)>) -> (r: Result<Vec<String>, String>)
    ensures
        ({
            let all = pdf_paths(files.deep_view()) + pdf_entries(folder_entries@.map_values(|e: (String, bool)| (e.0@, e.1)));
            &&& all.len() == 0 ==> (r matches Err(m) && m@ == NO_PDF_FILES_MESSAGE@)
            &&& all.len() > 0 ==> (r matches Ok(v) && v.deep_view() == all)
        }),
{
    let mut out: Vec<String> = Vec::new();
    let mut i: usize = 0;
    while i < files.len()
        invariant
            i <= files.len(),
            out.deep_view() == pdf_paths(files.deep_view().take(i as int)),
        decreases files.len() - i,
    {
        assert(files.deep_view().take((i + 1) as int).drop_last() == files.deep_view().take(i as int));
        if is_pdf_path(files[i].as_str()) {
            push_string(&mut out, files[i].clone());
        }
        i += 1;
    }
    assert(files.deep_view().take(files.len() as int) == files.deep_view());
    let ghost from_files = out.deep_view();
    let ghost ev = folder_entries@.map_values(|e: (String, bool)| (e.0@, e.1));
    let mut j: usize = 0;
    while j < folder_entries.len()
        invariant
            j <= folder_entries.len(),
            ev == folder_entries@.map_values(|e: (String, bool)| (e.0@, e.1)),
            out.deep_view() == from_files + pdf_entries(ev.take(j as int)),
        decreases folder_entries.len() - j,
    {
        assert(ev.take((j + 1) as int).drop_last() == ev.take(j as int));
        let (p, is_file) = &folder_entries[j];
        if *is_file && is_pdf_path(p.as_str()) {
            push_string(&mut out, p.clone());
        }
        j += 1;
    }
    assert(ev.take(folder_entries.len() as int) == ev);
    if out.len() == 0 {
        return Err(String::from_str(NO_PDF_FILES_MESSAGE));
    }
    Ok(out)
}

/// Check if output should go to file: only a path with the `txt` extension.
pub fn should_output_to_file(output: Option<&str>) -> (r: bool)
    ensures
        r == (output matches Some(p) && extension(p@) == Some("txt"@)),
{
    match output {
        Some(p) => match path_extension(p) {
            Some(e) => str_eq(e.as_str(), "txt"),
            None => false,
        },
        None => false,
    }
}

/// Logging verbosity.
#[derive(Debug, Clone, Copy, PartialEq, Eq, Structural)]
pub enum LogLevel {
    Warn,
    Info,
    Debug,
    Trace,
}

/// The logging level for a number of `-v` flags: none shows warnings, then
/// info, debug, and trace from three on.
pub fn log_level(verbosity: u8) -> (r: LogLevel)
    ensures
        r == if verbosity == 0 { LogLevel::Warn } else if verbosity == 1 { LogLevel::Info }
            else if verbosity == 2 { LogLevel::Debug } else { LogLevel::Trace },
{
    if verbosity == 0 {
        LogLevel::Warn
    } else if verbosity == 1 {
        LogLevel::Info
    } else if verbosity == 2 {
        LogLevel::Debug
    } else {
        LogLevel::Trace
    }
}

} // verus!
