//! Application-level errors and error-context helpers.

use vstd::prelude::*;
use crate::numfmt::push_str;
use crate::pdf::{pdf_error_message, PdfError};

verus! {

#[verifier::external_type_specification]
#[verifier::external_body]
pub struct ExIoError(std::io::Error);

/// `std::io::Error`'s `Display` text. Nothing is claimed of it: the text is
/// the operating system's description of the failure.
#[verifier::external_body]
pub(crate) fn io_error_text(e: &std::io::Error) -> String {
    e.to_string()
}

#[verifier::external_type_specification]
#[verifier::external_body]
pub struct ExAnyhowError(anyhow::Error);

/// `anyhow::Error`'s `Display` text: the outermost context or message of
/// the error. Nothing is claimed of it: the error carries no value that
/// the library can see.
#[verifier::external_body]
fn anyhow_error_text(e: &anyhow::Error) -> String {
    e.to_string()
}

/// Whether `s` begins with `prefix`.
pub open spec fn starts_with(s: Seq<char>, prefix: Seq<char>) -> bool {
    prefix.len() <= s.len() && s.take(prefix.len() as int) == prefix
}

pub const IO_ERROR_PREFIX: &'static str = "IO error: ";

/// Application-level errors
#[derive(Debug)]
pub enum AppError {
    /// PDF processing error
    Pdf(PdfError),
    /// Model loading error
    Model(String),
    /// Tokenization error
    Tokenizer(String),
    /// Generation error
    Generation(String),
    /// IO error
    Io(std::io::Error),
    /// Configuration error
    Config(String),
    /// CLI argument error
    Argument(String),
    /// Device/GPU error
    Device(String),
    /// Generic error
    Other(String),
}

pub const PDF_ERROR_PREFIX: &'static str = "PDF error: ";
pub const MODEL_ERROR_PREFIX: &'static str = "Model error: ";
pub const TOKENIZER_ERROR_PREFIX: &'static str = "Tokenizer error: ";
pub const GENERATION_ERROR_PREFIX: &'static str = "Generation error: ";
pub const CONFIG_ERROR_PREFIX: &'static str = "Configuration error: ";
pub const ARGUMENT_ERROR_PREFIX: &'static str = "Argument error: ";
pub const DEVICE_ERROR_PREFIX: &'static str = "Device error: ";

/// Whether `m` is the displayed text of `e`: a prefix naming the kind of
/// error followed by its detail. The detail of an I/O error is the
/// operating system's text, which is left open.
pub open spec fn app_error_message(e: AppError, m: Seq<char>) -> bool {
    match e {
        AppError::Pdf(p) => starts_with(m, PDF_ERROR_PREFIX@) && pdf_error_message(p, m.skip(PDF_ERROR_PREFIX@.len() as int)),
        AppError::Model(s) => m == MODEL_ERROR_PREFIX@ + s@,
        AppError::Tokenizer(s) => m == TOKENIZER_ERROR_PREFIX@ + s@,
        AppError::Generation(s) => m == GENERATION_ERROR_PREFIX@ + s@,
        AppError::Io(_) => starts_with(m, IO_ERROR_PREFIX@),
        AppError::Config(s) => m == CONFIG_ERROR_PREFIX@ + s@,
        AppError::Argument(s) => m == ARGUMENT_ERROR_PREFIX@ + s@,
        AppError::Device(s) => m == DEVICE_ERROR_PREFIX@ + s@,
        AppError::Other(s) => m == s@,
    }
}

proof fn lemma_prefixed(prefix: Seq<char>, rest: Seq<char>)
    ensures
        starts_with(prefix + rest, prefix),
        (prefix + rest).skip(prefix.len() as int) == rest,
{
    assert((prefix + rest).take(prefix.len() as int) == prefix);
    assert((prefix + rest).skip(prefix.len() as int) == rest);
}

/// `prefix` followed by `detail`.
fn prefixed(prefix: &str, detail: &str) -> (r: String)
    ensures
        r@ == prefix@ + detail@,
{
    let mut s = String::from_str(prefix);
    push_str(&mut s, detail);
    s
}

impl AppError {
    /// The error's displayed text.
    pub fn message(&self) -> (r: String)
        ensures
            app_error_message(*self, r@),
    {
        match self {
            AppError::Pdf(p) => {
                let inner = p.message();
                let r = prefixed(PDF_ERROR_PREFIX, inner.as_str());
                proof {
                    lemma_prefixed(PDF_ERROR_PREFIX@, inner@);
                }
                r
            },
            AppError::Model(s) => prefixed(MODEL_ERROR_PREFIX, s.as_str()),
            AppError::Tokenizer(s) => prefixed(TOKENIZER_ERROR_PREFIX, s.as_str()),
            AppError::Generation(s) => prefixed(GENERATION_ERROR_PREFIX, s.as_str()),
            AppError::Io(e) => {
                let t = io_error_text(e);
                let r = prefixed(IO_ERROR_PREFIX, t.as_str());
                proof {
                    lemma_prefixed(IO_ERROR_PREFIX@, t@);
                }
                r
            },
            AppError::Config(s) => prefixed(CONFIG_ERROR_PREFIX, s.as_str()),
            AppError::Argument(s) => prefixed(ARGUMENT_ERROR_PREFIX, s.as_str()),
            AppError::Device(s) => prefixed(DEVICE_ERROR_PREFIX, s.as_str()),
            AppError::Other(s) => String::from_str(s.as_str()),
        }
    }
}

impl From<PdfError> for AppError {
    fn from(e: PdfError) -> (r: AppError) {
        AppError::Pdf(e)
    }
}

impl vstd::std_specs::convert::FromSpecImpl<PdfError> for AppError {
    open spec fn obeys_from_spec() -> bool {
        true
    }

    open spec fn from_spec(v: PdfError) -> AppError {
        AppError::Pdf(v)
    }
}

impl From<std::io::Error> for AppError {
    fn from(e: std::io::Error) -> (r: AppError) {
        AppError::Io(e)
    }
}

impl vstd::std_specs::convert::FromSpecImpl<std::io::Error> for AppError {
    open spec fn obeys_from_spec() -> bool {
        true
    }

    open spec fn from_spec(v: std::io::Error) -> AppError {
        AppError::Io(v)
    }
}

impl From<anyhow::Error> for AppError {
    /// A generic error with the error's displayed text.
    fn from(e: anyhow::Error) -> (r: AppError)
        ensures
            r is Other,
    {
        AppError::Other(anyhow_error_text(&e))
    }
}

/// The text of an `anyhow::Error` is not visible to the library, so no
/// conversion result is specified beyond its kind.
impl vstd::std_specs::convert::FromSpecImpl<anyhow::Error> for AppError {
    open spec fn obeys_from_spec() -> bool {
        false
    }

    open spec fn from_spec(v: anyhow::Error) -> AppError {
        arbitrary()
    }
}

/// The text of an error with a context in front: `"{context}: {error}"`.
pub open spec fn with_context_text(context: Seq<char>, error: Seq<char>) -> Seq<char> {
    context + seq![':', ' '] + error
}

fn context_message(context: &str, error: &str) -> (r: String)
    ensures
        r@ == with_context_text(context@, error@),
{
    let mut s = String::from_str(context);
    crate::text::push_char(&mut s, ':');
    crate::text::push_char(&mut s, ' ');
    push_str(&mut s, error);
    s
}

/// Error context extension trait
pub trait ErrorContext<T>: Sized {
    /// Add context to an error: an error becomes `AppError::Other` holding
    /// the context, `": "` and the error's text; the context is computed
    /// only for an error.
    fn with_context<F: FnOnce() -> String>(self, f: F) -> Result<T, AppError>
        requires
            f.requires(()),
    ;
}

impl<T> ErrorContext<T> for Result<T, AppError> {
    fn with_context<F: FnOnce() -> String>(self, f: F) -> (r: Result<T, AppError>)
        ensures
            match self {
                Ok(v) => r == Ok::<T, AppError>(v),
                Err(e) => r matches Err(AppError::Other(s)) && exists|c: String, m: Seq<char>|
                    f.ensures((), c) && app_error_message(e, m) && s@ == with_context_text(c@, m),
            },
    {
        match self {
            Ok(v) => Ok(v),
            Err(e) => {
                let c = f();
                let m = e.message();
                Err(AppError::Other(context_message(c.as_str(), m.as_str())))
            },
        }
    }
}

impl<T> ErrorContext<T> for Result<T, PdfError> {
    fn with_context<F: FnOnce() -> String>(self, f: F) -> (r: Result<T, AppError>)
        ensures
            match self {
                Ok(v) => r == Ok::<T, AppError>(v),
                Err(e) => r matches Err(AppError::Other(s)) && exists|c: String, m: Seq<char>|
                    f.ensures((), c) && pdf_error_message(e, m) && s@ == with_context_text(c@, m),
            },
    {
        match self {
            Ok(v) => Ok(v),
            Err(e) => {
                let c = f();
                let m = e.message();
                Err(AppError::Other(context_message(c.as_str(), m.as_str())))
            },
        }
    }
}

impl<T> ErrorContext<T> for Result<T, std::io::Error> {
    fn with_context<F: FnOnce() -> String>(self, f: F) -> (r: Result<T, AppError>)
        ensures
            match self {
                Ok(v) => r == Ok::<T, AppError>(v),
                Err(e) => r matches Err(AppError::Other(s)) && exists|c: String, m: String|
                    f.ensures((), c) && s@ == with_context_text(c@, m@),
            },
    {
        match self {
            Ok(v) => Ok(v),
            Err(e) => {
                let c = f();
                let m = io_error_text(&e);
                Err(AppError::Other(context_message(c.as_str(), m.as_str())))
            },
        }
    }
}

} // verus!
