//! PDF text extraction: loading a document, extracting and cleaning its text.

use vstd::prelude::*;
use crate::error::{io_error_text, starts_with, IO_ERROR_PREFIX};
use crate::numfmt::push_str;
use crate::paths::{path_debug, with_path};
use crate::text::{chars_of, push_char, u64_to_decimal, is_cc, is_control, is_ws, string_from_chars, trim, trim_end, trim_start, trim_chars};

verus! {

#[verifier::external_type_specification]
#[verifier::external_body]
pub struct ExLopdfDocument(lopdf::Document);

#[verifier::external_type_specification]
#[verifier::external_body]
pub struct ExLopdfDictionary(lopdf::Dictionary);

#[verifier::external_type_specification]
#[verifier::external_body]
pub struct ExLopdfObject(lopdf::Object);

/// Errors that can occur during PDF processing
#[derive(Debug)]
pub enum PdfError {
    OpenError(String),
    ExtractionError(String),
    EmptyPdf,
    PasswordProtected,
    IoError(std::io::Error),
}

pub const OPEN_ERROR_PREFIX: &'static str = "Failed to open PDF file: ";
pub const EXTRACTION_ERROR_PREFIX: &'static str = "Failed to extract text from PDF: ";
pub const EMPTY_PDF_TEXT: &'static str = "PDF file is empty or contains no extractable text";
pub const PASSWORD_PROTECTED_TEXT: &'static str = "PDF file is password protected";

/// Whether `m` is the displayed text of `e`. The detail of an I/O error is
/// the operating system's text, which is left open.
pub open spec fn pdf_error_message(e: PdfError, m: Seq<char>) -> bool {
    match e {
        PdfError::OpenError(s) => m == OPEN_ERROR_PREFIX@ + s@,
        PdfError::ExtractionError(s) => m == EXTRACTION_ERROR_PREFIX@ + s@,
        PdfError::EmptyPdf => m == EMPTY_PDF_TEXT@,
        PdfError::PasswordProtected => m == PASSWORD_PROTECTED_TEXT@,
        PdfError::IoError(_) => starts_with(m, IO_ERROR_PREFIX@),
    }
}

impl PdfError {
    /// The error's displayed text.
    pub fn message(&self) -> (r: String)
        ensures
            pdf_error_message(*self, r@),
    {
        match self {
            PdfError::OpenError(s) => {
                let mut m = String::from_str(OPEN_ERROR_PREFIX);
                push_str(&mut m, s.as_str());
                m
            },
            PdfError::ExtractionError(s) => {
                let mut m = String::from_str(EXTRACTION_ERROR_PREFIX);
                push_str(&mut m, s.as_str());
                m
            },
            PdfError::EmptyPdf => String::from_str(EMPTY_PDF_TEXT),
            PdfError::PasswordProtected => String::from_str(PASSWORD_PROTECTED_TEXT),
            PdfError::IoError(e) => {
                let t = io_error_text(e);
                let mut m = String::from_str(IO_ERROR_PREFIX);
                push_str(&mut m, t.as_str());
                assert((IO_ERROR_PREFIX@ + t@).take(IO_ERROR_PREFIX@.len() as int) == IO_ERROR_PREFIX@);
                m
            },
        }
    }
}

/// Represents extracted content from a PDF
#[derive(Debug, Clone)]
pub struct PdfContent {
    /// The source file path
    pub source_path: String,
    /// Extracted text content
    pub text: String,
    /// Number of pages in the PDF
    pub page_count: usize,
    /// Metadata if available
    pub metadata: Option<PdfMetadata>,
}

/// PDF metadata
#[derive(Debug, Clone)]
pub struct PdfMetadata {
    pub title: Option<String>,
    pub author: Option<String>,
    pub subject: Option<String>,
    pub creator: Option<String>,
}

impl Default for PdfMetadata {
    fn default() -> (r: PdfMetadata)
        ensures
            r.title is None && r.author is None && r.subject is None && r.creator is None,
    {
        PdfMetadata { title: None, author: None, subject: None, creator: None }
    }
}

/// Scanner state of the text clean-up: the text produced so far, whether the
/// last character kept counts as whitespace, and whether it was a line break.
pub open spec fn clean_scan(s: Seq<char>) -> (Seq<char>, bool, bool)
    decreases s.len(),
{
    if s.len() == 0 {
        (seq![], false, false)
    } else {
        let (out, ws, nl) = clean_scan(s.drop_last());
        let c = s.last();
        if c == '\n' || c == '\r' || c == '\x0C' || c == '\x0B' {
            if !nl {
                (out.push('\n'), true, true)
            } else {
                (out, ws, nl)
            }
        } else if c == ' ' || c == '\t' {
            if !ws {
                (out.push(' '), true, false)
            } else {
                (out, ws, false)
            }
        } else if is_cc(c) {
            (out, ws, nl)
        } else {
            (out.push(c), false, false)
        }
    }
}

/// Extracted text after clean-up: runs of line breaks (`\n`, `\r`, form and
/// line feeds) become one `\n`, runs of spaces and tabs after anything but a
/// line break become one space, other control characters are dropped, and
/// whitespace is trimmed from both ends.
pub open spec fn cleaned_text(s: Seq<char>) -> Seq<char> {
    trim(clean_scan(s).0)
}

/// Clean-up of a text given as characters.
pub fn clean_chars(text: &[char]) -> (res: Vec<char>)
    ensures
        res@ == cleaned_text(text@),
{
    let mut out: Vec<char> = Vec::new();
    let mut prev_ws = false;
    let mut prev_nl = false;
    let mut i: usize = 0;
    while i < text.len()
        invariant
            i <= text.len(),
            clean_scan(text@.take(i as int)) == (out@, prev_ws, prev_nl),
        decreases text.len() - i,
    {
        assert(text@.take((i + 1) as int).drop_last() == text@.take(i as int));
        let ch = text[i];
        if ch == '\n' || ch == '\r' || ch == '\x0C' || ch == '\x0B' {
            if !prev_nl {
                out.push('\n');
                prev_nl = true;
                prev_ws = true;
            }
        } else if ch == ' ' || ch == '\t' {
            if !prev_ws {
                out.push(' ');
                prev_ws = true;
            }
            prev_nl = false;
        } else if is_control(ch) {
        } else {
            out.push(ch);
            prev_ws = false;
            prev_nl = false;
        }
        i += 1;
    }
    assert(text@.take(text.len() as int) == text@);
    trim_chars(out.as_slice())
}

/// Whether `lopdf::Document::load_mem` accepts the bytes as a PDF document.
pub uninterp spec fn pdf_document_loads(bytes: Seq<u8>) -> bool;

/// Number of pages `lopdf` finds in the document the bytes hold.
pub uninterp spec fn pdf_page_count(bytes: Seq<u8>) -> usize;

/// A loaded PDF document together with the bytes it was loaded from.
struct PdfDocument {
    doc: lopdf::Document,
    bytes: Ghost<Seq<u8>>,
}

impl View for PdfDocument {
    type V = Seq<u8>;

    closed spec fn view(&self) -> Seq<u8> {
        self.bytes@
    }
}

/// `lopdf::Document::load_mem`, the error turned into its message. Claims
/// success exactly on the bytes `pdf_document_loads` accepts.
#[verifier::external_body]
fn lopdf_load_mem(bytes: &[u8]) -> (r: Result<lopdf::Document, String>)
    ensures
        r is Ok <==> pdf_document_loads(bytes@),
{
    lopdf::Document::load_mem(bytes).map_err(|e| e.to_string())
}

/// `Document::get_pages().len()`. Claims it is `pdf_page_count` of the bytes
/// the document was loaded from.
#[verifier::external_body]
fn lopdf_page_count(d: &PdfDocument) -> (r: usize)
    ensures
        r == pdf_page_count(d@),
{
    d.doc.get_pages().len()
}

/// Whether the dictionary at `dict` of the document the bytes hold has an
/// entry `key` (`Dictionary::get(key)` succeeds). A dictionary is located by
/// the id of the object that holds it, `None` standing for the trailer.
pub uninterp spec fn pdf_entry_present(bytes: Seq<u8>, dict: Option<(u32, u16)>, key: Seq<u8>) -> bool;

/// The object id the entry `key` of the dictionary at `dict` refers to, when
/// it is a reference (`Object::as_reference`).
pub uninterp spec fn pdf_entry_reference(bytes: Seq<u8>, dict: Option<(u32, u16)>, key: Seq<u8>) -> Option<(u32, u16)>;

/// Whether the object `id` of the document is (or refers to) a dictionary
/// (`Document::get_dictionary(id)` succeeds).
pub uninterp spec fn pdf_is_dictionary(bytes: Seq<u8>, id: (u32, u16)) -> bool;

/// The entry `key` of the dictionary at `dict` decoded as a PDF text string
/// (UTF-16BE after its byte order mark, UTF-8 after its byte order mark,
/// PDFDocEncoding otherwise), when it is a string that decodes
/// (`lopdf::decode_text_string`).
pub uninterp spec fn pdf_entry_text(bytes: Seq<u8>, dict: Option<(u32, u16)>, key: Seq<u8>) -> Option<Seq<char>>;

/// A dictionary of a loaded document, with where it was found: the bytes
/// the document was loaded from and the id of the object holding it
/// (`None` for the trailer). Only the wrappers below make one.
struct PdfDict<'a> {
    dict: &'a lopdf::Dictionary,
    bytes: Ghost<Seq<u8>>,
    at: Ghost<Option<(u32, u16)>>,
}

/// The entry `key` of a dictionary of a loaded document, with where it was
/// found. Only the wrappers below make one.
struct PdfEntry<'a> {
    obj: &'a lopdf::Object,
    bytes: Ghost<Seq<u8>>,
    dict: Ghost<Option<(u32, u16)>>,
    key: Ghost<Seq<u8>>,
}

/// The document's trailer dictionary (`Document::trailer`, a field read).
#[verifier::external_body]
fn lopdf_trailer<'a>(d: &'a PdfDocument) -> (r: PdfDict<'a>)
    ensures
        r.bytes@ == d@,
        r.at@ is None,
{
    PdfDict { dict: &d.doc.trailer, bytes: Ghost(d@), at: Ghost(None) }
}

/// `Dictionary::get(key).ok()`. Claims an entry comes back exactly when
/// `pdf_entry_present` holds of the dictionary's place and the key, and
/// that it is that entry.
#[verifier::external_body]
fn lopdf_dictionary_get<'a>(dict: &PdfDict<'a>, key: &[u8]) -> (r: Option<PdfEntry<'a>>)
    ensures
        r is Some <==> pdf_entry_present(dict.bytes@, dict.at@, key@),
        r matches Some(e) ==> e.bytes@ == dict.bytes@ && e.dict@ == dict.at@ && e.key@ == key@,
{
    dict.dict.get(key).ok().map(|obj| PdfEntry { obj, bytes: Ghost(dict.bytes@), dict: Ghost(dict.at@), key: Ghost(key@) })
}

/// `Object::as_reference().ok()`, the object id as its number and
/// generation. Claims it is `pdf_entry_reference` of the entry's place.
#[verifier::external_body]
fn lopdf_as_reference(e: &PdfEntry) -> (r: Option<(u32, u16)>)
    ensures
        r == pdf_entry_reference(e.bytes@, e.dict@, e.key@),
{
    e.obj.as_reference().ok()
}

/// `Document::get_dictionary(id).ok()`. Claims a dictionary comes back
/// exactly when `pdf_is_dictionary` holds of the id, and that it is the
/// one held by object `id`.
#[verifier::external_body]
fn lopdf_get_dictionary<'a>(d: &'a PdfDocument, id: (u32, u16)) -> (r: Option<PdfDict<'a>>)
    ensures
        r is Some <==> pdf_is_dictionary(d@, id),
        r matches Some(x) ==> x.bytes@ == d@ && x.at@ == Some(id),
{
    d.doc.get_dictionary(id).ok().map(|dict| PdfDict { dict, bytes: Ghost(d@), at: Ghost(Some(id)) })
}

/// `lopdf::decode_text_string(obj).ok()`: a string object decoded as a PDF
/// text string. Claims the text is `pdf_entry_text` of the entry's place.
#[verifier::external_body]
fn lopdf_decode_text(e: &PdfEntry) -> (r: Option<String>)
    ensures
        match r {
            Some(t) => pdf_entry_text(e.bytes@, e.dict@, e.key@) == Some(t@),
            None => pdf_entry_text(e.bytes@, e.dict@, e.key@) is None,
        },
{
    lopdf::decode_text_string(e.obj).ok()
}

/// The id of the document's `Info` dictionary: the trailer's `Info` entry,
/// when it refers to an object that is a dictionary.
pub open spec fn info_dictionary_id(bytes: Seq<u8>) -> Option<(u32, u16)> {
    if !pdf_entry_present(bytes, None, INFO_KEY@) {
        None
    } else {
        match pdf_entry_reference(bytes, None, INFO_KEY@) {
            Some(id) => if pdf_is_dictionary(bytes, id) { Some(id) } else { None },
            None => None,
        }
    }
}

/// The string entry `key` of the dictionary held by object `id`.
pub open spec fn info_text(bytes: Seq<u8>, id: (u32, u16), key: Seq<u8>) -> Option<Seq<char>> {
    if pdf_entry_present(bytes, Some(id), key) {
        pdf_entry_text(bytes, Some(id), key)
    } else {
        None
    }
}

/// An optional text as characters.
pub open spec fn opt_text(s: Option<String>) -> Option<Seq<char>> {
    match s {
        Some(t) => Some(t@),
        None => None,
    }
}

/// The metadata of the document the bytes hold: title, author, subject and
/// creator of its `Info` dictionary, each where it is a string.
pub open spec fn metadata_matches(m: Option<PdfMetadata>, bytes: Seq<u8>) -> bool {
    match info_dictionary_id(bytes) {
        None => m is None,
        Some(id) => m matches Some(md) && {
            &&& opt_text(md.title) == info_text(bytes, id, TITLE_KEY@)
            &&& opt_text(md.author) == info_text(bytes, id, AUTHOR_KEY@)
            &&& opt_text(md.subject) == info_text(bytes, id, SUBJECT_KEY@)
            &&& opt_text(md.creator) == info_text(bytes, id, CREATOR_KEY@)
        },
    }
}

/// The texts of the pages, in order, a line break between each two.
pub open spec fn pages_joined(pages: Seq<Seq<char>>) -> Seq<char>
    decreases pages.len(),
{
    if pages.len() == 0 {
        seq![]
    } else if pages.len() == 1 {
        pages[0]
    } else {
        pages_joined(pages.drop_last()) + seq!['\n'] + pages.last()
    }
}

/// How many pages extraction needs of a document of `page_count` pages:
/// the first `max_pages`, or all when `max_pages` is 0.
pub open spec fn pages_needed(page_count: nat, max_pages: usize) -> nat {
    if max_pages == 0 || page_count <= max_pages { page_count } else { max_pages as nat }
}

/// The text extraction keeps: that of the first `max_pages` pages, or of
/// every page when `max_pages` is 0.
pub open spec fn kept_text(pages: Seq<Seq<char>>, max_pages: usize) -> Seq<char> {
    if max_pages == 0 || pages.len() <= max_pages {
        pages_joined(pages)
    } else {
        pages_joined(pages.take(max_pages as int))
    }
}

/// The page texts a text extractor gave, as characters.
pub open spec fn pages_view(pages: Result<Vec<String>, String>) -> Option<Seq<Seq<char>>> {
    match pages {
        Ok(v) => Some(v.deep_view()),
        Err(_) => None,
    }
}

/// How extraction of one file ends, given its bytes and the texts of its
/// pages (`None` when page extraction failed): the cleaned text of the
/// pages kept, or the error. Page texts stop at the first page that could
/// not be extracted, so fewer than the pages needed is an extraction error.
pub open spec fn pdf_outcome(bytes: Seq<u8>, pages: Option<Seq<Seq<char>>>, max_pages: usize) -> Result<Seq<char>, PdfError> {
    if !pdf_document_loads(bytes) {
        Err(PdfError::OpenError(arbitrary()))
    } else {
        match pages {
            None => Err(PdfError::ExtractionError(arbitrary())),
            Some(ps) => if ps.len() < pages_needed(pdf_page_count(bytes) as nat, max_pages) {
                Err(PdfError::ExtractionError(arbitrary()))
            } else if cleaned_text(kept_text(ps, max_pages)).len() == 0 {
                Err(PdfError::EmptyPdf)
            } else {
                Ok(cleaned_text(kept_text(ps, max_pages)))
            },
        }
    }
}

/// Whether extraction of the bytes ends in the same way as `expected`:
/// the same text, or an error of the same kind.
pub open spec fn same_outcome(r: Result<PdfContent, PdfError>, expected: Result<Seq<char>, PdfError>) -> bool {
    match (r, expected) {
        (Ok(c), Ok(t)) => c.text@ == t,
        (Err(PdfError::OpenError(_)), Err(PdfError::OpenError(_))) => true,
        (Err(PdfError::ExtractionError(_)), Err(PdfError::ExtractionError(_))) => true,
        (Err(PdfError::EmptyPdf), Err(PdfError::EmptyPdf)) => true,
        (Err(PdfError::IoError(a)), Err(PdfError::IoError(b))) => a == b,
        _ => false,
    }
}

/// The `/Info` key.
pub const INFO_KEY: [u8; 4] = [73u8, 110, 102, 111];

/// The `/Title` key.
pub const TITLE_KEY: [u8; 5] = [84u8, 105, 116, 108, 101];

/// The `/Author` key.
pub const AUTHOR_KEY: [u8; 6] = [65u8, 117, 116, 104, 111, 114];

/// The `/Subject` key.
pub const SUBJECT_KEY: [u8; 7] = [83u8, 117, 98, 106, 101, 99, 116];

/// The `/Creator` key.
pub const CREATOR_KEY: [u8; 7] = [67u8, 114, 101, 97, 116, 111, 114];

/// A file to extract: its path, what reading it gave, and the texts of its
/// pages as `pdf_extract::extract_text_from_mem_by_pages` gives them (or its
/// error message).
pub struct PdfSource {
    pub path: String,
    pub bytes: Result<Vec<u8>, std::io::Error>,
    pub page_texts: Result<Vec<String>, String>,
}

/// Why a file of a batch could not be extracted.
#[derive(Debug)]
pub enum ExtractFailure {
    /// The file at the path could not be read.
    Unreadable(String, std::io::Error),
    /// The file was read, and its extraction failed.
    Pdf(PdfError),
}

pub const UNREADABLE_HEAD: &'static str = "Failed to read PDF file: ";

impl ExtractFailure {
    /// The failure's text: the path (as `{:?}` shows it) of a file that
    /// could not be read, or the extraction error's text.
    pub fn message(&self) -> (r: String)
        ensures
            self matches ExtractFailure::Unreadable(p, _) ==> r@ == UNREADABLE_HEAD@ + path_debug(p@),
            self matches ExtractFailure::Pdf(e) ==> pdf_error_message(*e, r@),
    {
        match self {
            ExtractFailure::Unreadable(p, _) => with_path(UNREADABLE_HEAD, p.as_str()),
            ExtractFailure::Pdf(e) => e.message(),
        }
    }
}

/// How extraction of one source ends: a read error, or the outcome of its
/// bytes and pages.
pub open spec fn source_outcome(src: PdfSource, max_pages: usize) -> Result<Seq<char>, ExtractFailure> {
    match src.bytes {
        Err(e) => Err(ExtractFailure::Unreadable(src.path, e)),
        Ok(b) => match pdf_outcome(b@, pages_view(src.page_texts), max_pages) {
            Ok(t) => Ok(t),
            Err(e) => Err(ExtractFailure::Pdf(e)),
        },
    }
}

/// Whether a batch failure is the one expected: the same path and I/O
/// error, or an extraction error of the same kind.
pub open spec fn same_failure(f: ExtractFailure, expected: Result<Seq<char>, ExtractFailure>) -> bool {
    match (f, expected) {
        (ExtractFailure::Unreadable(p, a), Err(ExtractFailure::Unreadable(q, b))) => p@ == q@ && a == b,
        (ExtractFailure::Pdf(x), Err(ExtractFailure::Pdf(y))) => same_outcome(Err(x), Err(y)),
        _ => false,
    }
}

/// Path and cleaned text of each source whose extraction succeeds, in order.
pub open spec fn extracted(srcs: Seq<PdfSource>, max_pages: usize) -> Seq<(Seq<char>, Seq<char>)>
    decreases srcs.len(),
{
    if srcs.len() == 0 {
        seq![]
    } else {
        let rest = extracted(srcs.drop_last(), max_pages);
        match source_outcome(srcs.last(), max_pages) {
            Ok(t) => rest.push((srcs.last().path@, t)),
            Err(_) => rest,
        }
    }
}

/// Path and text of each extracted content.
pub open spec fn contents_view(v: Seq<PdfContent>) -> Seq<(Seq<char>, Seq<char>)> {
    v.map_values(|c: PdfContent| (c.source_path@, c.text@))
}

/// The text of the pages extraction keeps, a line break between each two.
fn join_pages(pages: &Vec<String>, max_pages: usize) -> (r: String)
    ensures
        r@ == kept_text(pages.deep_view(), max_pages),
{
    let n: usize = if max_pages == 0 || pages.len() <= max_pages { pages.len() } else { max_pages };
    let ghost dv = pages.deep_view();
    let mut out = String::new();
    let mut i: usize = 0;
    while i < n
        invariant
            n <= pages.len(),
            dv == pages.deep_view(),
            i <= n,
            out@ == pages_joined(dv.take(i as int)),
        decreases n - i,
    {
        assert(dv.take((i + 1) as int).drop_last() == dv.take(i as int));
        if i > 0 {
            push_char(&mut out, '\n');
        } else {
            assert(dv.take(1)[0] == dv[0]);
        }
        push_str(&mut out, pages[i].as_str());
        i += 1;
    }
    assert(dv.take(pages.len() as int) == dv);
    out
}

/// PDF text extractor
pub struct PdfExtractor {
    /// Whether to preserve formatting
    pub preserve_formatting: bool,
    /// Maximum pages to extract (0 = all)
    pub max_pages: usize,
}

impl Default for PdfExtractor {
    fn default() -> (r: PdfExtractor)
        ensures
            !r.preserve_formatting && r.max_pages == 0,
    {
        PdfExtractor { preserve_formatting: false, max_pages: 0 }
    }
}

impl PdfExtractor {
    /// Create a new PDF extractor
    pub fn new() -> (r: PdfExtractor)
        ensures
            !r.preserve_formatting && r.max_pages == 0,
    {
        PdfExtractor { preserve_formatting: false, max_pages: 0 }
    }

    /// Set whether to preserve formatting
    pub fn with_formatting(self, preserve: bool) -> (r: PdfExtractor)
        ensures
            r.preserve_formatting == preserve && r.max_pages == self.max_pages,
    {
        PdfExtractor { preserve_formatting: preserve, max_pages: self.max_pages }
    }

    /// Set maximum pages to extract
    pub fn with_max_pages(self, max: usize) -> (r: PdfExtractor)
        ensures
            r.max_pages == max && r.preserve_formatting == self.preserve_formatting,
    {
        PdfExtractor { preserve_formatting: self.preserve_formatting, max_pages: max }
    }

    /// Extract text from the bytes of a PDF file read from `source_path`,
    /// given the texts of its pages (from
    /// `pdf_extract::extract_text_from_mem_by_pages`, run by the caller): the
    /// cleaned text of the first `max_pages` pages, or of all when it is 0,
    /// a line break between each two pages. Fewer page texts than that
    /// number of pages (extraction stopped at a page that failed) is an
    /// extraction error.
    pub fn extract(&self, source_path: &str, bytes: &[u8], page_texts: Result<Vec<String>, String>) -> (r: Result<PdfContent, PdfError>)
        ensures
            same_outcome(r, pdf_outcome(bytes@, pages_view(page_texts), self.max_pages)),
            r matches Ok(c) ==> c.source_path@ == source_path@ && c.page_count == pdf_page_count(bytes@),
            r matches Ok(c) ==> metadata_matches(c.metadata, bytes@),
    {
        let doc = match lopdf_load_mem(bytes) {
            Ok(d) => PdfDocument { doc: d, bytes: Ghost(bytes@) },
            Err(e) => return Err(PdfError::OpenError(e)),
        };
        let page_count = lopdf_page_count(&doc);
        let metadata = self.extract_metadata(&doc);
        let pages = match page_texts {
            Ok(p) => p,
            Err(e) => return Err(PdfError::ExtractionError(e)),
        };
        let needed: usize = if self.max_pages == 0 || page_count <= self.max_pages { page_count } else { self.max_pages };
        if pages.len() < needed {
            let mut m = String::from_str("page ");
            let shown = u64_to_decimal(pages.len() as u64 + 1);
            push_str(&mut m, shown.as_str());
            push_str(&mut m, " of the document could not be extracted");
            return Err(PdfError::ExtractionError(m));
        }
        let raw = join_pages(&pages, self.max_pages);
        let text = self.clean_text(raw.as_str());
        if text.as_str().unicode_len() == 0 {
            return Err(PdfError::EmptyPdf);
        }
        Ok(PdfContent { source_path: String::from_str(source_path), text, page_count, metadata })
    }

    /// Extract text from several files. With `skip_errors` the files that
    /// fail are left out; without it the first failure is returned.
    pub fn extract_multiple(&self, sources: Vec<PdfSource>, skip_errors: bool) -> (r: Result<Vec<PdfContent>, ExtractFailure>)
        ensures
            r matches Ok(v) ==> contents_view(v@) == extracted(sources@, self.max_pages),
            skip_errors ==> r is Ok,
            !skip_errors ==> (r is Ok <==> forall|i: int| 0 <= i < sources.len() ==> (#[trigger] source_outcome(sources@[i], self.max_pages)) is Ok),
            r matches Err(e) ==> exists|i: int| 0 <= i < sources.len()
                && same_failure(e, source_outcome(#[trigger] sources@[i], self.max_pages))
                && forall|k: int| 0 <= k < i ==> (#[trigger] source_outcome(sources@[k], self.max_pages)) is Ok,
    {
        let ghost srcs = sources@;
        let mut results: Vec<PdfContent> = Vec::new();
        let n = sources.len();
        let mut pending = sources;
        let mut rest: Vec<PdfSource> = Vec::new();
        while pending.len() > 0
            invariant
                n == srcs.len(),
                pending.len() + rest.len() == n,
                forall|k: int| 0 <= k < pending.len() ==> pending@[k] == srcs[k],
                forall|k: int| 0 <= k < rest.len() ==> rest@[k] == srcs[n - 1 - k],
            decreases pending.len(),
        {
            let last = pending.pop().unwrap();
            rest.push(last);
        }
        let mut i: usize = 0;
        while rest.len() > 0
            invariant
                n == srcs.len(),
                srcs == sources@,
                i + rest.len() == n,
                forall|k: int| 0 <= k < rest.len() ==> rest@[k] == srcs[n - 1 - k],
                contents_view(results@) == extracted(srcs.take(i as int), self.max_pages),
                !skip_errors ==> forall|k: int| 0 <= k < i ==> (#[trigger] source_outcome(srcs[k], self.max_pages)) is Ok,
            decreases rest.len(),
        {
            let src = rest.pop().unwrap();
            assert(src == srcs[i as int]);
            assert(srcs.take((i + 1) as int).drop_last() == srcs.take(i as int));
            let PdfSource { path, bytes, page_texts } = src;
            let outcome: Result<PdfContent, ExtractFailure> = match bytes {
                Ok(b) => match self.extract(path.as_str(), b.as_slice(), page_texts) {
                    Ok(c) => Ok(c),
                    Err(e) => Err(ExtractFailure::Pdf(e)),
                },
                Err(e) => Err(ExtractFailure::Unreadable(path, e)),
            };
            assert(outcome matches Ok(c) ==> source_outcome(srcs[i as int], self.max_pages) == Ok::<Seq<char>, ExtractFailure>(c.text@));
            assert(outcome matches Err(f) ==> same_failure(f, source_outcome(srcs[i as int], self.max_pages)));
            match outcome {
                Ok(content) => {
                    let ghost before = results@;
                    let ghost cv = (content.source_path@, content.text@);
                    assert(cv == (srcs[i as int].path@, source_outcome(srcs[i as int], self.max_pages)->Ok_0));
                    results.push(content);
                    assert(results@.drop_last() == before);
                    assert(contents_view(results@) =~= contents_view(before).push(cv));
                },
                Err(e) => {
                    assert(source_outcome(srcs[i as int], self.max_pages) is Err);
                    if !skip_errors {
                        assert(same_failure(e, source_outcome(srcs[i as int], self.max_pages)));
                        assert(forall|k: int| 0 <= k < i ==> (#[trigger] source_outcome(srcs[k], self.max_pages)) is Ok);
                        return Err(e);
                    }
                },
            }
            i += 1;
        }
        assert(srcs.take(n as int) == srcs);
        assert(i == n);
        Ok(results)
    }

    /// Metadata from the document's `Info` dictionary: title, author,
    /// subject and creator where they are strings; `None` when the trailer
    /// names no `Info` dictionary.
    fn extract_metadata(&self, doc: &PdfDocument) -> (r: Option<PdfMetadata>)
        ensures
            metadata_matches(r, doc@),
    {
        let trailer = lopdf_trailer(doc);
        let info_ref = lopdf_dictionary_get(&trailer, INFO_KEY.as_slice())?;
        let info_id = lopdf_as_reference(&info_ref)?;
        let info_dict = lopdf_get_dictionary(doc, info_id)?;
        Some(PdfMetadata {
            title: Self::info_string(&info_dict, TITLE_KEY.as_slice()),
            author: Self::info_string(&info_dict, AUTHOR_KEY.as_slice()),
            subject: Self::info_string(&info_dict, SUBJECT_KEY.as_slice()),
            creator: Self::info_string(&info_dict, CREATOR_KEY.as_slice()),
        })
    }

    /// The string entry `key` of a dictionary, when it has one.
    fn info_string(dict: &PdfDict, key: &[u8]) -> (r: Option<String>)
        ensures
            opt_text(r) == (if pdf_entry_present(dict.bytes@, dict.at@, key@) {
                pdf_entry_text(dict.bytes@, dict.at@, key@)
            } else {
                None
            }),
    {
        match lopdf_dictionary_get(dict, key) {
            Some(obj) => lopdf_decode_text(&obj),
            None => None,
        }
    }

    /// Clean up extracted text
    pub fn clean_text(&self, text: &str) -> (r: String)
        ensures
            r@ == cleaned_text(text@),
    {
        let chars = chars_of(text);
        let cleaned = clean_chars(chars.as_slice());
        string_from_chars(cleaned.as_slice())
    }
}


/// The characters of `s` that are neither whitespace nor control
/// characters, in order: the visible content of a text.
pub open spec fn visible(s: Seq<char>) -> Seq<char>
    decreases s.len(),
{
    if s.len() == 0 {
        seq![]
    } else {
        let v = visible(s.drop_last());
        let c = s.last();
        if is_ws(c) || is_cc(c) { v } else { v.push(c) }
    }
}

/// No two spaces side by side, and no space right after a line break.
pub open spec fn spacing_collapsed(s: Seq<char>) -> bool {
    forall|i: int| 0 <= i < s.len() - 1 ==> #[trigger] s[i + 1] == ' ' ==> s[i] != ' ' && s[i] != '\n'
}

/// The only control character in `s` is the line break.
pub open spec fn only_newline_controls(s: Seq<char>) -> bool {
    forall|i: int| 0 <= i < s.len() ==> is_cc(#[trigger] s[i]) ==> s[i] == '\n'
}

/// `s` neither starts nor ends with whitespace.
pub open spec fn trimmed(s: Seq<char>) -> bool {
    s.len() > 0 ==> !is_ws(s[0]) && !is_ws(s.last())
}

proof fn lemma_visible_drop_first(s: Seq<char>)
    requires
        s.len() > 0,
    ensures
        visible(s) == (if is_ws(s[0]) || is_cc(s[0]) { seq![] } else { seq![s[0]] }) + visible(s.drop_first()),
    decreases s.len(),
{
    if s.len() == 1 {
        assert(s.drop_last().len() == 0);
        assert(s.drop_first().len() == 0);
        assert(visible(s.drop_first()) == Seq::<char>::empty());
        assert(visible(s.drop_last()) == Seq::<char>::empty());
        assert(s.last() == s[0]);
        let head: Seq<char> = if is_ws(s[0]) || is_cc(s[0]) { seq![] } else { seq![s[0]] };
        assert(head + Seq::<char>::empty() =~= head);
        assert(Seq::<char>::empty().push(s[0]) =~= seq![s[0]]);
    } else {
        let dl = s.drop_last();
        let df = s.drop_first();
        lemma_visible_drop_first(dl);
        assert(dl.drop_first() =~= df.drop_last());
        assert(df.last() == s.last());
        assert(dl[0] == s[0]);
        let head: Seq<char> = if is_ws(s[0]) || is_cc(s[0]) { seq![] } else { seq![s[0]] };
        let c = s.last();
        if is_ws(c) || is_cc(c) {
            assert(visible(s) == visible(dl));
            assert(visible(df) == visible(df.drop_last()));
        } else {
            assert(visible(s) == visible(dl).push(c));
            assert(visible(df) == visible(df.drop_last()).push(c));
            assert((head + visible(df.drop_last())).push(c) =~= head + visible(df.drop_last()).push(c));
        }
    }
}

proof fn lemma_visible_trim_start(s: Seq<char>)
    ensures
        visible(trim_start(s)) == visible(s),
    decreases s.len(),
{
    if s.len() > 0 && is_ws(s[0]) {
        lemma_visible_drop_first(s);
        lemma_visible_trim_start(s.drop_first());
    }
}

proof fn lemma_visible_trim_end(s: Seq<char>)
    ensures
        visible(trim_end(s)) == visible(s),
    decreases s.len(),
{
    if s.len() > 0 && is_ws(s.last()) {
        lemma_visible_trim_end(s.drop_last());
    }
}

/// Facts the clean-up scan keeps: the visible content so far, collapsed
/// spacing, only line breaks as controls, and a trailing space or line
/// break always recorded as whitespace.
proof fn lemma_clean_scan(s: Seq<char>)
    ensures
        visible(clean_scan(s).0) == visible(s),
        spacing_collapsed(clean_scan(s).0),
        only_newline_controls(clean_scan(s).0),
        clean_scan(s).0.len() > 0 && (clean_scan(s).0.last() == ' ' || clean_scan(s).0.last() == '\n') ==> clean_scan(s).1,
    decreases s.len(),
{
    if s.len() > 0 {
        lemma_clean_scan(s.drop_last());
        let (out, ws, nl) = clean_scan(s.drop_last());
        let c = s.last();
        let out2 = clean_scan(s).0;
        if out2.len() == out.len() + 1 {
            assert(out2.drop_last() == out);
            assert forall|i: int| 0 <= i < out2.len() - 1 implies #[trigger] out2[i + 1] == ' ' ==> out2[i] != ' ' && out2[i] != '\n' by {
                if i + 1 < out.len() {
                    assert(out2[i + 1] == out[i + 1]);
                    assert(out2[i] == out[i]);
                }
            }
            assert forall|i: int| 0 <= i < out2.len() implies is_cc(#[trigger] out2[i]) ==> out2[i] == '\n' by {
                if i < out.len() {
                    assert(out2[i] == out[i]);
                }
            }
        }
    }
}

proof fn lemma_trim_is_slice(s: Seq<char>)
    ensures
        exists|i: int, j: int| 0 <= i <= j <= s.len() && trim(s) == s.subrange(i, j),
    decreases s.len(),
{
    lemma_trim_start_slice(s);
    let t = trim_start(s);
    let i = choose|i: int| 0 <= i <= s.len() && t == s.subrange(i, s.len() as int);
    lemma_trim_end_slice(t);
    let j = choose|j: int| 0 <= j <= t.len() && trim_end(t) == t.subrange(0, j);
    assert(trim(s) == s.subrange(i, i + j));
}

proof fn lemma_trim_start_slice(s: Seq<char>)
    ensures
        exists|i: int| 0 <= i <= s.len() && trim_start(s) == s.subrange(i, s.len() as int),
    decreases s.len(),
{
    if s.len() > 0 && is_ws(s[0]) {
        lemma_trim_start_slice(s.drop_first());
        let i = choose|i: int| 0 <= i <= s.drop_first().len() && trim_start(s.drop_first()) == s.drop_first().subrange(i, s.drop_first().len() as int);
        assert(s.drop_first().subrange(i, s.drop_first().len() as int) == s.subrange(i + 1, s.len() as int));
    } else {
        assert(s.subrange(0, s.len() as int) == s);
    }
}

proof fn lemma_trim_end_slice(s: Seq<char>)
    ensures
        exists|j: int| 0 <= j <= s.len() && trim_end(s) == s.subrange(0, j),
    decreases s.len(),
{
    if s.len() > 0 && is_ws(s.last()) {
        lemma_trim_end_slice(s.drop_last());
        let j = choose|j: int| 0 <= j <= s.drop_last().len() && trim_end(s.drop_last()) == s.drop_last().subrange(0, j);
        assert(s.drop_last().subrange(0, j) == s.subrange(0, j));
    } else {
        assert(s.subrange(0, s.len() as int) == s);
    }
}

proof fn lemma_trim_ends(s: Seq<char>)
    ensures
        trimmed(trim(s)),
{
    lemma_trim_start_first(s);
    let t = trim_start(s);
    lemma_trim_end_last(t);
    lemma_trim_end_slice(t);
    let j = choose|j: int| 0 <= j <= t.len() && trim_end(t) == t.subrange(0, j);
    if trim(s).len() > 0 {
        assert(trim(s)[0] == t[0]);
    }
}

proof fn lemma_trim_start_first(s: Seq<char>)
    ensures
        trim_start(s).len() > 0 ==> !is_ws(trim_start(s)[0]),
    decreases s.len(),
{
    if s.len() > 0 && is_ws(s[0]) {
        lemma_trim_start_first(s.drop_first());
    }
}

proof fn lemma_trim_end_last(s: Seq<char>)
    ensures
        trim_end(s).len() > 0 ==> !is_ws(trim_end(s).last()),
    decreases s.len(),
{
    if s.len() > 0 && is_ws(s.last()) {
        lemma_trim_end_last(s.drop_last());
    }
}

/// Cleaning extracted text changes only whitespace and control
/// characters: the visible characters are kept, in order. The result has
/// no two spaces side by side, no space after a line break, no control
/// character but the line break, and no whitespace at either end.
pub proof fn lemma_clean_text_laws(s: Seq<char>)
    ensures
        visible(cleaned_text(s)) == visible(s),
        spacing_collapsed(cleaned_text(s)),
        only_newline_controls(cleaned_text(s)),
        trimmed(cleaned_text(s)),
{
    lemma_clean_scan(s);
    let out = clean_scan(s).0;
    lemma_visible_trim_start(out);
    lemma_visible_trim_end(trim_start(out));
    lemma_trim_ends(out);
    lemma_trim_is_slice(out);
    let (i, j) = choose|i: int, j: int| 0 <= i <= j <= out.len() && trim(out) == out.subrange(i, j);
    let t = trim(out);
    assert forall|k: int| 0 <= k < t.len() - 1 implies #[trigger] t[k + 1] == ' ' ==> t[k] != ' ' && t[k] != '\n' by {
        assert(t[k + 1] == out[i + k + 1]);
        assert(t[k] == out[i + k]);
    }
    assert forall|k: int| 0 <= k < t.len() implies is_cc(#[trigger] t[k]) ==> t[k] == '\n' by {
        assert(t[k] == out[i + k]);
    }
}

} // verus!
