//! Output formatting: how summary results are rendered as text.

use vstd::prelude::*;
use crate::numfmt::{push_str, size_string, size_text};
use crate::pipeline::SummaryResult;
use crate::text::{chars_of, decimal, push_char, string_from_chars, u64_to_decimal};

verus! {

/// Output format
#[derive(Debug, Clone, Copy, PartialEq, Eq, Structural)]
pub enum OutputFormat {
    /// Plain text
    Plain,
    /// JSON format
    Json,
    /// Markdown format
    Markdown,
}

/// Start of the path segment that ends just before `j`: the position after
/// the last `/` before `j`, or 0.
pub open spec fn segment_start(p: Seq<char>, j: int) -> int
    decreases j,
{
    if j <= 0 {
        0
    } else if p[j - 1] == '/' {
        j
    } else {
        segment_start(p, j - 1)
    }
}

pub proof fn lemma_segment_start(p: Seq<char>, j: int)
    requires
        0 <= j <= p.len(),
    ensures
        0 <= segment_start(p, j) <= j,
        j > 0 && p[j - 1] != '/' ==> segment_start(p, j) < j,
        forall|k: int| segment_start(p, j) <= k < j ==> p[k] != '/',
        segment_start(p, j) > 0 ==> p[segment_start(p, j) - 1] == '/',
    decreases j,
{
    if j > 0 && p[j - 1] != '/' {
        lemma_segment_start(p, j - 1);
    }
}

/// `Path::file_name` of the path `p[..j]` (Unix rules): trailing `/` and
/// `.` components are skipped; a final `..`, or nothing, gives `None`.
pub open spec fn file_name_upto(p: Seq<char>, j: int) -> Option<Seq<char>>
    decreases j,
{
    if j <= 0 || j > p.len() {
        None
    } else if p[j - 1] == '/' {
        file_name_upto(p, j - 1)
    } else {
        let i = segment_start(p, j);
        let seg = p.subrange(i, j);
        if seg == seq!['.'] {
            if 0 <= i < j {
                file_name_upto(p, i)
            } else {
                None
            }
        } else if seg == seq!['.', '.'] {
            None
        } else {
            Some(seg)
        }
    }
}

/// `Path::file_name` of `p`.
pub open spec fn file_name(p: Seq<char>) -> Option<Seq<char>> {
    file_name_upto(p, p.len() as int)
}

/// Position of the last `.` in `s[..j]`, or -1.
pub open spec fn last_dot(s: Seq<char>, j: int) -> int
    decreases j,
{
    if j <= 0 {
        -1
    } else if s[j - 1] == '.' {
        j - 1
    } else {
        last_dot(s, j - 1)
    }
}

/// `Path::extension` of `p`: what follows the last `.` of the file name,
/// unless that `.` starts the name.
pub open spec fn extension(p: Seq<char>) -> Option<Seq<char>> {
    match file_name(p) {
        Some(n) => {
            let k = last_dot(n, n.len() as int);
            if k <= 0 { None } else { Some(n.skip(k + 1)) }
        },
        None => None,
    }
}

/// The file name of a path.
pub fn path_file_name(path: &str) -> (r: Option<String>)
    ensures
        match r {
            Some(s) => file_name(path@) == Some(s@),
            None => file_name(path@) is None,
        },
{
    let c = chars_of(path);
    let mut j: usize = c.len();
    loop
        invariant
            c@ == path@,
            j <= c.len(),
            file_name(path@) == file_name_upto(path@, j as int),
        decreases j,
    {
        if j == 0 {
            return None;
        }
        if c[j - 1] == '/' {
            j -= 1;
            continue;
        }
        proof {
            lemma_segment_start(path@, j as int);
        }
        let mut i: usize = j;
        while i > 0 && c[i - 1] != '/'
            invariant
                c@ == path@,
                i <= j <= c.len(),
                segment_start(path@, j as int) == segment_start(path@, i as int),
            decreases i,
        {
            i -= 1;
        }
        let seg_len: usize = j - i;
        let ghost seg = path@.subrange(i as int, j as int);
        if seg_len == 1 && c[i] == '.' {
            assert(seg =~= seq!['.']);
            j = i;
            continue;
        }
        if seg_len == 2 && c[i] == '.' && c[i + 1] == '.' {
            assert(seg =~= seq!['.', '.']);
            return None;
        }
        if seg_len == 1 {
            assert(seg != seq!['.']) by {
                assert(seg[0] != '.');
            }
        }
        if seg_len == 2 {
            assert(seg != seq!['.', '.']) by {
                assert(seg[0] != '.' || seg[1] != '.');
            }
        }
        let mut out: Vec<char> = Vec::new();
        let mut k: usize = i;
        while k < j
            invariant
                c@ == path@,
                i <= k <= j <= c.len(),
                out@ == path@.subrange(i as int, k as int),
            decreases j - k,
        {
            out.push(c[k]);
            k += 1;
        }
        return Some(string_from_chars(out.as_slice()));
    }
}

/// The extension of a path.
pub fn path_extension(path: &str) -> (r: Option<String>)
    ensures
        match r {
            Some(s) => extension(path@) == Some(s@),
            None => extension(path@) is None,
        },
{
    let name = match path_file_name(path) {
        Some(n) => n,
        None => return None,
    };
    let c = chars_of(name.as_str());
    let mut j: usize = c.len();
    while j > 0 && c[j - 1] != '.'
        invariant
            c@ == name@,
            j <= c.len(),
            last_dot(name@, c.len() as int) == last_dot(name@, j as int),
        decreases j,
    {
        j -= 1;
    }
    if j <= 1 {
        return None;
    }
    let mut out: Vec<char> = Vec::new();
    let mut k: usize = j;
    while k < c.len()
        invariant
            c@ == name@,
            j <= k <= c.len(),
            out@ == name@.subrange(j as int, k as int),
        decreases c.len() - k,
    {
        out.push(c[k]);
        k += 1;
    }
    assert(name@.subrange(j as int, c.len() as int) == name@.skip(j as int));
    Some(string_from_chars(out.as_slice()))
}

/// Whether the path's extension is `ext`.
pub open spec fn has_extension(p: Seq<char>, ext: Seq<char>) -> bool {
    extension(p) == Some(ext)
}

/// Where results go.
#[derive(Debug, PartialEq, Eq, Structural)]
pub enum OutputTarget {
    /// Standard output.
    Stdout,
    /// The text file at the path.
    File,
}

/// Where results go for an output path: a file when the path's extension
/// is `txt`, standard output otherwise or without a path.
pub fn output_target(path: Option<&str>) -> (r: OutputTarget)
    ensures
        r == match path {
            Some(p) => if has_extension(p@, "txt"@) { OutputTarget::File } else { OutputTarget::Stdout },
            None => OutputTarget::Stdout,
        },
{
    match path {
        None => OutputTarget::Stdout,
        Some(p) => {
            match path_extension(p) {
                Some(e) => if crate::text::str_eq(e.as_str(), "txt") { OutputTarget::File } else { OutputTarget::Stdout },
                None => OutputTarget::Stdout,
            }
        },
    }
}

/// A summary result in plain text.
pub open spec fn plain_text(r: SummaryResult) -> Seq<char> {
    "Source: "@ + r.source@ + "\n"@
        + "Original Length: "@ + decimal(r.original_length as nat) + " characters\n"@
        + "Summary Word Count: "@ + decimal(r.word_count as nat) + " words\n"@
        + "\n"@ + "Summary:\n"@ + r.summary@ + "\n"@
}

/// A summary result in Markdown.
pub open spec fn markdown_text(r: SummaryResult) -> Seq<char> {
    "## Summary: "@ + (match file_name(r.source@) { Some(n) => n, None => seq![] }) + "\n"@
        + "\n"@
        + "**Source:** `"@ + r.source@ + "`\n"@
        + "**Original Length:** "@ + decimal(r.original_length as nat) + " characters\n"@
        + "**Summary Word Count:** "@ + decimal(r.word_count as nat) + " words\n"@
        + "\n"@ + "### Content\n"@ + "\n"@ + r.summary@ + "\n"@
}

/// Renders one result in plain text.
pub fn render_plain(result: &SummaryResult) -> (r: String)
    ensures
        r@ == plain_text(*result),
{
    let mut s = String::from_str("Source: ");
    push_str(&mut s, result.source.as_str());
    push_str(&mut s, "\n");
    push_str(&mut s, "Original Length: ");
    let n = u64_to_decimal(result.original_length as u64);
    push_str(&mut s, n.as_str());
    push_str(&mut s, " characters\n");
    push_str(&mut s, "Summary Word Count: ");
    let w = u64_to_decimal(result.word_count as u64);
    push_str(&mut s, w.as_str());
    push_str(&mut s, " words\n");
    push_str(&mut s, "\n");
    push_str(&mut s, "Summary:\n");
    push_str(&mut s, result.summary.as_str());
    push_str(&mut s, "\n");
    s
}

/// Renders one result in Markdown.
pub fn render_markdown(result: &SummaryResult) -> (r: String)
    ensures
        r@ == markdown_text(*result),
{
    let mut s = String::from_str("## Summary: ");
    match path_file_name(result.source.as_str()) {
        Some(name) => push_str(&mut s, name.as_str()),
        None => {},
    }
    push_str(&mut s, "\n");
    push_str(&mut s, "\n");
    push_str(&mut s, "**Source:** `");
    push_str(&mut s, result.source.as_str());
    push_str(&mut s, "`\n");
    push_str(&mut s, "**Original Length:** ");
    let n = u64_to_decimal(result.original_length as u64);
    push_str(&mut s, n.as_str());
    push_str(&mut s, " characters\n");
    push_str(&mut s, "**Summary Word Count:** ");
    let w = u64_to_decimal(result.word_count as u64);
    push_str(&mut s, w.as_str());
    push_str(&mut s, " words\n");
    push_str(&mut s, "\n");
    push_str(&mut s, "### Content\n");
    push_str(&mut s, "\n");
    push_str(&mut s, result.summary.as_str());
    push_str(&mut s, "\n");
    s
}

/// Separator written before every plain-text result but the first: a
/// blank line and a rule of 80 `=`.
pub open spec fn plain_separator() -> Seq<char> {
    seq!['\n'] + Seq::new(80, |_i: int| '=') + seq!['\n']
}

/// Separator written before every Markdown result but the first.
pub open spec fn markdown_separator() -> Seq<char> {
    "\n---\n\n"@
}

/// Results rendered one after another, with `sep` before all but the first.
pub open spec fn rendered_all(rs: Seq<SummaryResult>, markdown: bool) -> Seq<char>
    decreases rs.len(),
{
    if rs.len() == 0 {
        seq![]
    } else {
        let prev = rendered_all(rs.drop_last(), markdown);
        let sep = if rs.len() > 1 { if markdown { markdown_separator() } else { plain_separator() } } else { seq![] };
        let one = if markdown { markdown_text(rs.last()) } else { plain_text(rs.last()) };
        prev + sep + one
    }
}

/// Renders a single result in a text format; `None` for JSON, which is
/// serialised by the caller.
pub fn render_result(format: OutputFormat, result: &SummaryResult) -> (r: Option<String>)
    ensures
        match format {
            OutputFormat::Plain => r matches Some(s) && s@ == plain_text(*result),
            OutputFormat::Markdown => r matches Some(s) && s@ == markdown_text(*result),
            OutputFormat::Json => r is None,
        },
{
    match format {
        OutputFormat::Plain => Some(render_plain(result)),
        OutputFormat::Markdown => Some(render_markdown(result)),
        OutputFormat::Json => None,
    }
}

/// Renders several results in a text format, separated as the writer
/// separates them; `None` for JSON, which is serialised by the caller.
pub fn render_results(format: OutputFormat, results: &[SummaryResult]) -> (r: Option<String>)
    ensures
        match format {
            OutputFormat::Plain => r matches Some(s) && s@ == rendered_all(results@, false),
            OutputFormat::Markdown => r matches Some(s) && s@ == rendered_all(results@, true),
            OutputFormat::Json => r is None,
        },
{
    let markdown = match format {
        OutputFormat::Plain => false,
        OutputFormat::Markdown => true,
        OutputFormat::Json => return None,
    };
    let mut s = String::new();
    let mut i: usize = 0;
    while i < results.len()
        invariant
            i <= results.len(),
            s@ == rendered_all(results@.take(i as int), markdown),
        decreases results.len() - i,
    {
        assert(results@.take((i + 1) as int).drop_last() == results@.take(i as int));
        if i > 0 {
            if markdown {
                push_str(&mut s, "\n---\n\n");
            } else {
                let ghost before = s@;
                push_char(&mut s, '\n');
                let mut k: usize = 0;
                while k < 80
                    invariant
                        k <= 80,
                        s@ == before + seq!['\n'] + Seq::new(k as nat, |_i: int| '='),
                    decreases 80 - k,
                {
                    push_char(&mut s, '=');
                    k += 1;
                    assert(Seq::new(k as nat, |_i: int| '=') =~= Seq::new((k - 1) as nat, |_i: int| '=').push('='));
                }
                push_char(&mut s, '\n');
            }
        }
        let one = if markdown { render_markdown(&results[i]) } else { render_plain(&results[i]) };
        push_str(&mut s, one.as_str());
        i += 1;
    }
    assert(results@.take(results.len() as int) == results@);
    Some(s)
}

/// Format bytes as human-readable string
pub fn format_bytes(bytes: usize) -> (r: String)
    ensures
        r@ == size_text(bytes as nat),
{
    size_string(bytes as u64)
}

} // verus!
