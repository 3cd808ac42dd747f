//! File-system paths as text, joined the way `PathBuf::join` joins them on
//! Unix-like systems.

use vstd::prelude::*;
use crate::text::push_char;
use crate::numfmt::push_str;

verus! {

/// `base.join(part)`: an absolute `part` replaces `base`; otherwise `part`
/// is appended, with a `/` between unless `base` is empty or already ends
/// with one.
pub open spec fn path_join(base: Seq<char>, part: Seq<char>) -> Seq<char> {
    if part.len() > 0 && part[0] == '/' {
        part
    } else if base.len() == 0 || base.last() == '/' {
        base + part
    } else {
        base + seq!['/'] + part
    }
}

/// A model name made safe as one path component: `/`, `\` and `:` become `-`.
pub open spec fn sanitized(name: Seq<char>) -> Seq<char> {
    name.map_values(|c: char| if c == '/' || c == '\\' || c == ':' { '-' } else { c })
}

/// Joins two paths.
pub fn join_path(base: &str, part: &str) -> (r: String)
    ensures
        r@ == path_join(base@, part@),
{
    let part_len = part.unicode_len();
    let base_len = base.unicode_len();
    if part_len > 0 && part.get_char(0) == '/' {
        return String::from_str(part);
    }
    let mut s = String::from_str(base);
    if !(base_len == 0 || base.get_char(base_len - 1) == '/') {
        push_char(&mut s, '/');
    }
    push_str(&mut s, part);
    s
}

/// Replaces the characters a file name cannot hold (`/`, `\`, `:`) by `-`.
pub fn sanitize_name(name: &str) -> (r: String)
    ensures
        r@ == sanitized(name@),
{
    let chars = crate::text::chars_of(name);
    let mut s = String::new();
    let mut i: usize = 0;
    while i < chars.len()
        invariant
            i <= chars.len(),
            chars@ == name@,
            s@ == sanitized(name@).take(i as int),
        decreases chars.len() - i,
    {
        let c = chars[i];
        let d = if c == '/' || c == '\\' || c == ':' { '-' } else { c };
        push_char(&mut s, d);
        i += 1;
        assert(sanitized(name@).take(i as int) == sanitized(name@).take(i - 1).push(d));
    }
    assert(sanitized(name@).take(chars.len() as int) == sanitized(name@));
    s
}

/// A sanitized name holds no `/`, so it never leaves the directory it is
/// joined to.
pub proof fn lemma_sanitized_has_no_separator(name: Seq<char>)
    ensures
        forall|i: int| 0 <= i < sanitized(name).len() ==> #[trigger] sanitized(name)[i] != '/'
            && sanitized(name)[i] != '\\' && sanitized(name)[i] != ':',
        sanitized(name).len() == name.len(),
{
}

/// How `{:?}` shows the path: between double quotes, with quotes,
/// backslashes and unprintable characters escaped.
pub uninterp spec fn path_debug(path: Seq<char>) -> Seq<char>;

/// `<std::path::Path as Debug>::fmt`. The claim: the text depends on the
/// path alone. Its exact escaping rules are left unsaid.
#[verifier::external_body]
fn debug_path(path: &str) -> (r: String)
    ensures
        r@ == path_debug(path@),
{
    format!("{:?}", std::path::Path::new(path))
}

/// `head` followed by the path as `{:?}` shows it.
pub fn with_path(head: &str, path: &str) -> (r: String)
    ensures
        r@ == head@ + path_debug(path@),
{
    let mut s = String::from_str(head);
    let shown = debug_path(path);
    push_str(&mut s, shown.as_str());
    s
}

} // verus!
