//! Character-level building blocks shared by the rest of the library.

use vstd::prelude::*;

verus! {

/// The ASCII digit for `d < 10`.
pub open spec fn digit_char(d: nat) -> char {
    ((d + 48) as u8) as char
}

/// Decimal notation of a natural number, as `format!("{}", n)` prints it.
pub open spec fn decimal(n: nat) -> Seq<char>
    decreases n,
{
    if n < 10 {
        seq![digit_char(n)]
    } else {
        decimal(n / 10).push(digit_char(n % 10))
    }
}

/// Decimal notation has one digit exactly below ten.
proof fn lemma_decimal_len(n: nat)
    ensures
        decimal(n).len() >= 1,
        (decimal(n).len() == 1) == (n < 10),
    decreases n,
{
    if n >= 10 {
        lemma_decimal_len(n / 10);
    }
}

/// Different numbers have different decimal notations.
pub proof fn lemma_decimal_injective(a: nat, b: nat)
    requires
        decimal(a) == decimal(b),
    ensures
        a == b,
    decreases a,
{
    lemma_decimal_len(a);
    lemma_decimal_len(b);
    if a < 10 {
        assert(decimal(a)[0] == digit_char(a));
        assert(decimal(b)[0] == digit_char(b));
        assert(((a + 48) as u8) == ((b + 48) as u8));
    } else {
        let da = decimal(a);
        let db = decimal(b);
        assert(da.last() == digit_char(a % 10));
        assert(db.last() == digit_char(b % 10));
        assert(((a % 10 + 48) as u8) == ((b % 10 + 48) as u8));
        assert(da.drop_last() =~= decimal(a / 10));
        assert(db.drop_last() =~= decimal(b / 10));
        lemma_decimal_injective(a / 10, b / 10);
    }
}

/// Appends one character to a string (`String::push`).
#[verifier::external_body]
pub(crate) fn push_char(s: &mut String, c: char)
    ensures
        final(s)@ == old(s)@.push(c),
{
    s.push(c);
}

/// Decimal rendering of an unsigned integer.
pub fn u64_to_decimal(n: u64) -> (res: String)
    ensures
        res@ == decimal(n as nat),
    decreases n,
{
    let d: u8 = (n % 10) as u8;
    let c: char = (d + 48) as char;
    if n < 10 {
        let mut s = String::new();
        push_char(&mut s, c);
        s
    } else {
        let mut s = u64_to_decimal(n / 10);
        push_char(&mut s, c);
        s
    }
}

/// Collects the characters of a string slice.
pub fn chars_of(s: &str) -> (res: Vec<char>)
    ensures
        res@ == s@,
{
    let mut v: Vec<char> = Vec::new();
    for c in it: s.chars()
        invariant
            v@ == it.seq().take(it.index() as int),
    {
        v.push(c);
    }
    v
}


/// Builds a string from a sequence of characters.
pub fn string_from_chars(v: &[char]) -> (res: String)
    ensures
        res@ == v@,
{
    let mut s = String::new();
    let mut i: usize = 0;
    while i < v.len()
        invariant
            i <= v.len(),
            s@ == v@.take(i as int),
        decreases v.len() - i,
    {
        push_char(&mut s, v[i]);
        i += 1;
        assert(v@.take(i as int) == v@.take((i - 1) as int).push(v@[i - 1]));
    }
    assert(v@.take(v.len() as int) == v@);
    s
}

/// Unicode `White_Space`, the set `char::is_whitespace` tests.
pub open spec fn is_ws(c: char) -> bool {
    ||| ('\t' <= c && c <= '\r')
    ||| c == ' '
    ||| c == '\u{85}'
    ||| c == '\u{A0}'
    ||| c == '\u{1680}'
    ||| ('\u{2000}' <= c && c <= '\u{200A}')
    ||| c == '\u{2028}'
    ||| c == '\u{2029}'
    ||| c == '\u{202F}'
    ||| c == '\u{205F}'
    ||| c == '\u{3000}'
}

/// General category `Cc`, the set `char::is_control` tests.
pub open spec fn is_cc(c: char) -> bool {
    c <= '\u{1F}' || ('\u{7F}' <= c && c <= '\u{9F}')
}

/// `char::is_whitespace`.
pub fn is_whitespace(c: char) -> (b: bool)
    ensures
        b == is_ws(c),
{
    ('\t' <= c && c <= '\r') || c == ' ' || c == '\u{85}' || c == '\u{A0}' || c == '\u{1680}'
        || ('\u{2000}' <= c && c <= '\u{200A}') || c == '\u{2028}' || c == '\u{2029}'
        || c == '\u{202F}' || c == '\u{205F}' || c == '\u{3000}'
}

/// `char::is_control`.
pub fn is_control(c: char) -> (b: bool)
    ensures
        b == is_cc(c),
{
    c <= '\u{1F}' || ('\u{7F}' <= c && c <= '\u{9F}')
}

/// Left-to-right scan of `split_whitespace`: the words finished so far and
/// the word in progress.
pub open spec fn word_scan(s: Seq<char>) -> (Seq<Seq<char>>, Seq<char>)
    decreases s.len(),
{
    if s.len() == 0 {
        (seq![], seq![])
    } else {
        let (done, cur) = word_scan(s.drop_last());
        let c = s.last();
        if is_ws(c) {
            if cur.len() > 0 {
                (done.push(cur), seq![])
            } else {
                (done, seq![])
            }
        } else {
            (done, cur.push(c))
        }
    }
}

/// The words of `s`, as `str::split_whitespace` yields them: the maximal
/// runs of non-whitespace characters, in order.
pub open spec fn words(s: Seq<char>) -> Seq<Seq<char>> {
    let (done, cur) = word_scan(s);
    if cur.len() > 0 {
        done.push(cur)
    } else {
        done
    }
}

/// `s` with leading whitespace removed.
pub open spec fn trim_start(s: Seq<char>) -> Seq<char>
    decreases s.len(),
{
    if s.len() > 0 && is_ws(s[0]) {
        trim_start(s.drop_first())
    } else {
        s
    }
}

/// `s` with trailing whitespace removed.
pub open spec fn trim_end(s: Seq<char>) -> Seq<char>
    decreases s.len(),
{
    if s.len() > 0 && is_ws(s.last()) {
        trim_end(s.drop_last())
    } else {
        s
    }
}

/// `str::trim`: both ends stripped of whitespace.
pub open spec fn trim(s: Seq<char>) -> Seq<char> {
    trim_end(trim_start(s))
}

/// Elements of `parts` separated by `sep` (`[T]::join`).
pub open spec fn join(parts: Seq<Seq<char>>, sep: Seq<char>) -> Seq<char>
    decreases parts.len(),
{
    if parts.len() == 0 {
        seq![]
    } else if parts.len() == 1 {
        parts[0]
    } else {
        join(parts.drop_last(), sep) + sep + parts.last()
    }
}


/// Counts the words of `s` (`s.split_whitespace().count()`).
pub fn count_words(s: &[char]) -> (n: usize)
    ensures
        n == words(s@).len(),
{
    let mut done: usize = 0;
    let mut in_word = false;
    let mut i: usize = 0;
    while i < s.len()
        invariant
            i <= s.len(),
            done == word_scan(s@.take(i as int)).0.len(),
            in_word == (word_scan(s@.take(i as int)).1.len() > 0),
            done + (if in_word { 1int } else { 0int }) <= i,
        decreases s.len() - i,
    {
        assert(s@.take((i + 1) as int).drop_last() == s@.take(i as int));
        if is_whitespace(s[i]) {
            if in_word {
                done += 1;
            }
            in_word = false;
        } else {
            in_word = true;
        }
        i += 1;
    }
    assert(s@.take(s.len() as int) == s@);
    if in_word {
        done + 1
    } else {
        done
    }
}

/// The words of `s`, each as its characters.
pub fn split_words(s: &[char]) -> (res: Vec<Vec<char>>)
    ensures
        res.deep_view() == words(s@),
{
    let mut done: Vec<Vec<char>> = Vec::new();
    let mut cur: Vec<char> = Vec::new();
    let mut i: usize = 0;
    while i < s.len()
        invariant
            i <= s.len(),
            done.deep_view() == word_scan(s@.take(i as int)).0,
            cur@ == word_scan(s@.take(i as int)).1,
        decreases s.len() - i,
    {
        assert(s@.take((i + 1) as int).drop_last() == s@.take(i as int));
        let c = s[i];
        if is_whitespace(c) {
            if cur.len() > 0 {
                let w = cur;
                assert(w.deep_view() =~= w@);
                done.push(w);
                cur = Vec::new();
            } else {
                cur = Vec::new();
            }
        } else {
            cur.push(c);
        }
        i += 1;
    }
    assert(s@.take(s.len() as int) == s@);
    if cur.len() > 0 {
        assert(cur.deep_view() =~= cur@);
        let ghost before = done.deep_view();
        done.push(cur);
        assert(done.deep_view() =~= before.push(word_scan(s@).1));
    }
    done
}

/// Joins `parts[..k]` with `sep` between neighbours.
pub fn join_prefix(parts: &Vec<Vec<char>>, k: usize, sep: &[char]) -> (res: Vec<char>)
    requires
        k <= parts.len(),
    ensures
        res@ == join(parts.deep_view().take(k as int), sep@),
{
    let mut out: Vec<char> = Vec::new();
    let mut i: usize = 0;
    while i < k
        invariant
            k <= parts.len(),
            i <= k,
            out@ == join(parts.deep_view().take(i as int), sep@),
        decreases k - i,
    {
        let ghost prev = out@;
        if i > 0 {
            let mut j: usize = 0;
            while j < sep.len()
                invariant
                    j <= sep.len(),
                    out@ == prev + sep@.take(j as int),
                decreases sep.len() - j,
            {
                out.push(sep[j]);
                j += 1;
                assert(sep@.take(j as int) == sep@.take(j - 1).push(sep@[j - 1]));
            }
            assert(sep@.take(sep.len() as int) == sep@);
        }
        let ghost mid = out@;
        let part = &parts[i];
        let mut j: usize = 0;
        while j < part.len()
            invariant
                j <= part.len(),
                out@ == mid + part@.take(j as int),
            decreases part.len() - j,
        {
            out.push(part[j]);
            j += 1;
            assert(part@.take(j as int) == part@.take(j - 1).push(part@[j - 1]));
        }
        assert(part@.take(part.len() as int) == part@);
        proof {
            let dv = parts.deep_view();
            assert(dv.take((i + 1) as int).drop_last() == dv.take(i as int));
            assert(dv.take((i + 1) as int).last() == part@);
            if i == 0 {
                assert(dv.take(1).len() == 1);
                assert(prev == Seq::<char>::empty());
                assert(out@ == part@);
            }
        }
        i += 1;
    }
    out
}

/// Index of the first non-whitespace character at or after `i`.
proof fn lemma_trim_start_from(s: Seq<char>, i: int)
    requires
        0 <= i <= s.len(),
        forall|k: int| 0 <= k < i ==> is_ws(#[trigger] s[k]),
    ensures
        trim_start(s) == trim_start(s.subrange(i, s.len() as int)),
    decreases i,
{
    if i > 0 {
        assert(is_ws(s[0]));
        let t = s.drop_first();
        lemma_trim_start_from(t, i - 1);
        assert(t.subrange(i - 1, t.len() as int) == s.subrange(i, s.len() as int));
    } else {
        assert(s.subrange(0, s.len() as int) == s);
    }
}

proof fn lemma_trim_end_to(s: Seq<char>, j: int)
    requires
        0 <= j <= s.len(),
        forall|k: int| j <= k < s.len() ==> is_ws(#[trigger] s[k]),
    ensures
        trim_end(s) == trim_end(s.subrange(0, j)),
    decreases s.len() - j,
{
    if j < s.len() {
        assert(is_ws(s.last()));
        let t = s.drop_last();
        lemma_trim_end_to(t, j);
        assert(t.subrange(0, j) == s.subrange(0, j));
    } else {
        assert(s.subrange(0, s.len() as int) == s);
    }
}

/// `str::trim` on a character vector.
pub fn trim_chars(s: &[char]) -> (res: Vec<char>)
    ensures
        res@ == trim(s@),
{
    let mut i: usize = 0;
    while i < s.len() && is_whitespace(s[i])
        invariant
            i <= s.len(),
            forall|k: int| 0 <= k < i ==> is_ws(#[trigger] s@[k]),
        decreases s.len() - i,
    {
        i += 1;
    }
    let mut j: usize = s.len();
    while j > i && is_whitespace(s[j - 1])
        invariant
            i <= j <= s.len(),
            forall|k: int| j <= k < s.len() ==> is_ws(#[trigger] s@[k]),
        decreases j,
    {
        j -= 1;
    }
    let mut out: Vec<char> = Vec::new();
    let mut k: usize = i;
    while k < j
        invariant
            i <= k <= j,
            j <= s.len(),
            out@ == s@.subrange(i as int, k as int),
        decreases j - k,
    {
        out.push(s[k]);
        k += 1;
    }
    proof {
        lemma_trim_start_from(s@, i as int);
        let t = s@.subrange(i as int, s.len() as int);
        if i < s.len() {
            assert(!is_ws(t[0]));
        } else {
            assert(t.len() == 0);
        }
        assert(trim_start(t) == t);
        lemma_trim_end_to(t, (j - i) as int);
        let u = t.subrange(0, (j - i) as int);
        assert(u == s@.subrange(i as int, j as int));
        if j > i {
            assert(!is_ws(u.last()));
        }
        assert(trim_end(u) == u);
    }
    out
}


/// Whether `s` ends with `suffix`.
pub open spec fn ends_with(s: Seq<char>, suffix: Seq<char>) -> bool {
    suffix.len() <= s.len() && s.skip(s.len() - suffix.len()) == suffix
}

/// Whether `pat` occurs in `s` as a contiguous run.
pub open spec fn contains_run(s: Seq<char>, pat: Seq<char>) -> bool {
    exists|i: int| 0 <= i && i + pat.len() <= s.len() && #[trigger] s.subrange(i, i + pat.len()) == pat
}

/// `str::ends_with`.
pub fn str_ends_with(s: &str, suffix: &str) -> (b: bool)
    ensures
        b == ends_with(s@, suffix@),
{
    let a = chars_of(s);
    let t = chars_of(suffix);
    if t.len() > a.len() {
        return false;
    }
    let off = a.len() - t.len();
    let mut i: usize = 0;
    while i < t.len()
        invariant
            a@ == s@,
            t@ == suffix@,
            off == a.len() - t.len(),
            i <= t.len(),
            forall|k: int| 0 <= k < i ==> a@[off + k] == t@[k],
        decreases t.len() - i,
    {
        if a[off + i] != t[i] {
            assert(s@.skip(s@.len() - suffix@.len())[i as int] != suffix@[i as int]);
            return false;
        }
        i += 1;
    }
    assert(s@.skip(s@.len() - suffix@.len()) =~= suffix@);
    true
}

/// `str::contains` with a string pattern.
pub fn str_contains(s: &str, pat: &str) -> (b: bool)
    ensures
        b == contains_run(s@, pat@),
{
    let a = chars_of(s);
    let t = chars_of(pat);
    if t.len() > a.len() {
        assert forall|i: int| 0 <= i && i + pat@.len() <= s@.len() implies #[trigger] s@.subrange(i, i + pat@.len()) != pat@ by {}
        return false;
    }
    let mut start: usize = 0;
    while start <= a.len() - t.len()
        invariant
            a@ == s@,
            t@ == pat@,
            t.len() <= a.len(),
            start <= a.len() - t.len() + 1,
            forall|i: int| 0 <= i < start ==> #[trigger] s@.subrange(i, i + pat@.len()) != pat@,
        decreases a.len() - start,
    {
        let mut j: usize = 0;
        let mut same = true;
        while j < t.len()
            invariant
                a@ == s@,
                t@ == pat@,
                start + t.len() <= a.len(),
                j <= t.len(),
                same == forall|k: int| 0 <= k < j ==> a@[start + k] == t@[k],
            decreases t.len() - j,
        {
            if a[start + j] != t[j] {
                same = false;
            }
            j += 1;
        }
        if same {
            assert(s@.subrange(start as int, start + pat@.len()) =~= pat@);
            return true;
        } else {
            let ghost k = choose|k: int| 0 <= k < t.len() && a@[start + k] != t@[k];
            assert(s@.subrange(start as int, start + pat@.len())[k] != pat@[k]);
        }
        start += 1;
    }
    assert forall|i: int| 0 <= i && i + pat@.len() <= s@.len() implies #[trigger] s@.subrange(i, i + pat@.len()) != pat@ by {
        assert(i < start);
    }
    false
}

/// Lexicographic order of character sequences, by code point (the order
/// `str`'s `Ord` gives, since UTF-8 keeps code point order).
pub open spec fn lex_le(a: Seq<char>, b: Seq<char>) -> bool
    decreases a.len(),
{
    if a.len() == 0 {
        true
    } else if b.len() == 0 {
        false
    } else if a[0] != b[0] {
        (a[0] as u32) < (b[0] as u32)
    } else {
        lex_le(a.drop_first(), b.drop_first())
    }
}

/// `v` is in ascending lexicographic order.
pub open spec fn sorted_lex(v: Seq<Seq<char>>) -> bool {
    forall|i: int, j: int| 0 <= i < j < v.len() ==> lex_le(#[trigger] v[i], #[trigger] v[j])
}

/// `slice::sort` on strings: ascending order, same elements. The claim is
/// what `sort`'s documentation and `str`'s `Ord` (byte-wise, hence code
/// point order for UTF-8) state.
#[verifier::external_body]
pub(crate) fn sort_strings(v: &mut Vec<String>)
    ensures
        sorted_lex(final(v).deep_view()),
        final(v).deep_view().to_multiset() == old(v).deep_view().to_multiset(),
        final(v).len() == old(v).len(),
{
    v.sort();
}


/// The elements of `v` in reverse order.
pub fn into_reversed<T>(v: Vec<T>) -> (r: Vec<T>)
    ensures
        r@ == v@.reverse(),
{
    let ghost orig = v@;
    let mut pending = v;
    let mut out: Vec<T> = Vec::new();
    while pending.len() > 0
        invariant
            pending.len() + out.len() == orig.len(),
            pending@ == orig.take(pending.len() as int),
            out@ == orig.reverse().take(out.len() as int),
        decreases pending.len(),
    {
        let ghost k = pending.len();
        let last = pending.pop().unwrap();
        assert(last == orig[k - 1]);
        out.push(last);
        assert(orig.reverse()[out.len() - 1] == orig[k - 1]);
        assert(out@ == orig.reverse().take(out.len() as int));
        assert(pending@ == orig.take(pending.len() as int));
    }
    assert(orig.reverse().take(orig.len() as int) == orig.reverse());
    out
}


/// Appends a string to a list of strings.
pub fn push_string(v: &mut Vec<String>, s: String)
    ensures
        final(v).deep_view() == old(v).deep_view().push(s@),
{
    let ghost before = v.deep_view();
    let ghost sv = s@;
    v.push(s);
    assert(v.deep_view() =~= before.push(sv));
}


/// Whether two strings hold the same characters.
pub fn str_eq(a: &str, b: &str) -> (r: bool)
    ensures
        r == (a@ == b@),
{
    let x = chars_of(a);
    let y = chars_of(b);
    if x.len() != y.len() {
        return false;
    }
    let mut i: usize = 0;
    while i < x.len()
        invariant
            x@ == a@,
            y@ == b@,
            x.len() == y.len(),
            i <= x.len(),
            forall|k: int| 0 <= k < i ==> x@[k] == y@[k],
        decreases x.len() - i,
    {
        if x[i] != y[i] {
            return false;
        }
        i += 1;
    }
    assert(a@ =~= b@);
    true
}

} // verus!
