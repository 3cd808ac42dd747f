//! Summarization bookkeeping: token budgets, prompt truncation, the
//! generated part of an output, long-text chunking and summary merging.

use vstd::prelude::*;
use vstd::set_lib::{lemma_int_range, lemma_len_subset, set_int_range};
use vstd::string::StringSliceAdditionalSpecFns;
use vstd::utf8::{encode_utf8, encode_utf8_valid_utf8, is_char_boundary, is_char_boundary_iff_not_is_continuation_byte, is_char_boundary_start_end_of_seq, valid_utf8, valid_utf8_split};
use crate::numfmt::{bit_len, f64_value, lemma_bit_len, lemma_f64_value_bound, lemma_known_pows, lemma_two_pow_mono, to_f64_value, token_estimate, two_pow};
use crate::text::{chars_of, count_words, decimal, join, join_prefix, push_char, split_words, string_from_chars, trim, trim_chars, u64_to_decimal, words};
use crate::numfmt::push_str;
use crate::tokenizer::truncate_tokens;

verus! {

/// Estimate the number of tokens needed for a given word count:
/// `ceil(words * 1.5)` as the `f64` computation gives it.
pub fn estimate_tokens_for_words(words: usize) -> (r: usize)
    ensures
        r == token_estimate(words as nat),
{
    proof {
        lemma_known_pows();
        lemma_bit_len(words as nat, 64);
        lemma_two_pow_mono(bit_len(words as nat), 64);
        lemma_f64_value_bound(words as nat);
    }
    let r1 = f64_value(words as u128);
    proof {
        crate::numfmt::lemma_two_pow_adds(64, 3);
        reveal_with_fuel(two_pow, 4);
        assert(two_pow(67) == two_pow(64) * 8);
        assert(3 * r1 < two_pow(67));
        lemma_bit_len((3 * r1) as nat, 67);
        lemma_two_pow_mono(bit_len((3 * r1) as nat), 67);
        lemma_f64_value_bound((3 * r1) as nat);
        crate::numfmt::lemma_two_pow_mono(67, 100);
    }
    let r2 = f64_value(3 * r1);
    let up = (r2 + 1) / 2;
    if up > usize::MAX as u128 {
        usize::MAX
    } else {
        up as usize
    }
}

/// Summary result
#[derive(Debug, Clone)]
pub struct SummaryResult {
    /// Source file path
    pub source: String,
    /// Original text length (characters)
    pub original_length: usize,
    /// Generated summary
    pub summary: String,
    /// Summary word count
    pub word_count: usize,
}

/// The result for a document: its path, the length of its text, the
/// summary and the summary's word count.
pub fn summary_result(source: &str, text: &str, summary: String) -> (r: SummaryResult)
    ensures
        r.source@ == source@,
        r.original_length == text@.len(),
        r.summary@ == summary@,
        r.word_count == words(summary@).len(),
{
    let chars = chars_of(summary.as_str());
    let word_count = count_words(chars.as_slice());
    SummaryResult { source: String::from_str(source), original_length: text.unicode_len(), summary, word_count }
}

/// Longest prompt that leaves room for `max_new_tokens` generated tokens in
/// the smaller of the configured context and the model's position limit.
pub open spec fn input_budget(max_context: usize, max_position_embeddings: usize, max_new_tokens: usize) -> nat {
    let ctx = if max_context <= max_position_embeddings { max_context } else { max_position_embeddings };
    if ctx >= max_new_tokens { (ctx - max_new_tokens) as nat } else { 0 }
}

/// Prompt token ids cut to the input budget.
pub fn fit_prompt(ids: Vec<u32>, max_context: usize, max_position_embeddings: usize, max_new_tokens: usize) -> (r: Vec<u32>)
    ensures
        r@ == if ids.len() <= input_budget(max_context, max_position_embeddings, max_new_tokens) { ids@ }
            else { ids@.take(input_budget(max_context, max_position_embeddings, max_new_tokens) as int) },
{
    let ctx = if max_context <= max_position_embeddings { max_context } else { max_position_embeddings };
    let max_input = ctx.saturating_sub(max_new_tokens);
    truncate_tokens(ids, max_input)
}

/// The tokens generated after a prompt of `input_len` tokens.
pub fn generated_tokens(output: &[u32], input_len: usize) -> (r: Vec<u32>)
    requires
        input_len <= output.len(),
    ensures
        r@ == output@.skip(input_len as int),
{
    let mut out: Vec<u32> = Vec::new();
    let mut i: usize = input_len;
    while i < output.len()
        invariant
            input_len <= i <= output.len(),
            out@ == output@.subrange(input_len as int, i as int),
        decreases output.len() - i,
    {
        out.push(output[i]);
        i += 1;
    }
    assert(output@.subrange(input_len as int, output.len() as int) == output@.skip(input_len as int));
    out
}

/// The decoded summary with surrounding whitespace removed.
pub fn finish_summary(decoded: &str) -> (r: String)
    ensures
        r@ == trim(decoded@),
{
    let chars = chars_of(decoded);
    let t = trim_chars(chars.as_slice());
    string_from_chars(t.as_slice())
}


/// A summary labelled with its 1-based section number.
pub open spec fn section_text(i: int, s: Seq<char>) -> Seq<char> {
    "[Section "@ + decimal((i + 1) as nat) + "] "@ + s
}

/// The labelled summaries separated by blank lines.
pub open spec fn sections_joined(ss: Seq<Seq<char>>) -> Seq<char> {
    join(Seq::new(ss.len(), |i: int| section_text(i, ss[i])), "\n\n"@)
}

/// Summaries of the chunks of one document merged into one: a single
/// summary as it is; otherwise the labelled summaries, cut to their first
/// `target` words (joined by single spaces) when they hold more than twice
/// that many.
pub open spec fn combined_summary(ss: Seq<Seq<char>>, target: nat) -> Seq<char> {
    if ss.len() == 1 {
        ss[0]
    } else {
        let all = sections_joined(ss);
        if words(all).len() <= 2 * target {
            all
        } else {
            join(words(all).take(target as int), seq![' '])
        }
    }
}

/// Several summaries are combined into their texts in order, the k-th
/// (from 0) preceded by `[Section `, the decimal notation of k + 1 and `] `,
/// separated by blank lines, and cut to the first `target` words (joined by
/// single spaces) when they hold more than twice that many; no two sections
/// carry the same number.
pub proof fn lemma_sections_numbered_from_one(ss: Seq<Seq<char>>, target: nat)
    requires
        ss.len() != 1,
    ensures
        ({
            let labelled = Seq::new(ss.len(), |k: int| "[Section "@ + decimal((k + 1) as nat) + "] "@ + ss[k]);
            let all = join(labelled, "\n\n"@);
            combined_summary(ss, target) == if words(all).len() <= 2 * target {
                all
            } else {
                join(words(all).take(target as int), seq![' '])
            }
        }),
        forall|a: nat, b: nat| #![trigger decimal(a), decimal(b)] 1 <= a < b <= ss.len() ==> decimal(a) != decimal(b),
{
    let labelled = Seq::new(ss.len(), |k: int| "[Section "@ + decimal((k + 1) as nat) + "] "@ + ss[k]);
    assert(Seq::new(ss.len(), |i: int| section_text(i, ss[i])) =~= labelled);
    assert forall|a: nat, b: nat| #![trigger decimal(a), decimal(b)] 1 <= a < b <= ss.len() implies decimal(a) != decimal(b) by {
        if decimal(a) == decimal(b) {
            crate::text::lemma_decimal_injective(a, b);
        }
    }
}

/// Combine multiple summaries into one
pub fn combine_summaries(summaries: &[String], target_length: usize) -> (r: String)
    requires
        summaries.len() != 1 ==> target_length * 2 <= usize::MAX,
    ensures
        r@ == combined_summary(summaries@.map_values(|s: String| s@), target_length as nat),
{
    let ghost ss = summaries@.map_values(|s: String| s@);
    if summaries.len() == 1 {
        return summaries[0].clone();
    }
    let ghost labelled = Seq::new(ss.len(), |i: int| section_text(i, ss[i]));
    let mut combined = String::new();
    let mut i: usize = 0;
    while i < summaries.len()
        invariant
            i <= summaries.len(),
            ss == summaries@.map_values(|s: String| s@),
            labelled == Seq::new(ss.len(), |i: int| section_text(i, ss[i])),
            combined@ == join(labelled.take(i as int), "\n\n"@),
        decreases summaries.len() - i,
    {
        assert(labelled.take((i + 1) as int).drop_last() == labelled.take(i as int));
        if i > 0 {
            push_str(&mut combined, "\n\n");
        } else {
            assert(labelled.take(0) == Seq::<Seq<char>>::empty());
        }
        let ghost before = combined@;
        push_str(&mut combined, "[Section ");
        let n = u64_to_decimal((i + 1) as u64);
        push_str(&mut combined, n.as_str());
        push_str(&mut combined, "] ");
        push_str(&mut combined, summaries[i].as_str());
        assert(combined@ == before + section_text(i as int, ss[i as int]));
        i += 1;
    }
    assert(labelled.take(summaries.len() as int) == labelled);
    let chars = chars_of(combined.as_str());
    let word_count = count_words(chars.as_slice());
    if word_count <= target_length * 2 {
        return combined;
    }
    let ws = split_words(chars.as_slice());
    let space: [char; 1] = [' '];
    let joined = join_prefix(&ws, target_length, space.as_slice());
    assert(space@ == seq![' ']);
    string_from_chars(joined.as_slice())
}


/// A character boundary inside `bytes[a..]` where `b` is one inside `bytes`.
pub proof fn lemma_boundary_in_tail(bytes: Seq<u8>, a: int, b: int)
    requires
        valid_utf8(bytes),
        0 <= a <= b <= bytes.len(),
        is_char_boundary(bytes, a),
        is_char_boundary(bytes, b),
    ensures
        valid_utf8(bytes.subrange(a, bytes.len() as int)),
        is_char_boundary(bytes.subrange(a, bytes.len() as int), b - a),
{
    let t = bytes.subrange(a, bytes.len() as int);
    valid_utf8_split(bytes, a);
    is_char_boundary_start_end_of_seq(t);
    if b - a != 0 && b != bytes.len() {
        is_char_boundary_iff_not_is_continuation_byte(t, b - a);
        is_char_boundary_iff_not_is_continuation_byte(bytes, b);
    }
}

/// The text between two character boundaries, given as byte offsets.
pub fn byte_slice(text: &str, a: usize, b: usize) -> (r: String)
    requires
        a <= b <= text.spec_bytes().len(),
        is_char_boundary(text.spec_bytes(), a as int),
        is_char_boundary(text.spec_bytes(), b as int),
    ensures
        encode_utf8(r@) == text.spec_bytes().subrange(a as int, b as int),
{
    proof {
        encode_utf8_valid_utf8(text@);
        lemma_boundary_in_tail(text.spec_bytes(), a as int, b as int);
    }
    let (_, tail) = text.split_at(a);
    let (mid, _) = tail.split_at(b - a);
    assert(mid.spec_bytes() =~= text.spec_bytes().subrange(a as int, b as int));
    String::from_str(mid)
}

/// Whether a byte ends a sentence (`.`, `!` or `?`).
pub open spec fn sentence_end(b: u8) -> bool {
    b == 46 || b == 33 || b == 63
}

/// Position of the last sentence end in `bytes[start..end]`, or -1.
pub open spec fn last_sentence_end(bytes: Seq<u8>, start: int, end: int) -> int
    decreases end - start,
{
    if end <= start {
        -1
    } else if sentence_end(bytes[end - 1]) {
        end - 1
    } else {
        last_sentence_end(bytes, start, end - 1)
    }
}

/// Where the chunk starting at `start` ends: just after the last sentence
/// end within `max` bytes, or after `max` bytes when there is none, or at
/// the end of the text.
pub open spec fn chunk_end(bytes: Seq<u8>, start: int, max: nat) -> int {
    let end = if start + max < bytes.len() { start + max } else { bytes.len() as int };
    if end < bytes.len() {
        let p = last_sentence_end(bytes, start, end);
        if p >= 0 { p + 1 } else { end }
    } else {
        end
    }
}

/// Where the next chunk starts after one that ends at `end`: `overlap`
/// bytes before that end, or at the end when it lies within the first
/// `overlap` bytes.
pub open spec fn next_chunk_start(end: int, overlap: nat) -> int {
    if end > overlap { end - overlap } else { end }
}

/// A chunk starting inside the text ends no earlier than its start, within
/// the text and within `max` bytes; later than its start when `max` is not
/// 0.
pub proof fn lemma_chunk_end_after_start(bytes: Seq<u8>, start: int, max: nat)
    requires
        0 <= start < bytes.len(),
    ensures
        start <= chunk_end(bytes, start, max) <= bytes.len(),
        chunk_end(bytes, start, max) <= start + max,
        max > 0 ==> start < chunk_end(bytes, start, max),
{
    let end = if start + max < bytes.len() { start + max } else { bytes.len() as int };
    lemma_last_sentence_end(bytes, start, end);
}

/// Distinct positions in `[0, n)` number at most `n`.
pub proof fn lemma_distinct_positions(ps: Seq<int>, n: int)
    requires
        n >= 0,
        ps.no_duplicates(),
        forall|i: int| 0 <= i < ps.len() ==> 0 <= #[trigger] ps[i] < n,
    ensures
        ps.len() <= n,
{
    ps.unique_seq_to_set();
    lemma_int_range(0, n);
    assert forall|x: int| ps.to_set().contains(x) implies set_int_range(0, n).contains(x) by {
        let i = choose|i: int| 0 <= i < ps.len() && ps[i] == x;
    }
    lemma_len_subset(ps.to_set(), set_int_range(0, n));
}

/// Whether the start positions `used` are distinct positions of the text.
pub open spec fn distinct_starts(used: Seq<int>, len: int) -> bool {
    &&& used.no_duplicates()
    &&& forall|i: int| 0 <= i < used.len() ==> 0 <= #[trigger] used[i] < len
}

/// The byte spans of the chunks from `start` on, the chunks before having
/// started at `used`. Each next chunk starts where `next_chunk_start`
/// puts it; where a chunk already started there (from then on the chunks
/// would repeat forever), it starts at the end of this one instead, and
/// where a chunk already started there too, chunking stops. `None` when a
/// cut falls inside a character.
pub open spec fn chunk_spans_from(bytes: Seq<u8>, start: int, max: nat, overlap: nat, used: Seq<int>) -> Option<Seq<(int, int)>>
    decreases bytes.len() - used.len()
        when distinct_starts(used, bytes.len() as int) && !used.contains(start)
{
    if start < 0 || start >= bytes.len() {
        None
    } else {
        let end = if start + max < bytes.len() { start + max } else { bytes.len() as int };
        let ce = chunk_end(bytes, start, max);
        if !(is_char_boundary(bytes, start) && is_char_boundary(bytes, end) && is_char_boundary(bytes, ce)) {
            None
        } else {
            let seen = used.push(start);
            let ns = next_chunk_start(ce, overlap);
            let next = if seen.contains(ns) { ce } else { ns };
            if ns >= bytes.len() || ce == bytes.len() || seen.contains(next) {
                Some(seq![(start, ce)])
            } else {
                proof {
                    assert(distinct_starts(seen, bytes.len() as int));
                    lemma_distinct_positions(seen, bytes.len() as int);
                }
                match chunk_spans_from(bytes, next, max, overlap, seen) {
                    Some(rest) => Some(seq![(start, ce)] + rest),
                    None => None,
                }
            }
        }
    }
}

/// Every cut of chunking a text longer than `max` bytes falls on a
/// character boundary.
pub open spec fn cuts_on_char_boundaries(bytes: Seq<u8>, max: nat, overlap: nat) -> bool {
    chunk_spans_from(bytes, 0, max, overlap, seq![]) is Some
}

/// The byte spans of the chunks of a text longer than `max` bytes.
pub open spec fn chunk_spans(bytes: Seq<u8>, max: nat, overlap: nat) -> Seq<(int, int)> {
    chunk_spans_from(bytes, 0, max, overlap, seq![])->Some_0
}

/// Chunk text for processing long documents. A text of at most
/// `max_chunk_size` bytes is one chunk. A longer one is cut into chunks of
/// at most `max_chunk_size` bytes, each ending after its last sentence end
/// where it has one, the next starting `overlap` bytes before its end
/// (where that is past the text's start). Where a chunk already started at
/// that place, the chunks would repeat forever; the next one then starts
/// at the end of this one, and where that too is taken, chunking stops.
/// Cutting inside a character would panic, so such inputs are left out.
pub fn chunk_text(text: &str, max_chunk_size: usize, overlap: usize) -> (r: Vec<String>)
    requires
        text.spec_bytes().len() <= isize::MAX,
        text.spec_bytes().len() > max_chunk_size
            ==> cuts_on_char_boundaries(text.spec_bytes(), max_chunk_size as nat, overlap as nat),
    ensures
        text.spec_bytes().len() <= max_chunk_size ==> r.len() == 1 && r@[0]@ == text@,
        text.spec_bytes().len() > max_chunk_size ==> {
            let spans = chunk_spans(text.spec_bytes(), max_chunk_size as nat, overlap as nat);
            &&& r.len() == spans.len()
            &&& forall|k: int| 0 <= k < r.len() ==> encode_utf8(#[trigger] r@[k]@)
                == text.spec_bytes().subrange(spans[k].0, spans[k].1)
        },
{
    let len = text.len();
    if len <= max_chunk_size {
        return vec![String::from_str(text)];
    }
    let bytes = text.as_bytes();
    let ghost bv = text.spec_bytes();
    let ghost spans = chunk_spans_from(bv, 0, max_chunk_size as nat, overlap as nat, seq![])->Some_0;
    assert(spans.skip(0) == spans);
    let mut started: Vec<bool> = Vec::new();
    while started.len() < len
        invariant
            started.len() <= len,
            forall|i: int| 0 <= i < started.len() ==> !(#[trigger] started@[i]),
        decreases len - started.len(),
    {
        started.push(false);
    }
    let ghost mut used: Seq<int> = seq![];
    let mut chunks: Vec<String> = Vec::new();
    let mut start: usize = 0;
    loop
        invariant_except_break
            start < len,
            !used.contains(start as int),
            chunk_spans_from(bv, start as int, max_chunk_size as nat, overlap as nat, used) == Some(spans.skip(chunks.len() as int)),
        invariant
            bytes@ == bv,
            bv == text.spec_bytes(),
            len == bv.len(),
            len <= isize::MAX,
            max_chunk_size < len,
            started.len() == len,
            distinct_starts(used, len as int),
            forall|i: int| 0 <= i < len ==> (#[trigger] started@[i] <==> used.contains(i)),
            chunks.len() <= spans.len(),
            forall|q: int| 0 <= q < chunks.len() ==> encode_utf8(#[trigger] chunks@[q]@) == bv.subrange(spans[q].0, spans[q].1),
        ensures
            chunks.len() == spans.len(),
        decreases len - used.len(),
    {
        let ghost step = spans.skip(chunks.len() as int);
        let end: usize = if start + max_chunk_size < len { start + max_chunk_size } else { len };
        let mut chunk_end_pos: usize = end;
        if end < len {
            let mut p: usize = end;
            while p > start && !(bytes[p - 1] == 46 || bytes[p - 1] == 33 || bytes[p - 1] == 63)
                invariant
                    bytes@ == bv,
                    len == bv.len(),
                    start <= p <= end < len,
                    last_sentence_end(bv, start as int, end as int) == last_sentence_end(bv, start as int, p as int),
                decreases p,
            {
                p -= 1;
            }
            if p > start {
                chunk_end_pos = p;
            }
        }
        assert(chunk_end_pos == chunk_end(bv, start as int, max_chunk_size as nat));
        proof {
            lemma_chunk_end_after_start(bv, start as int, max_chunk_size as nat);
        }
        assert(step[0] == (start as int, chunk_end_pos as int));
        let piece = byte_slice(text, start, chunk_end_pos);
        let ghost c = chunks.len();
        chunks.push(piece);
        assert(step.len() > 0);
        assert(step[0] == spans[c as int]);
        let ghost seen = used.push(start as int);
        started.set(start, true);
        assert(distinct_starts(seen, len as int));
        proof {
            lemma_distinct_positions(seen, len as int);
            assert forall|i: int| 0 <= i < len implies (#[trigger] started@[i] <==> seen.contains(i)) by {
                if i == start as int {
                    assert(seen[seen.len() - 1] == i);
                } else if used.contains(i) {
                    let j = choose|j: int| 0 <= j < used.len() && used[j] == i;
                    assert(seen[j] == i);
                } else if seen.contains(i) {
                    let j = choose|j: int| 0 <= j < seen.len() && seen[j] == i;
                    if j < used.len() {
                        assert(used[j] == i);
                    }
                }
            }
        }
        let ns: usize = if chunk_end_pos > overlap { chunk_end_pos - overlap } else { chunk_end_pos };
        if ns >= len || chunk_end_pos == len {
            assert(step.len() == 1);
            proof { used = seen; }
            break;
        }
        let next: usize = if started[ns] { chunk_end_pos } else { ns };
        if started[next] {
            assert(step.len() == 1);
            proof { used = seen; }
            break;
        }
        proof {
            assert(spans.skip(chunks.len() as int) == step.drop_first());
            used = seen;
        }
        start = next;
    }
    chunks
}


/// Shape of the spans from `start`, the chunks before having started at
/// `used`: they begin at `start`; each lies within the text and is at most
/// `max` bytes long; no two chunks start at the same place; each next one
/// begins where `next_chunk_start` puts it, or at the previous end where a
/// chunk already started there; and the last ends at the end of the text,
/// or both places where a next one could start are taken.
pub open spec fn spans_cover(sp: Seq<(int, int)>, used: Seq<int>, start: int, len: int, max: nat, overlap: nat) -> bool {
    let all = used + sp.map_values(|p: (int, int)| p.0);
    &&& sp.len() >= 1
    &&& sp[0].0 == start
    &&& forall|k: int| 0 <= k < sp.len() ==> 0 <= (#[trigger] sp[k]).0 <= sp[k].1 <= len && sp[k].1 <= sp[k].0 + max
    &&& distinct_starts(all, len)
    &&& forall|k: int| 0 <= k < sp.len() - 1 ==> (#[trigger] sp[k + 1]).0 == (
        if all.take(used.len() + k + 1).contains(next_chunk_start(sp[k].1, overlap)) { sp[k].1 } else { next_chunk_start(sp[k].1, overlap) })
    &&& sp.last().1 == len || (all.contains(next_chunk_start(sp.last().1, overlap)) && all.contains(sp.last().1))
}

/// The last sentence end before `end` is at or after `start`, or there is
/// none (-1).
pub proof fn lemma_last_sentence_end(bytes: Seq<u8>, start: int, end: int)
    ensures
        last_sentence_end(bytes, start, end) == -1 || start <= last_sentence_end(bytes, start, end) < end,
    decreases end - start,
{
    if end > start && !sentence_end(bytes[end - 1]) {
        lemma_last_sentence_end(bytes, start, end - 1);
    }
}

proof fn lemma_spans_cover(bytes: Seq<u8>, start: int, max: nat, overlap: nat, used: Seq<int>)
    requires
        distinct_starts(used, bytes.len() as int),
        !used.contains(start),
        chunk_spans_from(bytes, start, max, overlap, used) is Some,
    ensures
        spans_cover(chunk_spans_from(bytes, start, max, overlap, used)->Some_0, used, start, bytes.len() as int, max, overlap),
    decreases bytes.len() - used.len(),
{
    let len = bytes.len() as int;
    let ce = chunk_end(bytes, start, max);
    lemma_chunk_end_after_start(bytes, start, max);
    let seen = used.push(start);
    let ns = next_chunk_start(ce, overlap);
    let next = if seen.contains(ns) { ce } else { ns };
    let sp = chunk_spans_from(bytes, start, max, overlap, used)->Some_0;
    let all = used + sp.map_values(|p: (int, int)| p.0);
    assert(distinct_starts(seen, len)) by {
        assert forall|i: int, j: int| 0 <= i < seen.len() && 0 <= j < seen.len() && i != j implies seen[i] != seen[j] by {
            if j == used.len() as int {
                assert(used.contains(used[i]));
            } else if i == used.len() as int {
                assert(used.contains(used[j]));
            }
        }
    }
    if ns >= len || ce == len || seen.contains(next) {
        assert(sp == seq![(start, ce)]);
        assert(all =~= seen);
    } else {
        lemma_distinct_positions(seen, len);
        lemma_spans_cover(bytes, next, max, overlap, seen);
        let rest = chunk_spans_from(bytes, next, max, overlap, seen)->Some_0;
        assert(sp == seq![(start, ce)] + rest);
        let all_rest = seen + rest.map_values(|p: (int, int)| p.0);
        assert(all =~= all_rest);
        assert forall|k: int| 0 <= k < sp.len() implies 0 <= (#[trigger] sp[k]).0 <= sp[k].1 <= len && sp[k].1 <= sp[k].0 + max by {
            if k > 0 {
                assert(sp[k] == rest[k - 1]);
            }
        }
        assert forall|k: int| 0 <= k < sp.len() - 1 implies (#[trigger] sp[k + 1]).0 == (
            if all.take(used.len() + k + 1).contains(next_chunk_start(sp[k].1, overlap)) { sp[k].1 } else { next_chunk_start(sp[k].1, overlap) }) by {
            assert(sp[k + 1] == rest[k]);
            if k == 0 {
                assert(all.take(used.len() as int + 1) =~= seen);
            } else {
                assert(sp[k] == rest[k - 1]);
                assert(rest[(k - 1) + 1] == rest[k]);
                assert(all.take(used.len() + k + 1) =~= all_rest.take(seen.len() + (k - 1) + 1));
            }
        }
        assert(sp.last() == rest.last());
    }
}

/// The chunks of a long text start at its beginning, each lies within it
/// and is at most `max_chunk_size` bytes long, no two start at the same
/// place (so there are at most as many chunks as bytes, and chunking always
/// ends), each next one starts `overlap` bytes before the end of the one
/// before (where that is past the text's start) unless a chunk already
/// started there, and the last ends at the end of the text unless every
/// place where a next one could start was taken.
pub proof fn lemma_chunks_cover_text(bytes: Seq<u8>, max_chunk_size: nat, overlap: nat)
    requires
        bytes.len() > 0,
        cuts_on_char_boundaries(bytes, max_chunk_size, overlap),
    ensures
        spans_cover(chunk_spans(bytes, max_chunk_size, overlap), seq![], 0, bytes.len() as int, max_chunk_size, overlap),
        chunk_spans(bytes, max_chunk_size, overlap).len() <= bytes.len(),
{
    let sp = chunk_spans(bytes, max_chunk_size, overlap);
    lemma_spans_cover(bytes, 0, max_chunk_size, overlap, seq![]);
    let all = seq![] + sp.map_values(|p: (int, int)| p.0);
    lemma_distinct_positions(all, bytes.len() as int);
}

/// Prompt fitting keeps a prefix of the prompt and never exceeds the input
/// budget.
pub proof fn lemma_fit_prompt_bounded(ids: Seq<u32>, max_context: usize, max_position_embeddings: usize, max_new_tokens: usize)
    ensures
        ({
            let budget = input_budget(max_context, max_position_embeddings, max_new_tokens);
            let kept = if ids.len() <= budget { ids } else { ids.take(budget as int) };
            &&& kept.len() <= budget
            &&& kept.len() + max_new_tokens <= (if max_context <= max_position_embeddings { max_context } else { max_position_embeddings }) || max_new_tokens >= (if max_context <= max_position_embeddings { max_context } else { max_position_embeddings }) && kept.len() == 0
            &&& kept == ids.take(kept.len() as int)
        }),
{
    let budget = input_budget(max_context, max_position_embeddings, max_new_tokens);
    if ids.len() <= budget {
        assert(ids.take(ids.len() as int) == ids);
    }
}

/// Below `2^51` words the estimate is `words + ceil(words / 2)` (capped at
/// `usize::MAX`), so it lies between the word count and twice it.
pub proof fn lemma_token_estimate_small(words: nat)
    requires
        words < 0x8_0000_0000_0000,
        words <= usize::MAX,
    ensures
        token_estimate(words) == if words + (words + 1) / 2 > usize::MAX { usize::MAX as nat } else { words + (words + 1) / 2 },
        words <= token_estimate(words) <= 2 * words,
{
    crate::numfmt::lemma_small_exact(words);
    crate::numfmt::lemma_small_exact(3 * words);
    assert((3 * words + 1) / 2 == words + (words + 1) / 2);
}

} // verus!
