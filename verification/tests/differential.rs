//! The library checked against straightforward implementations of the same
//! behaviour (std's `Path`, `str::split_whitespace`, `str::trim`, and the
//! text algorithms written with std's string methods) on many generated
//! inputs.

use std::path::Path;

use pdf_summarizer::output::{path_extension, path_file_name};
use pdf_summarizer::paths::{join_path, sanitize_name};
use pdf_summarizer::pdf::PdfExtractor;
use pdf_summarizer::pipeline::{chunk_text, combine_summaries, finish_summary, summary_result};

/// A small deterministic generator of test strings.
struct Gen(u64);

impl Gen {
    fn next(&mut self) -> u64 {
        self.0 = self.0.wrapping_mul(6364136223846793005).wrapping_add(1442695040888963407);
        self.0 >> 33
    }

    fn string(&mut self, alphabet: &[char], max_len: u64) -> String {
        let len = self.next() % (max_len + 1);
        (0..len).map(|_| alphabet[(self.next() % alphabet.len() as u64) as usize]).collect()
    }
}

fn expected_clean(text: &str) -> String {
    let mut result = String::new();
    let mut prev_ws = false;
    let mut prev_nl = false;
    for ch in text.chars() {
        match ch {
            '\n' | '\r' | '\x0C' | '\x0B' => {
                if !prev_nl {
                    result.push('\n');
                    prev_nl = true;
                    prev_ws = true;
                }
            }
            ' ' | '\t' => {
                if !prev_ws {
                    result.push(' ');
                    prev_ws = true;
                }
                prev_nl = false;
            }
            _ => {
                if ch.is_control() {
                    continue;
                }
                result.push(ch);
                prev_ws = false;
                prev_nl = false;
            }
        }
    }
    result.trim().to_string()
}

/// The chunks, or `None` when the loop would not end within `limit` rounds.
fn chunk_end_at(text: &str, start: usize, max_chunk_size: usize) -> usize {
    let end = (start + max_chunk_size).min(text.len());
    if end < text.len() {
        text[start..end].rfind(|c| c == '.' || c == '!' || c == '?').map(|pos| start + pos + 1).unwrap_or(end)
    } else {
        end
    }
}

/// The plain chunking loop, with no guard against a repeated start, run
/// for at most `limit` rounds; `None` where it has not ended by then.
fn looping_chunks(text: &str, max_chunk_size: usize, overlap: usize, limit: usize) -> Option<Vec<String>> {
    if text.len() <= max_chunk_size {
        return Some(vec![text.to_string()]);
    }
    let mut chunks = Vec::new();
    let mut start = 0;
    for _ in 0..limit {
        let chunk_end = chunk_end_at(text, start, max_chunk_size);
        chunks.push(text[start..chunk_end].to_string());
        start = if chunk_end > overlap { chunk_end - overlap } else { chunk_end };
        if start >= text.len() || chunk_end == text.len() {
            return Some(chunks);
        }
    }
    None
}

/// The same loop, moving to the chunk's end where the next start was
/// already used, and stopping where that was used too.
fn expected_chunks(text: &str, max_chunk_size: usize, overlap: usize) -> Vec<String> {
    if text.len() <= max_chunk_size {
        return vec![text.to_string()];
    }
    let mut used = vec![false; text.len()];
    let mut chunks = Vec::new();
    let mut start = 0;
    loop {
        let chunk_end = chunk_end_at(text, start, max_chunk_size);
        chunks.push(text[start..chunk_end].to_string());
        used[start] = true;
        let next = if chunk_end > overlap { chunk_end - overlap } else { chunk_end };
        if next >= text.len() || chunk_end == text.len() {
            return chunks;
        }
        let next = if used[next] { chunk_end } else { next };
        if used[next] {
            return chunks;
        }
        start = next;
    }
}

fn expected_combine(summaries: &[String], target_length: usize) -> String {
    if summaries.len() == 1 {
        return summaries[0].clone();
    }
    let combined = summaries
        .iter()
        .enumerate()
        .map(|(i, s)| format!("[Section {}] {}", i + 1, s))
        .collect::<Vec<_>>()
        .join("\n\n");
    if combined.split_whitespace().count() <= target_length * 2 {
        return combined;
    }
    let words: Vec<&str> = combined.split_whitespace().collect();
    words[..target_length.min(words.len())].join(" ")
}

#[test]
fn file_name_and_extension_agree_with_std_path() {
    let alphabet = ['a', 'b', '.', '/', '.', '/'];
    let mut g = Gen(1);
    for _ in 0..20000 {
        let p = g.string(&alphabet, 9);
        let path = Path::new(&p);
        let std_name = path.file_name().map(|n| n.to_str().unwrap().to_string());
        let std_ext = path.extension().map(|e| e.to_str().unwrap().to_string());
        assert_eq!(path_file_name(&p), std_name, "path {:?}", p);
        assert_eq!(path_extension(&p), std_ext, "path {:?}", p);
    }
}

#[test]
fn join_agrees_with_std_path() {
    let alphabet = ['a', '/', 'b'];
    let mut g = Gen(2);
    for _ in 0..5000 {
        let base = g.string(&alphabet, 5);
        let part = g.string(&alphabet, 5);
        let std_joined = Path::new(&base).join(&part).to_str().unwrap().to_string();
        assert_eq!(join_path(&base, &part), std_joined, "{:?} + {:?}", base, part);
    }
}

#[test]
fn sanitized_names_agree_with_replace() {
    let alphabet = ['a', '/', '\\', ':', '-', 'é'];
    let mut g = Gen(3);
    for _ in 0..3000 {
        let name = g.string(&alphabet, 8);
        let expected = name.replace('/', "-").replace('\\', "-").replace(':', "-");
        assert_eq!(sanitize_name(&name), expected);
    }
}

#[test]
fn clean_text_agrees_with_expected() {
    let alphabet = ['a', 'é', ' ', ' ', '\t', '\n', '\r', '\x0B', '\x0C', '\u{7}', '\u{85}', '\u{A0}', '\u{2003}', 'z'];
    let extractor = PdfExtractor::new();
    let mut g = Gen(4);
    for _ in 0..20000 {
        let s = g.string(&alphabet, 12);
        assert_eq!(extractor.clean_text(&s), expected_clean(&s), "text {:?}", s);
    }
}

#[test]
fn words_and_trim_agree_with_std() {
    let alphabet = ['a', 'b', ' ', '\n', '\u{A0}', '\u{3000}', 'é'];
    let mut g = Gen(5);
    for _ in 0..10000 {
        let s = g.string(&alphabet, 10);
        assert_eq!(finish_summary(&s), s.trim());
        let r = summary_result("x.pdf", &s, s.clone());
        assert_eq!(r.word_count, s.split_whitespace().count());
        assert_eq!(r.original_length, s.chars().count());
    }
}

#[test]
fn chunk_text_agrees_with_expected() {
    let alphabet = ['a', 'b', ' ', '.', '!', '?', 'c', 'd'];
    let mut g = Gen(6);
    let mut ended = 0;
    for _ in 0..20000 {
        let text = g.string(&alphabet, 40);
        let max = (g.next() % 12) as usize;
        let overlap = (g.next() % 14) as usize;
        let chunks = chunk_text(&text, max, overlap);
        assert_eq!(chunks, expected_chunks(&text, max, overlap), "{:?} max {} overlap {}", text, max, overlap);
        // where the first loop ends (no start repeats), it is followed exactly
        if let Some(first) = looping_chunks(&text, max, overlap, text.len() + 2) {
            assert_eq!(chunks, first, "{:?} max {} overlap {}", text, max, overlap);
            ended += 1;
        }
    }
    assert!(ended > 1000);
}

#[test]
fn combine_summaries_agrees_with_expected() {
    let alphabet = ['a', ' ', 'b', '\n', '.'];
    let mut g = Gen(7);
    for _ in 0..5000 {
        let n = (g.next() % 4) as usize;
        let summaries: Vec<String> = (0..n).map(|_| g.string(&alphabet, 12)).collect();
        let target = (g.next() % 6) as usize;
        assert_eq!(combine_summaries(&summaries, target), expected_combine(&summaries, target), "{:?} {}", summaries, target);
    }
}
