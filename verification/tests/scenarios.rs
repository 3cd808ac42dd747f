use pdf_summarizer::model_manager::validator::{EntryInfo, EntryMeta, ModelDirSnapshot, ModelValidator, ValidationError};
use pdf_summarizer::pipeline::{chunk_text, combine_summaries};

fn entry(name: &str, len: u64) -> EntryInfo {
    EntryInfo { name: Some(name.to_string()), metadata: Ok(EntryMeta { is_file: true, len }) }
}

fn empty_dir_snapshot() -> ModelDirSnapshot {
    ModelDirSnapshot {
        path: "/tmp/model".to_string(),
        exists: true,
        is_dir: true,
        required: vec![None, None],
        optional: vec![false, false, false],
        entries: Ok(Vec::new()),
        config_text: None,
        tokenizer_text: None,
    }
}

fn complete_dir_snapshot() -> ModelDirSnapshot {
    let config = r#"{"hidden_size": 4096, "num_hidden_layers": 32, "num_attention_heads": 32, "vocab_size": 128256}"#;
    let tokenizer = r#"{"version": "1.0"}"#;
    let weights = b"dummy weights";
    ModelDirSnapshot {
        path: "/tmp/model".to_string(),
        exists: true,
        is_dir: true,
        required: vec![Some(Ok(config.len() as u64)), Some(Ok(tokenizer.len() as u64))],
        optional: vec![false, false, false],
        entries: Ok(vec![
            entry("config.json", config.len() as u64),
            entry("tokenizer.json", tokenizer.len() as u64),
            entry("model.safetensors", weights.len() as u64),
        ]),
        config_text: Some(Ok(config.to_string())),
        tokenizer_text: Some(Ok(tokenizer.to_string())),
    }
}

#[test]
fn test_validator_missing_files() {
    let validator = ModelValidator::new();

    let result = validator.validate(empty_dir_snapshot());
    assert!(result.is_err());
}

#[test]
fn test_validator_with_required_files() {
    let validator = ModelValidator::new();
    let result = validator.validate(complete_dir_snapshot());

    assert!(result.is_ok());
}

#[test]
fn test_chunk_text() {
    let text = "First sentence. Second sentence. Third sentence. Fourth sentence.";
    let chunks = chunk_text(text, 30, 5);
    assert!(!chunks.is_empty());
    assert!(chunks[0].len() <= 30 + 20); // Some flexibility for sentence boundaries
}

#[test]
fn test_combine_summaries() {
    let summaries = vec!["Summary one.".to_string(), "Summary two.".to_string()];
    let combined = combine_summaries(&summaries, 100);
    assert!(combined.contains("[Section 1]"));
    assert!(combined.contains("[Section 2]"));
}

#[test]
fn validator_reports_both_missing_files() {
    let result = ModelValidator::new().validate(empty_dir_snapshot());
    match result {
        Err(ValidationError::Invalid(errors)) => {
            assert_eq!(errors.len(), 3);
            assert!(errors[0].contains("config.json"));
            assert!(errors[1].contains("tokenizer.json"));
            assert!(errors[2].contains("safetensors"));
        }
        other => panic!("unexpected outcome: {:?}", other),
    }
}

#[test]
fn validator_lists_present_files_and_weights() {
    let result = ModelValidator::new().validate(complete_dir_snapshot()).unwrap();
    assert!(result.is_valid);
    assert_eq!(
        result.files_present,
        vec!["config.json".to_string(), "tokenizer.json".to_string(), "model.safetensors".to_string()]
    );
    assert!(result.files_missing.is_empty());
    assert_eq!(result.weight_files, vec!["model.safetensors".to_string()]);
    assert!(result.is_ok());
}

#[test]
fn strict_validator_refuses_warnings() {
    let result = ModelValidator::new().strict().validate(complete_dir_snapshot());
    assert!(matches!(result, Err(ValidationError::StrictWarnings(_))));
}

#[test]
fn validator_missing_path() {
    let mut snap = empty_dir_snapshot();
    snap.exists = false;
    snap.is_dir = false;
    match ModelValidator::new().validate(snap) {
        Err(ValidationError::PathMissing(p)) => assert_eq!(p, "/tmp/model"),
        other => panic!("unexpected outcome: {:?}", other),
    }
}

#[test]
fn validator_path_not_a_directory() {
    let mut snap = empty_dir_snapshot();
    snap.is_dir = false;
    assert!(matches!(ModelValidator::new().validate(snap), Err(ValidationError::NotADirectory(_))));
}

#[test]
fn validator_invalid_config_json() {
    let mut snap = complete_dir_snapshot();
    snap.config_text = Some(Ok("{not json".to_string()));
    assert!(matches!(ModelValidator::new().validate(snap), Err(ValidationError::ConfigInvalid(_))));
}

#[test]
fn validator_unreadable_listing() {
    let mut snap = complete_dir_snapshot();
    snap.entries = Err(std::io::Error::new(std::io::ErrorKind::PermissionDenied, "denied"));
    assert!(matches!(ModelValidator::new().validate(snap), Err(ValidationError::Io(_))));
}

#[test]
fn chunk_text_short_text_is_one_chunk() {
    let chunks = chunk_text("Short text.", 100, 10);
    assert_eq!(chunks, vec!["Short text.".to_string()]);
}

#[test]
fn chunk_text_breaks_after_sentences() {
    let text = "First sentence. Second sentence. Third sentence. Fourth sentence.";
    let chunks = chunk_text(text, 30, 5);
    assert_eq!(chunks[0], "First sentence.");
    for c in &chunks {
        assert!(c.len() <= 30);
        assert!(text.contains(c.as_str()));
    }
    assert!(text.ends_with(chunks.last().unwrap().as_str()));
}

#[test]
fn combine_single_summary_is_unchanged() {
    let summaries = vec!["Only one summary here.".to_string()];
    assert_eq!(combine_summaries(&summaries, 1), "Only one summary here.");
}

#[test]
fn combine_summaries_exact_text() {
    let summaries = vec!["Summary one.".to_string(), "Summary two.".to_string()];
    assert_eq!(combine_summaries(&summaries, 100), "[Section 1] Summary one.\n\n[Section 2] Summary two.");
}

#[test]
fn combine_summaries_truncates_to_target_words() {
    let summaries = vec!["a b c d e".to_string(), "f g h".to_string()];
    // 12 words in all, more than twice the target of 3
    assert_eq!(combine_summaries(&summaries, 3), "[Section 1] a");
}

#[test]
fn chunking_never_repeats_a_start() {
    let text = "aaaaaaa.bbbbbbbbbbbbbbbbbbbb";
    let chunks = chunk_text(text, 10, 5);
    let expected = ["aaaaaaa.", "aaaa.", "bbbbbbbbbb", "bbbbbbbbbb", "bbbbbbbbbb"];
    assert_eq!(chunks, expected.iter().map(|c| c.to_string()).collect::<Vec<_>>());
    let chunks = chunk_text("aa.aaaaa", 3, 1);
    let expected = ["aa.", ".", "aaa", "aaa"];
    assert_eq!(chunks, expected.iter().map(|c| c.to_string()).collect::<Vec<_>>());
    // an overlap longer than a chunk moves back until a start would repeat
    let chunks = chunk_text("abcdefghij", 3, 4);
    let expected = ["abc", "def", "cde", "bcd", "efg", "hij"];
    assert_eq!(chunks, expected.iter().map(|c| c.to_string()).collect::<Vec<_>>());
    // a chunk size of 0 gives one empty chunk
    assert_eq!(chunk_text("abc", 0, 0), vec![String::new()]);
}
