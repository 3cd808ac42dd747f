use pdf_summarizer::error::AppError;
use pdf_summarizer::model_manager::cache::{format_size, ModelCache};
use pdf_summarizer::output::format_bytes;
use pdf_summarizer::pdf::PdfExtractor;
use pdf_summarizer::pipeline::estimate_tokens_for_words;
use pdf_summarizer::tokenizer::ChatTemplate;

#[test]
fn test_error_display() {
    let err = AppError::Config("missing model path".to_string());
    assert!(err.message().contains("missing model path"));
}

#[test]
fn test_error_from_io() {
    let io_err = std::io::Error::new(std::io::ErrorKind::NotFound, "file not found");
    let app_err: AppError = io_err.into();
    assert!(matches!(app_err, AppError::Io(_)));
}

#[test]
fn test_estimate_tokens() {
    assert!(estimate_tokens_for_words(100) >= 100);
    assert!(estimate_tokens_for_words(100) <= 200);
}

#[test]
fn test_model_path_sanitization() {
    let temp = tempfile::tempdir().unwrap();
    let cache = ModelCache::new(temp.path().to_string_lossy().into_owned());

    let path = cache.model_path("meta-llama/Llama-3-8B");
    let name = path.strip_prefix(cache.cache_dir()).unwrap();
    assert!(!name.trim_start_matches('/').contains('/'));
}

#[test]
fn test_format_size() {
    assert_eq!(format_size(500), "500 bytes");
    assert_eq!(format_size(1024), "1.00 KB");
    assert_eq!(format_size(1536), "1.50 KB");
}

#[test]
fn test_format_bytes() {
    assert_eq!(format_bytes(500), "500 bytes");
    assert_eq!(format_bytes(2048), "2.00 KB");
    assert_eq!(format_bytes(1_500_000), "1.43 MB");
}

#[test]
fn test_clean_text() {
    let extractor = PdfExtractor::new();

    let text = "Hello    World\n\n\nTest";
    let cleaned = extractor.clean_text(text);
    assert_eq!(cleaned, "Hello World\nTest");
}

#[test]
fn test_extractor_builder() {
    let extractor = PdfExtractor::new().with_formatting(true).with_max_pages(10);

    assert!(extractor.preserve_formatting);
    assert_eq!(extractor.max_pages, 10);
}

#[test]
fn test_chat_template_llama2() {
    let prompt = ChatTemplate::summarization_prompt_llama2("Hello world", 100);
    assert!(prompt.contains("[INST]"));
    assert!(prompt.contains("<<SYS>>"));
    assert!(prompt.contains("Hello world"));
}

#[test]
fn test_chat_template_llama3() {
    let prompt = ChatTemplate::summarization_prompt_llama3("Hello world", 100);
    assert!(prompt.contains("<|begin_of_text|>"));
    assert!(prompt.contains("system"));
    assert!(prompt.contains("user"));
    assert!(prompt.contains("Hello world"));
}

#[test]
fn test_truncate() {
    let tokens = vec![1, 2, 3, 4, 5];
    let truncated: Vec<u32> = if tokens.len() > 3 {
        tokens[..3].to_vec()
    } else {
        tokens
    };
    assert_eq!(truncated.len(), 3);
    let truncated = pdf_summarizer::tokenizer::truncate_tokens(vec![1, 2, 3, 4, 5], 3);
    assert_eq!(truncated.len(), 3);
}
