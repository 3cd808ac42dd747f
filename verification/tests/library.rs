use lopdf::content::{Content, Operation};
use lopdf::{Dictionary, Document, Object, Stream};
use pdf_summarizer::cli::{check_arguments, collect_pdf_files, is_pdf_path, log_level, should_output_to_file, ArgsFacts, ArgsProblem, LogLevel, PathFacts};
use pdf_summarizer::error::{AppError, ErrorContext};
use pdf_summarizer::json::JsonDocument;
use pdf_summarizer::llm::{find_weight_file, stored_weight, weight_from_entry, stored_weight_names, StoredDtype, ModelDims, get_weight_mapping, shape_2d, weight_mapping_pairs, GenerationSchedule};
use pdf_summarizer::model_manager::cache::ModelCache;
use pdf_summarizer::model_manager::validator::{EntryInfo, EntryMeta, ModelDirSnapshot, ModelValidator, ValidationError, ValidationResult};
use pdf_summarizer::model_manager::downloader::{
    access_denied_message, bearer_value, download_begin, download_next, download_plan, file_url, DownloadAction, DownloadEvent, DownloadState, get_files_to_download, is_access_denied, keep_existing_file, model_info_url, RemoteFile,
};
use pdf_summarizer::model_manager::{
    acquisition_next, cache_dir_from, cache_dir_in, model_path_in, Acquisition, AcquisitionAction, AcquisitionEvent, AcquisitionFailure, OPEN_MODEL_ID,
    GATED_MODEL_ID,
};
use pdf_summarizer::output::{output_target, path_extension, path_file_name, render_result, render_results, OutputFormat, OutputTarget};
use pdf_summarizer::paths::{join_path, sanitize_name};
use pdf_summarizer::pdf::{ExtractFailure, PdfError, PdfExtractor, PdfSource};
use pdf_summarizer::pipeline::{estimate_tokens_for_words, finish_summary, fit_prompt, generated_tokens, summary_result, SummaryResult};
use pdf_summarizer::text::u64_to_decimal;
use pdf_summarizer::tokenizer::{attention_mask, pad_tokens, prepend_token, special_tokens_from_configs, truncate_tokens, ChatFormat, Tokenizer};
use pdf_summarizer::model_manager::cache::format_size;

const WORD_LEVEL_JSON: &str = r#"{
  "version": "1.0",
  "truncation": null,
  "padding": null,
  "added_tokens": [],
  "normalizer": null,
  "pre_tokenizer": {"type": "Whitespace"},
  "post_processor": null,
  "decoder": null,
  "model": {"type": "WordLevel", "vocab": {"<unk>": 0, "hello": 1, "world": 2}, "unk_token": "<unk>"}
}"#;

fn path(p: &str, exists: bool, kind: bool) -> PathFacts {
    PathFacts { path: p.to_string(), exists, is_expected_kind: kind }
}

fn good_args() -> ArgsFacts {
    ArgsFacts {
        has_files: true,
        has_folder: false,
        summary_length: 250,
        temperature_in_range: true,
        top_p_in_range: true,
        folder: None,
        files: vec![path("a.pdf", true, true)],
    }
}

fn result(source: &str, summary: &str) -> SummaryResult {
    SummaryResult { source: source.to_string(), original_length: 1234, summary: summary.to_string(), word_count: 2 }
}

#[test]
fn arguments_accepted() {
    assert!(check_arguments(&good_args()).is_ok());
}

#[test]
fn arguments_refused_in_order() {
    let mut a = good_args();
    a.has_files = false;
    assert!(matches!(check_arguments(&a), Err(ArgsProblem::NoInput)));

    let mut a = good_args();
    a.summary_length = 0;
    a.temperature_in_range = false;
    assert!(matches!(check_arguments(&a), Err(ArgsProblem::ZeroSummaryLength)));

    let mut a = good_args();
    a.temperature_in_range = false;
    assert!(matches!(check_arguments(&a), Err(ArgsProblem::TemperatureOutOfRange)));

    let mut a = good_args();
    a.top_p_in_range = false;
    assert!(matches!(check_arguments(&a), Err(ArgsProblem::TopPOutOfRange)));

    let mut a = good_args();
    a.has_folder = true;
    a.folder = Some(path("docs", false, false));
    match check_arguments(&a) {
        Err(p @ ArgsProblem::FolderMissing(_)) => assert_eq!(p.message(), "Folder does not exist: \"docs\""),
        other => panic!("unexpected: {:?}", other),
    }

    let mut a = good_args();
    a.folder = Some(path("docs", true, false));
    assert!(matches!(check_arguments(&a), Err(ArgsProblem::FolderNotADirectory(_))));

    let mut a = good_args();
    a.files = vec![path("a.pdf", true, true), path("b.pdf", true, false), path("c.pdf", false, false)];
    match check_arguments(&a) {
        Err(ArgsProblem::NotAFile(p)) => assert_eq!(p, "b.pdf"),
        other => panic!("unexpected: {:?}", other),
    }

    let mut a = good_args();
    a.files = vec![path("c.pdf", false, false)];
    assert!(matches!(check_arguments(&a), Err(ArgsProblem::FileMissing(_))));
}

#[test]
fn argument_messages() {
    assert_eq!(ArgsProblem::NoInput.message(), "At least one of --files (-f) or --folder (-F) must be provided");
    assert_eq!(ArgsProblem::NotAFile("x".to_string()).message(), "Path is not a file: \"x\"");
    assert_eq!(ArgsProblem::FolderMissing("my \"docs\"".to_string()).message(), "Folder does not exist: \"my \\\"docs\\\"\"");
    assert_eq!(ValidationError::PathMissing("a\\b".to_string()).message(), "Model path does not exist: \"a\\\\b\"");
    assert_eq!(ValidationError::NotADirectory("/m".to_string()).message(), "Model path is not a directory: \"/m\"");
}

#[test]
fn pdf_files_collected_in_order() {
    let files = vec!["a.pdf".to_string(), "notes.txt".to_string(), "b.PDF".to_string()];
    let entries = vec![("dir/c.pdf".to_string(), true), ("dir/sub.pdf".to_string(), false), ("dir/d.doc".to_string(), true)];
    let all = collect_pdf_files(&files, &entries).unwrap();
    assert_eq!(all, vec!["a.pdf".to_string(), "dir/c.pdf".to_string()]);
}

#[test]
fn no_pdf_files_is_an_error() {
    let err = collect_pdf_files(&vec!["x.txt".to_string()], &Vec::new()).unwrap_err();
    assert_eq!(err, "No PDF files found to process");
}

#[test]
fn pdf_path_and_output_decisions() {
    assert!(is_pdf_path("/home/u/paper.pdf"));
    assert!(!is_pdf_path("/home/u/.pdf"));
    assert!(!is_pdf_path("/home/u/paper"));
    assert!(should_output_to_file(Some("out.txt")));
    assert!(!should_output_to_file(Some("out.md")));
    assert!(!should_output_to_file(None));
    assert_eq!(output_target(Some("out/summary.txt")), OutputTarget::File);
    assert_eq!(output_target(Some("summary.json")), OutputTarget::Stdout);
    assert_eq!(output_target(None), OutputTarget::Stdout);
}

#[test]
fn log_levels() {
    assert_eq!(log_level(0), LogLevel::Warn);
    assert_eq!(log_level(1), LogLevel::Info);
    assert_eq!(log_level(2), LogLevel::Debug);
    assert_eq!(log_level(7), LogLevel::Trace);
}

#[test]
fn path_parts() {
    assert_eq!(path_file_name("/a/b/report.pdf"), Some("report.pdf".to_string()));
    assert_eq!(path_file_name("/a/b/"), Some("b".to_string()));
    assert_eq!(path_file_name("/a/.."), None);
    assert_eq!(path_extension("archive.tar.gz"), Some("gz".to_string()));
    assert_eq!(path_extension(".bashrc"), None);
    assert_eq!(join_path("/cache", "model"), "/cache/model");
    assert_eq!(join_path("/cache/", "model"), "/cache/model");
    assert_eq!(join_path("/cache", "/abs"), "/abs");
}

#[test]
fn sanitized_names() {
    assert_eq!(sanitize_name("meta-llama/Llama-3-8B"), "meta-llama-Llama-3-8B");
    let cache = ModelCache::new("/cache".to_string());
    assert_eq!(cache.model_path("org/model"), "/cache/org-model");
    assert_eq!(cache.temp_download_path("org/model", "config.json"), "/cache/org-model/config.json.download");
    assert_eq!(model_path_in("/c", "a/b"), "/c/a-b");
    assert_eq!(cache_dir_in("/home/u"), "/home/u/.pdf_summarizer/models");
}

#[test]
fn size_formats() {
    assert_eq!(format_size(0), "0 bytes");
    assert_eq!(format_size(1023), "1023 bytes");
    assert_eq!(format_size(1024 * 1024), "1.00 MB");
    assert_eq!(format_size(3 * 1024 * 1024 * 1024 / 2), "1.50 GB");
    assert_eq!(format_size(5 * 1024 * 1024 * 1024 * 1024), "5120.00 GB");
    assert_eq!(u64_to_decimal(1234567890), "1234567890");
}

#[test]
fn token_estimates() {
    assert_eq!(estimate_tokens_for_words(0), 0);
    assert_eq!(estimate_tokens_for_words(100), 150);
    assert_eq!(estimate_tokens_for_words(3), 5);
}

#[test]
fn renders_plain_and_markdown() {
    let r = result("/docs/paper.pdf", "Short summary.");
    let plain = render_result(OutputFormat::Plain, &r).unwrap();
    assert_eq!(
        plain,
        "Source: /docs/paper.pdf\nOriginal Length: 1234 characters\nSummary Word Count: 2 words\n\nSummary:\nShort summary.\n"
    );
    let md = render_result(OutputFormat::Markdown, &r).unwrap();
    assert!(md.starts_with("## Summary: paper.pdf\n\n**Source:** `/docs/paper.pdf`\n"));
    assert!(md.ends_with("### Content\n\nShort summary.\n"));
    assert!(render_result(OutputFormat::Json, &r).is_none());
}

#[test]
fn renders_several_results_with_separators() {
    let rs = vec![result("a.pdf", "one two"), result("b.pdf", "three four")];
    let plain = render_results(OutputFormat::Plain, &rs).unwrap();
    let rule = format!("\n{}\n", "=".repeat(80));
    assert_eq!(plain.matches(&rule).count(), 1);
    let md = render_results(OutputFormat::Markdown, &rs).unwrap();
    assert_eq!(md.matches("\n---\n\n").count(), 1);
}

#[test]
fn summary_result_counts() {
    let r = summary_result("x.pdf", "héllo", "one two  three".to_string());
    assert_eq!(r.original_length, 5);
    assert_eq!(r.word_count, 3);
    assert_eq!(r.source, "x.pdf");
}

#[test]
fn prompt_fitting_and_generated_tokens() {
    let ids: Vec<u32> = (0..10).collect();
    assert_eq!(fit_prompt(ids.clone(), 8, 100, 3), vec![0, 1, 2, 3, 4]);
    assert_eq!(fit_prompt(ids.clone(), 100, 100, 3), ids);
    assert_eq!(generated_tokens(&[1, 2, 3, 4, 5], 3), vec![4, 5]);
    assert_eq!(generated_tokens(&[1, 2], 3), Vec::<u32>::new());
    assert_eq!(finish_summary("  The summary.  \n"), "The summary.");
}

#[test]
fn token_vectors() {
    assert_eq!(truncate_tokens(vec![1, 2, 3], 5), vec![1, 2, 3]);
    assert_eq!(pad_tokens(vec![5, 6], 4, 0, false), vec![5, 6, 0, 0]);
    assert_eq!(pad_tokens(vec![5, 6], 4, 0, true), vec![0, 0, 5, 6]);
    assert_eq!(pad_tokens(vec![5, 6, 7], 2, 0, true), vec![5, 6, 7]);
    assert_eq!(attention_mask(&[0, 5, 0, 6], 0), vec![0, 1, 0, 1]);
    assert_eq!(prepend_token(1, &[7, 8]), vec![1, 7, 8]);
}

#[test]
fn special_tokens_from_configuration() {
    let gen = r#"{"bos_token_id": 10, "eos_token_id": 11}"#;
    let tok = r#"{"bos_token_id": 20, "eos_token_id": 21, "pad_token_id": 22}"#;
    assert_eq!(special_tokens_from_configs(Some(gen), Some(tok)), Some((10, 11, 0)));
    assert_eq!(special_tokens_from_configs(Some("{}"), Some(tok)), Some((20, 21, 22)));
    assert_eq!(special_tokens_from_configs(None, None), None);
}

#[test]
fn word_level_tokenizer_round_trip() {
    let t = Tokenizer::from_json(WORD_LEVEL_JSON, None).unwrap();
    assert_eq!(t.vocab_size(), 3);
    assert!(!t.samples_when_encoding());
    assert_eq!((t.bos_token_id(), t.eos_token_id(), t.pad_token_id()), (1, 2, 0));
    assert_eq!(t.chat_format(), ChatFormat::Llama2);
    let ids = t.encode("hello world", false).unwrap();
    assert_eq!(ids, vec![1, 2]);
    assert_eq!(t.encode_with_bos("world").unwrap(), vec![1, 2]);
    assert_eq!(t.decode(&ids, false).unwrap(), "hello world");
    assert_eq!(t.encode_batch(&["hello", "world hello"], false).unwrap(), vec![vec![1], vec![2, 1]]);
    assert_eq!(t.truncate(vec![1, 2, 3], 2), vec![1, 2]);
    assert_eq!(t.create_attention_mask(&[1, 0, 2]), vec![1, 0, 1]);
}

#[test]
fn tokenizer_uses_configured_ids() {
    let t = Tokenizer::from_json(WORD_LEVEL_JSON, Some((7, 8, 9))).unwrap();
    assert_eq!((t.bos_token_id(), t.eos_token_id(), t.pad_token_id()), (7, 8, 9));
}

#[test]
fn tokenizer_refuses_bad_json() {
    match Tokenizer::from_json("{", None) {
        Err(err) => assert!(err.starts_with("Failed to load tokenizer: ")),
        Ok(_) => panic!("a truncated document was accepted"),
    }
}

#[test]
fn json_members() {
    let doc = JsonDocument::parse(r#"{"model_type": "llama", "vocab_size": 32000, "x": -1}"#).unwrap();
    assert!(doc.has_member("model_type"));
    assert!(!doc.has_member("missing"));
    assert_eq!(doc.string_member("model_type"), Some("llama".to_string()));
    assert_eq!(doc.string_member("vocab_size"), None);
    assert_eq!(doc.u64_member("vocab_size"), Some(32000));
    assert_eq!(doc.u64_member("x"), None);
    assert!(JsonDocument::parse("[1,").is_err());
}

#[test]
fn downloader_decisions() {
    let files = vec![
        RemoteFile { filename: "config.json".to_string(), size: Some(10) },
        RemoteFile { filename: "README.md".to_string(), size: Some(5) },
        RemoteFile { filename: "model-00001.safetensors".to_string(), size: None },
        RemoteFile { filename: "tokenizer.model".to_string(), size: Some(3) },
    ];
    assert_eq!(
        get_files_to_download(&files),
        vec![("config.json".to_string(), 10), ("model-00001.safetensors".to_string(), 0), ("tokenizer.model".to_string(), 3)]
    );
    assert_eq!(model_info_url("a/b"), "https://huggingface.co/api/models/a/b");
    assert_eq!(file_url("a/b", "config.json"), "https://huggingface.co/a/b/resolve/main/config.json");
    assert_eq!(bearer_value("tok"), "Bearer tok");
    assert!(is_access_denied(401) && is_access_denied(403) && !is_access_denied(404));
    assert!(access_denied_message("a/b").starts_with("Access denied to model 'a/b'."));
    assert!(keep_existing_file(Some(3), 3));
    assert!(!keep_existing_file(Some(3), 4));
    assert!(!keep_existing_file(Some(0), 0));
    assert!(!keep_existing_file(None, 3));
}

#[test]
fn acquisition_with_provided_model() {
    let (s, a) = acquisition_next(
        Acquisition::Start,
        AcquisitionEvent::Begin { model_path: Some("/m".to_string()), model_path_exists: true, hf_token_present: false },
    );
    assert!(matches!(a, AcquisitionAction::Validate { ref path } if path == "/m"));
    let (s, a) = acquisition_next(s, AcquisitionEvent::ValidationPassed);
    assert!(matches!(s, Acquisition::Ready { .. }));
    assert!(matches!(a, AcquisitionAction::Finish { ref path } if path == "/m"));
}

#[test]
fn acquisition_missing_provided_path_fails() {
    let (_, a) = acquisition_next(
        Acquisition::Start,
        AcquisitionEvent::Begin { model_path: Some("/nope".to_string()), model_path_exists: false, hf_token_present: true },
    );
    assert!(matches!(a, AcquisitionAction::Fail { failure: AcquisitionFailure::ProvidedPathMissing(_) }));
}

#[test]
fn acquisition_downloads_when_cache_invalid() {
    let (s, a) = acquisition_next(
        Acquisition::Start,
        AcquisitionEvent::Begin { model_path: None, model_path_exists: false, hf_token_present: false },
    );
    assert!(matches!(a, AcquisitionAction::LocateCache { model_id } if model_id == OPEN_MODEL_ID));
    let (s, a) = acquisition_next(s, AcquisitionEvent::CacheLocated { path: "/c/m".to_string(), exists: true });
    assert!(matches!(a, AcquisitionAction::Validate { .. }));
    let (s, a) = acquisition_next(s, AcquisitionEvent::ValidationFailed { message: "bad".to_string() });
    assert!(matches!(a, AcquisitionAction::Download { model_id, .. } if model_id == OPEN_MODEL_ID));
    let (s, a) = acquisition_next(s, AcquisitionEvent::Downloaded);
    assert!(matches!(a, AcquisitionAction::Validate { ref path } if path == "/c/m"));
    let (_, a) = acquisition_next(s, AcquisitionEvent::ValidationFailed { message: "still bad".to_string() });
    assert!(matches!(a, AcquisitionAction::Fail { failure: AcquisitionFailure::InvalidModel(ref m) } if m == "still bad"));
}

#[test]
fn acquisition_with_token_selects_gated_model() {
    let (_, a) = acquisition_next(
        Acquisition::Start,
        AcquisitionEvent::Begin { model_path: None, model_path_exists: false, hf_token_present: true },
    );
    assert!(matches!(a, AcquisitionAction::LocateCache { model_id } if model_id == GATED_MODEL_ID));
}

#[test]
fn acquisition_unexpected_event() {
    let (s, a) = acquisition_next(Acquisition::Start, AcquisitionEvent::ValidationPassed);
    assert!(matches!(s, Acquisition::Failed));
    assert!(matches!(a, AcquisitionAction::Fail { failure: AcquisitionFailure::UnexpectedEvent }));
}

#[test]
fn weight_mapping_for_a_layer() {
    let pairs = weight_mapping_pairs(3);
    assert_eq!(pairs.len(), 9);
    assert_eq!(pairs[0], ("model.layers.3.self_attn.q_proj.weight".to_string(), "layers.3.self_attn.q_proj.weight".to_string()));
    let map = get_weight_mapping(3);
    assert_eq!(map.len(), 9);
    assert_eq!(map.get("model.layers.3.mlp.down_proj.weight").map(|s| s.as_str()), Some("layers.3.mlp.down_proj.weight"));
}

#[test]
fn tensor_shapes() {
    assert_eq!(shape_2d(&[4]), Ok((4, 1)));
    assert_eq!(shape_2d(&[4, 5]), Ok((4, 5)));
    assert_eq!(shape_2d(&[1, 2, 3]), Err("Unsupported tensor rank: 3".to_string()));
}

#[test]
fn generation_schedule_steps() {
    let mut s = GenerationSchedule::new(5, 3);
    assert!(s.should_continue() && s.feeds_whole_prompt());
    assert_eq!(s.position_offset(), 0);
    s.record(42, 2);
    assert!(!s.feeds_whole_prompt());
    assert_eq!(s.position_offset(), 5);
    s.record(43, 2);
    assert_eq!(s.position_offset(), 6);
    s.record(2, 2);
    assert!(!s.should_continue());
}

#[test]
fn generation_stops_at_max() {
    let mut s = GenerationSchedule::new(1, 1);
    s.record(9, 2);
    assert!(!s.should_continue());
}

#[test]
fn garbage_bytes_are_not_a_pdf() {
    let e = PdfExtractor::new();
    match e.extract("x.pdf", b"this is not a pdf", Err("not a pdf".to_string())) {
        Err(err @ PdfError::OpenError(_)) => assert!(err.message().starts_with("Failed to open PDF file: ")),
        other => panic!("unexpected: {:?}", other.map(|c| c.text)),
    }
}

#[test]
fn extract_multiple_skips_or_stops() {
    let e = PdfExtractor::default();
    let sources = || {
        vec![
            PdfSource {
                path: "a.pdf".to_string(),
                bytes: Err(std::io::Error::new(std::io::ErrorKind::NotFound, "gone")),
                page_texts: Err("unread".to_string()),
            },
            PdfSource { path: "b.pdf".to_string(), bytes: Ok(b"junk".to_vec()), page_texts: Err("junk".to_string()) },
        ]
    };
    assert!(e.extract_multiple(sources(), true).unwrap().is_empty());
    match e.extract_multiple(sources(), false) {
        Err(f @ ExtractFailure::Unreadable(..)) => assert_eq!(f.message(), "Failed to read PDF file: \"a.pdf\""),
        other => panic!("unexpected: {:?}", other.map(|v| v.len())),
    }
    let only_junk = vec![PdfSource { path: "b.pdf".to_string(), bytes: Ok(b"junk".to_vec()), page_texts: Err("junk".to_string()) }];
    assert!(matches!(e.extract_multiple(only_junk, false), Err(ExtractFailure::Pdf(PdfError::OpenError(_)))));
}

#[test]
fn clean_text_examples() {
    let e = PdfExtractor::new();
    assert_eq!(e.clean_text("  a\tb  \n \n c\u{7}d  "), "a b \n\ncd");
    assert_eq!(e.clean_text(""), "");
}

#[test]
fn error_context_wraps_messages() {
    let r: Result<(), AppError> = Err(AppError::Config("bad".to_string()));
    match r.with_context(|| "loading".to_string()) {
        Err(AppError::Other(m)) => assert_eq!(m, "loading: Configuration error: bad"),
        other => panic!("unexpected: {:?}", other),
    }
    let ok: Result<u8, AppError> = Ok(3);
    assert_eq!(ok.with_context(|| "unused".to_string()).unwrap(), 3);
}

#[test]
fn pdf_error_becomes_app_error() {
    let app: AppError = PdfError::EmptyPdf.into();
    assert_eq!(app.message(), "PDF error: PDF file is empty or contains no extractable text");
}

#[test]
fn download_plan_refuses_empty_listing() {
    let only_readme = vec![RemoteFile { filename: "README.md".to_string(), size: Some(1) }];
    assert_eq!(download_plan("a/b", &only_readme), Err("No downloadable files found for model: a/b".to_string()));
    let with_config = vec![RemoteFile { filename: "config.json".to_string(), size: None }];
    assert_eq!(download_plan("a/b", &with_config), Ok(vec![("config.json".to_string(), 0)]));
}

#[test]
fn model_dims_from_config_text() {
    let text = r#"{"hidden_size": 2048, "num_attention_heads": 32, "num_key_value_heads": 4,
                   "tie_word_embeddings": true, "vocab_size": 32000, "rope_theta": 10000.0}"#;
    let d = ModelDims::from_config_json(text).unwrap();
    assert_eq!(d.hidden_size, 2048);
    assert_eq!(d.vocab_size, 32000);
    assert_eq!(d.num_key_value_heads, 4);
    assert!(d.tie_word_embeddings);
    // members that are absent keep the LLaMA 3 8B values
    assert_eq!(d.intermediate_size, 14336);
    assert_eq!(d.max_position_embeddings, 8192);
    assert_eq!(d.eos_token_id, 128001);
    assert_eq!(d.compute_head_dim(), 64);
    assert_eq!(d.kv_heads_ratio(), 8);
    assert_eq!(ModelDims::from_config_json("{}").unwrap(), ModelDims::llama3_8b());
    assert!(ModelDims::from_config_json("not json").is_err());
    assert_eq!(ModelDims::llama3_70b().num_hidden_layers, 80);
}

#[test]
fn bpe_with_dropout_is_reported_as_sampling() {
    let json = r#"{
  "version": "1.0", "truncation": null, "padding": null, "added_tokens": [],
  "normalizer": null, "pre_tokenizer": null, "post_processor": null, "decoder": null,
  "model": {"type": "BPE", "dropout": 0.5, "unk_token": null, "continuing_subword_prefix": null,
            "end_of_word_suffix": null, "fuse_unk": false, "byte_fallback": false,
            "vocab": {"a": 0, "b": 1, "ab": 2}, "merges": [["a", "b"]]}
}"#;
    let t = Tokenizer::from_json(json, None).unwrap();
    assert!(t.samples_when_encoding());
}

#[test]
fn download_keeps_existing_and_fetches_missing() {
    let sizes = [10u64, 7];
    let (s, a) = download_begin(2);
    assert_eq!((s, a), (DownloadState::Checking(0), DownloadAction::CheckExisting(0)));
    // file 0 is on disk with its listed size: kept
    let (s, a) = download_next(&sizes, s, DownloadEvent::Existing(Some(10)));
    assert_eq!((s, a), (DownloadState::Checking(1), DownloadAction::CheckExisting(1)));
    // file 1 is on disk but truncated: fetched again
    let (s, a) = download_next(&sizes, s, DownloadEvent::Existing(Some(3)));
    assert_eq!((s, a), (DownloadState::Fetching(1), DownloadAction::Fetch(1)));
    let (s, a) = download_next(&sizes, s, DownloadEvent::Fetched);
    assert_eq!((s, a), (DownloadState::Finished, DownloadAction::Finish));
    assert_eq!(download_begin(0).1, DownloadAction::Finish);
}

#[test]
fn download_failure_removes_partial_file() {
    let sizes = [1u64, 2, 3];
    let (s, a) = download_next(&sizes, DownloadState::Checking(1), DownloadEvent::Existing(None));
    assert_eq!(a, DownloadAction::Fetch(1));
    let (s, a) = download_next(&sizes, s, DownloadEvent::FetchFailed);
    assert_eq!((s, a), (DownloadState::Failed, DownloadAction::RemovePartial(1)));
    assert_eq!(download_next(&sizes, s, DownloadEvent::Fetched).1, DownloadAction::Fail);
}

/// Float formatting of the same sizes, for comparison.
fn float_size_text(bytes: u64) -> String {
    const KB: u64 = 1024;
    const MB: u64 = KB * 1024;
    const GB: u64 = MB * 1024;
    if bytes >= GB {
        format!("{:.2} GB", bytes as f64 / GB as f64)
    } else if bytes >= MB {
        format!("{:.2} MB", bytes as f64 / MB as f64)
    } else if bytes >= KB {
        format!("{:.2} KB", bytes as f64 / KB as f64)
    } else {
        format!("{} bytes", bytes)
    }
}

#[test]
fn size_text_matches_float_formatting() {
    let mut samples: Vec<u64> = (0..5000).collect();
    // exact ties of the second decimal: 1600 / 1024 = 1.5625
    samples.extend([1600, 3 * 1600, 1600 * 1024, 1600 * 1024 * 1024, 25 * 1024 * 1024 * 1024 / 64 * 3]);
    let mut x: u64 = 1;
    for _ in 0..4000 {
        x = x.wrapping_mul(6364136223846793005).wrapping_add(1442695040888963407);
        samples.push(x >> (x % 61));
        samples.push(x);
    }
    samples.extend([u64::MAX, u64::MAX - 1, (1 << 53) + 1, (1 << 63) + 12345]);
    for n in samples {
        assert_eq!(format_size(n), float_size_text(n), "bytes = {}", n);
        if n <= usize::MAX as u64 {
            assert_eq!(pdf_summarizer::output::format_bytes(n as usize), float_size_text(n), "bytes = {}", n);
        }
    }
}

#[test]
fn token_estimate_matches_float_computation() {
    let mut samples: Vec<usize> = (0..10000).collect();
    let mut x: u64 = 7;
    for _ in 0..4000 {
        x = x.wrapping_mul(6364136223846793005).wrapping_add(1442695040888963407);
        samples.push((x >> (x % 61)) as usize);
    }
    samples.extend([usize::MAX, usize::MAX / 3 * 2, (1 << 53) + 1]);
    for w in samples {
        let expected = (w as f64 * 1.5).ceil() as usize;
        assert_eq!(estimate_tokens_for_words(w), expected, "words = {}", w);
    }
}

#[test]
fn validation_summary_matches_float_formatting() {
    let mut x: u64 = 99;
    for i in 0..3000u64 {
        x = x.wrapping_mul(6364136223846793005).wrapping_add(1442695040888963407);
        let total = if i % 2 == 0 { x >> (x % 64) } else { i * 1_048_576 + 5 };
        let r = ValidationResult {
            is_valid: true,
            files_present: vec![],
            files_missing: vec![],
            weight_files: vec!["a.safetensors".to_string(), "b.safetensors".to_string()],
            model_type: None,
            total_size: total,
            errors: vec![],
            warnings: vec![],
        };
        let expected = format!(
            "Valid model with {} weight files ({:.2} GB)",
            r.weight_files.len(),
            r.total_size as f64 / (1024.0 * 1024.0 * 1024.0)
        );
        assert_eq!(r.summary(), expected, "total = {}", total);
    }
    let bad = ValidationResult {
        is_valid: false,
        errors: vec!["x".to_string(), "y".to_string()],
        ..Default::default()
    };
    assert_eq!(bad.summary(), "Invalid model: 2 errors");
    assert!(!bad.is_ok());
}

#[test]
fn acquisition_ends_within_five_steps() {
    // every validation fails and the download succeeds: the longest path
    let mut state = Acquisition::Start;
    let mut event = AcquisitionEvent::Begin { model_path: None, model_path_exists: false, hf_token_present: false };
    let mut steps = 0;
    loop {
        let (s, a) = acquisition_next(state, event);
        steps += 1;
        state = s;
        event = match a {
            AcquisitionAction::Validate { .. } => AcquisitionEvent::ValidationFailed { message: "bad".to_string() },
            AcquisitionAction::LocateCache { .. } => AcquisitionEvent::CacheLocated { path: "/c".to_string(), exists: true },
            AcquisitionAction::Download { .. } => AcquisitionEvent::Downloaded,
            AcquisitionAction::Finish { .. } | AcquisitionAction::Fail { .. } => break,
        };
    }
    assert_eq!(steps, 5);
    assert!(matches!(state, Acquisition::Failed));
}

#[test]
fn download_ends_within_two_steps_per_file() {
    let count = 4;
    let (mut state, mut action) = download_begin(count);
    let mut steps = 0;
    loop {
        let event = match action {
            DownloadAction::CheckExisting(_) => DownloadEvent::Existing(None),
            DownloadAction::Fetch(_) => DownloadEvent::Fetched,
            _ => break,
        };
        let (s, a) = download_next(&[5, 5, 5, 5], state, event);
        state = s;
        action = a;
        steps += 1;
    }
    assert_eq!(steps, 2 * count);
    assert_eq!(action, DownloadAction::Finish);
}

#[test]
fn validator_refuses_empty_required_file() {
    let config = r#"{"hidden_size": 1}"#;
    let snap = ModelDirSnapshot {
        path: "/m".to_string(),
        exists: true,
        is_dir: true,
        required: vec![Some(Ok(config.len() as u64)), Some(Ok(0))],
        optional: vec![true, true, true],
        entries: Ok(vec![EntryInfo { name: Some("w.safetensors".to_string()), metadata: Ok(EntryMeta { is_file: true, len: 8 }) }]),
        config_text: Some(Ok(config.to_string())),
        tokenizer_text: Some(Ok(String::new())),
    };
    match ModelValidator::new().validate(snap) {
        Err(ValidationError::TokenizerInvalid(_)) => {}
        other => panic!("unexpected: {:?}", other),
    }
    let snap = ModelDirSnapshot {
        path: "/m".to_string(),
        exists: true,
        is_dir: true,
        required: vec![Some(Ok(config.len() as u64)), Some(Ok(0))],
        optional: vec![true, true, true],
        entries: Ok(vec![EntryInfo { name: Some("w.safetensors".to_string()), metadata: Ok(EntryMeta { is_file: true, len: 8 }) }]),
        config_text: Some(Ok(config.to_string())),
        tokenizer_text: Some(Ok("{}".to_string())),
    };
    match ModelValidator::new().validate(snap) {
        Err(ValidationError::Invalid(errors)) => assert_eq!(errors, vec!["Required file is empty: tokenizer.json".to_string()]),
        other => panic!("unexpected: {:?}", other),
    }
}

fn name(s: &str) -> Object {
    Object::Name(s.as_bytes().to_vec())
}

/// A one-page PDF saying "Hello World", with an `Info` dictionary.
fn small_pdf(title: &str) -> Vec<u8> {
    pdf_with_pages(title, 1)
}

/// A PDF of `n` pages, each saying "Hello World", with an `Info` dictionary.
fn pdf_with_pages(title: &str, n: usize) -> Vec<u8> {
    let mut doc = Document::with_version("1.5");
    let pages_id = doc.new_object_id();
    let mut font = Dictionary::new();
    font.set("Type", name("Font"));
    font.set("Subtype", name("Type1"));
    font.set("BaseFont", name("Courier"));
    let font_id = doc.add_object(font);
    let mut fonts = Dictionary::new();
    fonts.set("F1", font_id);
    let mut resources = Dictionary::new();
    resources.set("Font", fonts);
    let resources_id = doc.add_object(resources);
    let content = Content {
        operations: vec![
            Operation::new("BT", vec![]),
            Operation::new("Tf", vec![name("F1"), 24.into()]),
            Operation::new("Td", vec![100.into(), 600.into()]),
            Operation::new("Tj", vec![Object::string_literal("Hello World")]),
            Operation::new("ET", vec![]),
        ],
    };
    let content_id = doc.add_object(Stream::new(Dictionary::new(), content.encode().unwrap()));
    let mut page = Dictionary::new();
    page.set("Type", name("Page"));
    page.set("Parent", pages_id);
    page.set("Contents", content_id);
    let kids: Vec<Object> = (0..n).map(|_| Object::from(doc.add_object(page.clone()))).collect();
    let mut pages = Dictionary::new();
    pages.set("Type", name("Pages"));
    pages.set("Kids", kids);
    pages.set("Count", n as i64);
    pages.set("Resources", resources_id);
    pages.set("MediaBox", vec![Object::from(0), 0.into(), 595.into(), 842.into()]);
    doc.objects.insert(pages_id, Object::Dictionary(pages));
    let mut catalog = Dictionary::new();
    catalog.set("Type", name("Catalog"));
    catalog.set("Pages", pages_id);
    let catalog_id = doc.add_object(catalog);
    let mut info = Dictionary::new();
    info.set("Title", Object::string_literal(title));
    info.set("Author", Object::string_literal("Ann"));
    info.set("Subject", 7);
    let info_id = doc.add_object(info);
    doc.trailer.set("Root", catalog_id);
    doc.trailer.set("Info", info_id);
    let mut bytes = Vec::new();
    doc.save_to(&mut bytes).unwrap();
    bytes
}

#[test]
fn extract_reads_text_pages_and_metadata() {
    let bytes = small_pdf("Quarterly Report");
    let pages = pdf_extract::extract_text_from_mem_by_pages(&bytes).map_err(|e| e.to_string());
    let content = PdfExtractor::new().extract("report.pdf", &bytes, pages).unwrap();
    assert_eq!(content.source_path, "report.pdf");
    assert_eq!(content.page_count, 1);
    assert!(content.text.contains("Hello World"));
    let m = content.metadata.unwrap();
    assert_eq!(m.title, Some("Quarterly Report".to_string()));
    assert_eq!(m.author, Some("Ann".to_string()));
    // a number is not a string; an absent entry is absent
    assert_eq!(m.subject, None);
    assert_eq!(m.creator, None);
}

#[test]
fn extract_keeps_only_the_first_pages() {
    let bytes = pdf_with_pages("Pages", 3);
    let pages = || Ok(vec!["first page".to_string(), "second page".to_string(), "third".to_string()]);
    let all = PdfExtractor::new().extract("p.pdf", &bytes, pages()).unwrap();
    assert_eq!(all.page_count, 3);
    assert_eq!(all.text, "first page\nsecond page\nthird");
    let two = PdfExtractor::new().with_max_pages(2).extract("p.pdf", &bytes, pages()).unwrap();
    assert_eq!(two.text, "first page\nsecond page");
    let many = PdfExtractor::new().with_max_pages(9).extract("p.pdf", &bytes, pages()).unwrap();
    assert_eq!(many.text, all.text);
    let blank = PdfExtractor::new().with_max_pages(1).extract("p.pdf", &bytes, Ok(vec![" \n".to_string(), "x".to_string(), "y".to_string()]));
    assert!(matches!(blank, Err(PdfError::EmptyPdf)));
    let failed = PdfExtractor::new().extract("p.pdf", &bytes, Err("bad stream".to_string()));
    assert!(matches!(failed, Err(PdfError::ExtractionError(ref m)) if m == "bad stream"));
    // extraction stopped after the first page: only the first page may be asked for
    let short = PdfExtractor::new().extract("p.pdf", &bytes, Ok(vec!["first page".to_string()]));
    match short {
        Err(e @ PdfError::ExtractionError(_)) => {
            assert_eq!(e.message(), "Failed to extract text from PDF: page 2 of the document could not be extracted")
        }
        other => panic!("unexpected: {:?}", other.map(|c| c.text)),
    }
    let one = PdfExtractor::new().with_max_pages(1).extract("p.pdf", &bytes, Ok(vec!["first page".to_string()])).unwrap();
    assert_eq!(one.text, "first page");
}

#[test]
fn pages_are_extracted_with_a_line_break_between() {
    let bytes = pdf_with_pages("Two", 2);
    let pages = pdf_extract::extract_text_from_mem_by_pages(&bytes).map_err(|e| e.to_string());
    let content = PdfExtractor::new().extract("two.pdf", &bytes, pages).unwrap();
    assert_eq!(content.page_count, 2);
    assert_eq!(content.text.matches("Hello World").count(), 2);
    assert!(!content.text.contains("WorldHello"));
}

#[test]
fn acquisition_finishes_with_the_located_cache_path() {
    let (s, _) = acquisition_next(
        Acquisition::Start,
        AcquisitionEvent::Begin { model_path: None, model_path_exists: false, hf_token_present: true },
    );
    let (s, a) = acquisition_next(s, AcquisitionEvent::CacheLocated { path: "/cache/m".to_string(), exists: false });
    assert!(matches!(a, AcquisitionAction::Download { model_id, .. } if model_id == GATED_MODEL_ID));
    let (s, _) = acquisition_next(s, AcquisitionEvent::Downloaded);
    let (_, a) = acquisition_next(s, AcquisitionEvent::ValidationPassed);
    assert!(matches!(a, AcquisitionAction::Finish { ref path } if path == "/cache/m"));
}

/// A safetensors buffer: an F32 vector `w` of 2, an I32 `v` of 1, an F16
/// `m` of shape [1, 1, 1] and a BF16 matrix `b` of shape [1, 2].
fn safetensors_buffer() -> Vec<u8> {
    let header = r#"{"w":{"dtype":"F32","shape":[2],"data_offsets":[0,8]},"v":{"dtype":"I32","shape":[1],"data_offsets":[8,12]},"m":{"dtype":"F16","shape":[1,1,1],"data_offsets":[12,14]},"b":{"dtype":"BF16","shape":[1,2],"data_offsets":[14,18]}}"#;
    let mut bytes = (header.len() as u64).to_le_bytes().to_vec();
    bytes.extend_from_slice(header.as_bytes());
    bytes.extend_from_slice(&1.5f32.to_le_bytes());
    bytes.extend_from_slice(&(-2.0f32).to_le_bytes());
    bytes.extend_from_slice(&7i32.to_le_bytes());
    bytes.extend_from_slice(&[0, 60]);
    bytes.extend_from_slice(&[1, 2, 3, 4]);
    bytes
}

#[test]
fn stored_weights_and_their_errors() {
    let bytes = safetensors_buffer();
    let (dtype, rows, cols, data) = stored_weight(&bytes, "w").unwrap();
    assert_eq!((dtype, rows, cols), (StoredDtype::F32, 2, 1));
    assert_eq!(data.len(), 8);
    assert_eq!(f32::from_le_bytes([data[0], data[1], data[2], data[3]]), 1.5);
    let (dtype, rows, cols, data) = stored_weight(&bytes, "b").unwrap();
    assert_eq!((dtype, rows, cols, data), (StoredDtype::BF16, 1, 2, vec![1, 2, 3, 4]));
    assert_eq!(stored_weight(&bytes, "v"), Err("Unsupported dtype: I32".to_string()));
    assert_eq!(stored_weight(&bytes, "m"), Err("Unsupported tensor rank: 3".to_string()));
    assert!(stored_weight(&bytes, "absent").is_err());
    assert!(stored_weight(b"not safetensors", "w").is_err());
    let mut names = stored_weight_names(&bytes).unwrap();
    names.sort();
    assert_eq!(names, vec!["b", "m", "v", "w"]);
}

#[test]
fn weight_files_are_looked_up_by_name() {
    let index = vec![
        ("a".to_string(), "one.safetensors".to_string()),
        ("b".to_string(), "one.safetensors".to_string()),
        ("a".to_string(), "two.safetensors".to_string()),
    ];
    assert_eq!(find_weight_file(&index, "a"), Ok("two.safetensors".to_string()));
    assert_eq!(find_weight_file(&index, "b"), Ok("one.safetensors".to_string()));
    assert_eq!(find_weight_file(&index, "c"), Err("Weight not found: c".to_string()));
}

#[test]
fn mask_of_padded_tokens_counts_the_tokens() {
    let t = Tokenizer::from_json(WORD_LEVEL_JSON, Some((1, 2, 9))).unwrap();
    for pad_left in [false, true] {
        let padded = t.pad(vec![4, 5, 6], 7, pad_left);
        let m = t.create_attention_mask(&padded);
        assert_eq!(m.len(), padded.len());
        assert_eq!(m.iter().sum::<u32>(), 3);
    }
}

#[test]
fn cache_dir_prefers_home_then_local_data() {
    assert_eq!(
        cache_dir_from(Some("/home/ann".to_string()), Some("/data".to_string())),
        Ok("/home/ann/.pdf_summarizer/models".to_string())
    );
    assert_eq!(
        cache_dir_from(None, Some("/data".to_string())),
        Ok("/data/.pdf_summarizer/models".to_string())
    );
    assert_eq!(
        cache_dir_from(None, None),
        Err("Could not determine home directory".to_string())
    );
}

#[test]
fn total_size_sums_file_sizes() {
    let cache = ModelCache::new("/cache".to_string());
    assert_eq!(cache.total_size(&[]), Some(0));
    assert_eq!(cache.total_size(&[10, 20, 12]), Some(42));
    assert_eq!(cache.total_size(&[u64::MAX, 0]), Some(u64::MAX));
    assert_eq!(cache.total_size(&[u64::MAX, 1]), None);
}

#[test]
fn stored_entries_become_two_dimensional_weights() {
    let w = weight_from_entry("F16".to_string(), vec![3], vec![1, 2, 3, 4, 5, 6]).unwrap();
    assert_eq!(w, (StoredDtype::F16, 3, 1, vec![1, 2, 3, 4, 5, 6]));
    let w = weight_from_entry("BF16".to_string(), vec![2, 4], vec![0; 16]).unwrap();
    assert_eq!((w.0, w.1, w.2), (StoredDtype::BF16, 2, 4));
    assert_eq!(weight_from_entry("I64".to_string(), vec![1], vec![0; 8]), Err("Unsupported dtype: I64".to_string()));
    assert_eq!(weight_from_entry("F32".to_string(), vec![1, 1, 1], vec![0; 4]), Err("Unsupported tensor rank: 3".to_string()));
}

#[test]
fn anyhow_errors_become_generic_errors() {
    let e = anyhow::Error::msg("disk full").context("saving summary");
    match AppError::from(e) {
        AppError::Other(m) => assert_eq!(m, "saving summary"),
        other => panic!("unexpected: {:?}", other),
    }
    match AppError::from(anyhow::Error::msg("boom")) {
        AppError::Other(m) => assert_eq!(m, "boom"),
        other => panic!("unexpected: {:?}", other),
    }
}
