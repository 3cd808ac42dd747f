# pdf_summarizer

A command-line tool that extracts the text of PDF files and summarizes it
with a LLaMA model. The library in `src/` is written in Verus: each public
function states what it returns in its `requires` / `ensures`, and Verus
proves the bodies against those contracts.

## Layout

- `src/` — the verified library
  - `cli` — argument checks, choice of the PDF files, log level
  - `pdf` — document loading and metadata through `lopdf`, page selection
    and text clean-up of the page texts that `pdf-extract` gives
  - `pipeline` — token budgets, prompt fitting, chunking, summary merging
  - `tokenizer` — `tokenizers`-backed tokenizer, token vectors, chat prompts
  - `model_manager` — cache paths, model directory validation, download
    planning, and the state machines that settle on a model and download it
  - `llm` — model hyperparameters, weight names, stored weights read through
    `safetensors`, the generation schedule
  - `output` — plain-text and Markdown rendering, paths' file names
  - `json`, `text`, `numfmt`, `paths`, `error` — shared building blocks
- `tests/` — unit tests, scenario tests, and differential tests that run the
  library against std's string and path functions on generated inputs
- `app/` — the executable: command line (clap), file and network I/O
  (reqwest, tokio, walkdir), page text extraction with `pdf-extract` (which
  may panic on malformed content), progress bars, logging, and the Burn model
  code, which works on floating point

## Trust

Calls into outside crates go through small `#[verifier::external_body]`
wrappers whose doc comments say what is assumed of them. Results that are
too large to state (what a tokenizer encodes, what a PDF holds) are named by
uninterpreted spec functions of the call's arguments, and the library's
contracts are stated over those names.
