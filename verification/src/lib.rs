//! Verified core of a small autonomous language-model research sandbox:
//! a character tokenizer, the on-disk artifact formats, a xorshift random
//! number generator with batch sampling, train/validation splitting,
//! results bookkeeping and the command-line option grammars.

pub mod rng;
pub mod text;
pub mod tokenizer;
pub mod numbers;
pub mod tokenizer_file;
pub mod token_file;
pub mod kv;
pub mod split;
pub mod results;
pub mod run_id;
pub mod cli;
pub mod cli_laws;
pub mod cli_train_laws;

pub use cli::{DEFAULT_BATCH_SIZE, DEFAULT_CORPUS_URL, DEFAULT_SEQ_LEN, DEFAULT_TIME_BUDGET_SECONDS};
pub use rng::{sample_batch, SimpleRng};
pub use run_id::timestamp_run_id;
pub use tokenizer::{CharTokenizer, TokenizerArtifacts, TokenizerError};
