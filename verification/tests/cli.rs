use autoresearch_rs::cli::{
    parse_autoresearch_args, parse_prepare_args, parse_report_args, parse_train_args, ArgError,
    ConfigError, Parsed,
};
use autoresearch_rs::numbers::IntErrorKind;
use autoresearch_rs::DEFAULT_CORPUS_URL;

fn args(v: &[&str]) -> Vec<String> {
    v.iter().map(|s| s.to_string()).collect()
}

fn floats(a: &[String]) -> Vec<bool> {
    a.iter().map(|s| s.parse::<f64>().is_ok()).collect()
}

#[test]
fn report_defaults_and_flag() {
    assert_eq!(parse_report_args(&args(&[])), Ok(Parsed::Run("runs".to_string())));
    assert_eq!(
        parse_report_args(&args(&["--runs-dir", "a", "--runs-dir", "b"])),
        Ok(Parsed::Run("b".to_string()))
    );
    assert_eq!(parse_report_args(&args(&["-h", "--bogus"])), Ok(Parsed::Help));
    assert_eq!(
        parse_report_args(&args(&["--bogus", "-h"])),
        Err(ArgError::UnknownArgument(0))
    );
    assert_eq!(parse_report_args(&args(&["--runs-dir"])), Err(ArgError::MissingValue(0)));
}

#[test]
fn prepare_options() {
    let a = args(&["--val-fraction", "0.2", "--force-download", "--artifacts-dir", "art"]);
    match parse_prepare_args(&a, &floats(&a)).unwrap() {
        Parsed::Run(o) => {
            assert_eq!(o.artifacts_dir, "art");
            assert_eq!(o.corpus_url, DEFAULT_CORPUS_URL);
            assert_eq!(o.val_fraction, Some("0.2".to_string()));
            assert!(o.force_download);
        }
        Parsed::Help => panic!("unexpected help"),
    }
    let a = args(&["--val-fraction", "abc"]);
    assert_eq!(parse_prepare_args(&a, &floats(&a)), Err(ArgError::InvalidFloat(1)));
    let a = args(&["--corpus-url"]);
    assert_eq!(parse_prepare_args(&a, &floats(&a)), Err(ArgError::MissingValue(0)));
}

#[test]
fn autoresearch_options() {
    let a = args(&[]);
    match parse_autoresearch_args(&a, &floats(&a)).unwrap() {
        Parsed::Run(o) => {
            assert_eq!(o.experiments, 10);
            assert_eq!(o.time_budget_seconds, 300);
            assert_eq!(o.base_batch_size, 32);
            assert_eq!(o.base_seq_len, 64);
            assert_eq!(o.base_lr_warmup_steps, 200);
            assert_eq!(o.base_model_dim, 32);
            assert_eq!(o.base_mlp_dim, 64);
            assert_eq!(o.seed, 1337);
            assert_eq!(o.base_learning_rate, None);
        }
        Parsed::Help => panic!("unexpected help"),
    }
    let a = args(&["--experiments", "3", "--seed", "18446744073709551615", "--base-learning-rate", "0.5"]);
    match parse_autoresearch_args(&a, &floats(&a)).unwrap() {
        Parsed::Run(o) => {
            assert_eq!(o.experiments, 3);
            assert_eq!(o.seed, u64::MAX);
            assert_eq!(o.base_learning_rate, Some("0.5".to_string()));
        }
        Parsed::Help => panic!("unexpected help"),
    }
    let a = args(&["--base-model-dim", "0"]);
    assert_eq!(
        parse_autoresearch_args(&a, &floats(&a)),
        Err(ArgError::Config(ConfigError::ZeroBaseDims))
    );
    let a = args(&["--experiments", "-1"]);
    assert_eq!(
        parse_autoresearch_args(&a, &floats(&a)),
        Err(ArgError::InvalidInteger(IntErrorKind::InvalidDigit))
    );
}

#[test]
fn train_options() {
    let a = args(&["--d-model", "96", "--n-heads", "3", "--lr-final-scale", "0.1", "--mlp-dim", "128"]);
    match parse_train_args(&a, &floats(&a)).unwrap() {
        Parsed::Run(o) => {
            assert_eq!(o.d_model, 96);
            assert_eq!(o.n_heads, 3);
            assert_eq!(o.d_ff, 128);
            assert_eq!(o.lr_min_scale, Some("0.1".to_string()));
            assert_eq!(o.n_layers, 2);
            assert_eq!(o.eval_interval, 250);
            assert_eq!(o.eval_batches, 64);
            assert_eq!(o.description, "tiny GPT (candle, adamw, cosine-warmup schedule)");
        }
        Parsed::Help => panic!("unexpected help"),
    }
    let cases: Vec<(Vec<String>, ConfigError)> = vec![
        (args(&["--n-layers", "0"]), ConfigError::ZeroLayers),
        (args(&["--n-heads", "0"]), ConfigError::ZeroHeads),
        (args(&["--d-ff", "0"]), ConfigError::ZeroWidths),
        (args(&["--model-dim", "65"]), ConfigError::WidthNotDivisible),
    ];
    for (a, e) in cases {
        assert_eq!(parse_train_args(&a, &floats(&a)), Err(ArgError::Config(e)));
    }
    let a = args(&["--seq-len", "99999999999999999999999"]);
    assert_eq!(
        parse_train_args(&a, &floats(&a)),
        Err(ArgError::InvalidInteger(IntErrorKind::PosOverflow))
    );
    let a = args(&["--description", "x", "--help"]);
    assert_eq!(parse_train_args(&a, &floats(&a)), Ok(Parsed::Help));
}
