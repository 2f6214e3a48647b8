use vstd::prelude::*;

use crate::cli::{
    scan_args, train_defaults, train_fields, train_scan, train_table, unset_slots, ArgError, Flag,
    FlagKind, ScanOutcome, SlotView, TrainModel,
};
use crate::cli_laws::{lemma_scan_append_flag, lemma_scan_append_value, lemma_train_table};
use crate::numbers::{parse_unsigned_spec, IntErrorKind};

verus! {

/// With no arguments every `train` option has its default.
pub proof fn law_train_defaults()
    ensures
        train_scan(seq![], seq![]) == Some(
            (TrainModel {
                artifacts_dir: "artifacts"@,
                runs_dir: "runs"@,
                time_budget_seconds: 300,
                batch_size: 32,
                seq_len: 64,
                learning_rate: None,
                lr_warmup_steps: 200,
                lr_min_scale: None,
                grad_clip_norm: None,
                n_layers: 2,
                n_heads: 4,
                d_model: 64,
                d_ff: 256,
                dropout: None,
                weight_decay: None,
                eval_interval: 250,
                eval_batches: 64,
                seed: 1337,
                description: "tiny GPT (candle, adamw, cosine-warmup schedule)"@,
            }),
        ),
{
    reveal(scan_args);
    assert(train_fields(unset_slots(19)) == train_defaults());
}

/// `--artifacts-dir T` given last sets `artifacts_dir` to `T` and leaves every
/// other `train` option as it was.
pub proof fn law_train_artifacts_dir(
    args: Seq<Seq<char>>,
    ok: Seq<bool>,
    value: Seq<char>,
    b1: bool,
    b2: bool,
)
    requires
        ok.len() == args.len(),
        train_scan(args, ok) is Some,
    ensures
        train_scan(args + seq!["--artifacts-dir"@, value], ok + seq![b1, b2]) == Some(
            TrainModel { artifacts_dir: value, ..train_scan(args, ok)->0 },
        ),
{
    let t = train_table();
    let u = unset_slots(19);
    let s = scan_args(t, args, ok, 0, u)->Ok_0->Done_0;
    lemma_train_table();
    lemma_scan_append_value(t, args, ok, u, s, 0, value, b1, b2);
    assert(t[0] == Flag { name: "--artifacts-dir", field: 0, kind: FlagKind::Text });
    let s2 = s.update(0, SlotView::Text(value));
    assert(train_fields(s2) == TrainModel { artifacts_dir: value, ..train_fields(s) });
}

/// `--runs-dir T` given last sets `runs_dir` to `T` and leaves every other
/// `train` option as it was.
pub proof fn law_train_runs_dir(
    args: Seq<Seq<char>>,
    ok: Seq<bool>,
    value: Seq<char>,
    b1: bool,
    b2: bool,
)
    requires
        ok.len() == args.len(),
        train_scan(args, ok) is Some,
    ensures
        train_scan(args + seq!["--runs-dir"@, value], ok + seq![b1, b2]) == Some(
            TrainModel { runs_dir: value, ..train_scan(args, ok)->0 },
        ),
{
    let t = train_table();
    let u = unset_slots(19);
    let s = scan_args(t, args, ok, 0, u)->Ok_0->Done_0;
    lemma_train_table();
    lemma_scan_append_value(t, args, ok, u, s, 1, value, b1, b2);
    assert(t[1] == Flag { name: "--runs-dir", field: 1, kind: FlagKind::Text });
    let s2 = s.update(1, SlotView::Text(value));
    assert(train_fields(s2) == TrainModel { runs_dir: value, ..train_fields(s) });
}

/// `--time-budget-seconds N` given last sets `time_budget_seconds` to `N` and
/// leaves every other `train` option as it was.
pub proof fn law_train_time_budget_seconds(
    args: Seq<Seq<char>>,
    ok: Seq<bool>,
    value: Seq<char>,
    b1: bool,
    b2: bool,
    n: nat,
)
    requires
        ok.len() == args.len(),
        train_scan(args, ok) is Some,
        parse_unsigned_spec(value, u64::MAX as nat) == Ok::<nat, IntErrorKind>(n),
    ensures
        train_scan(args + seq!["--time-budget-seconds"@, value], ok + seq![b1, b2]) == Some(
            TrainModel { time_budget_seconds: n, ..train_scan(args, ok)->0 },
        ),
{
    let t = train_table();
    let u = unset_slots(19);
    let s = scan_args(t, args, ok, 0, u)->Ok_0->Done_0;
    lemma_train_table();
    lemma_scan_append_value(t, args, ok, u, s, 2, value, b1, b2);
    assert(t[2] == Flag { name: "--time-budget-seconds", field: 2, kind: FlagKind::Int });
    let s2 = s.update(2, SlotView::Int(n));
    assert(train_fields(s2) == TrainModel { time_budget_seconds: n, ..train_fields(s) });
}

/// `--batch-size N` given last sets `batch_size` to `N` and leaves every other
/// `train` option as it was.
pub proof fn law_train_batch_size(
    args: Seq<Seq<char>>,
    ok: Seq<bool>,
    value: Seq<char>,
    b1: bool,
    b2: bool,
    n: nat,
)
    requires
        ok.len() == args.len(),
        train_scan(args, ok) is Some,
        parse_unsigned_spec(value, usize::MAX as nat) == Ok::<nat, IntErrorKind>(n),
    ensures
        train_scan(args + seq!["--batch-size"@, value], ok + seq![b1, b2]) == Some(
            TrainModel { batch_size: n, ..train_scan(args, ok)->0 },
        ),
{
    let t = train_table();
    let u = unset_slots(19);
    let s = scan_args(t, args, ok, 0, u)->Ok_0->Done_0;
    lemma_train_table();
    lemma_scan_append_value(t, args, ok, u, s, 3, value, b1, b2);
    assert(t[3] == Flag { name: "--batch-size", field: 3, kind: FlagKind::Count });
    let s2 = s.update(3, SlotView::Count(n));
    assert(train_fields(s2) == TrainModel { batch_size: n, ..train_fields(s) });
}

/// `--seq-len N` given last sets `seq_len` to `N` and leaves every other
/// `train` option as it was.
pub proof fn law_train_seq_len(
    args: Seq<Seq<char>>,
    ok: Seq<bool>,
    value: Seq<char>,
    b1: bool,
    b2: bool,
    n: nat,
)
    requires
        ok.len() == args.len(),
        train_scan(args, ok) is Some,
        parse_unsigned_spec(value, usize::MAX as nat) == Ok::<nat, IntErrorKind>(n),
    ensures
        train_scan(args + seq!["--seq-len"@, value], ok + seq![b1, b2]) == Some(
            TrainModel { seq_len: n, ..train_scan(args, ok)->0 },
        ),
{
    let t = train_table();
    let u = unset_slots(19);
    let s = scan_args(t, args, ok, 0, u)->Ok_0->Done_0;
    lemma_train_table();
    lemma_scan_append_value(t, args, ok, u, s, 4, value, b1, b2);
    assert(t[4] == Flag { name: "--seq-len", field: 4, kind: FlagKind::Count });
    let s2 = s.update(4, SlotView::Count(n));
    assert(train_fields(s2) == TrainModel { seq_len: n, ..train_fields(s) });
}

/// `--learning-rate X` given last, `X` a floating-point number, sets
/// `learning_rate` to `X` and leaves every other `train` option as it was.
pub proof fn law_train_learning_rate(
    args: Seq<Seq<char>>,
    ok: Seq<bool>,
    value: Seq<char>,
    b1: bool,
    b2: bool,
)
    requires
        ok.len() == args.len(),
        train_scan(args, ok) is Some,
        b2,
    ensures
        train_scan(args + seq!["--learning-rate"@, value], ok + seq![b1, b2]) == Some(
            TrainModel { learning_rate: Some(value), ..train_scan(args, ok)->0 },
        ),
{
    let t = train_table();
    let u = unset_slots(19);
    let s = scan_args(t, args, ok, 0, u)->Ok_0->Done_0;
    lemma_train_table();
    lemma_scan_append_value(t, args, ok, u, s, 5, value, b1, b2);
    assert(t[5] == Flag { name: "--learning-rate", field: 5, kind: FlagKind::Float });
    let s2 = s.update(5, SlotView::Text(value));
    assert(train_fields(s2) == TrainModel { learning_rate: Some(value), ..train_fields(s) });
}

/// `--lr-warmup-steps N` given last sets `lr_warmup_steps` to `N` and leaves
/// every other `train` option as it was.
pub proof fn law_train_lr_warmup_steps(
    args: Seq<Seq<char>>,
    ok: Seq<bool>,
    value: Seq<char>,
    b1: bool,
    b2: bool,
    n: nat,
)
    requires
        ok.len() == args.len(),
        train_scan(args, ok) is Some,
        parse_unsigned_spec(value, u64::MAX as nat) == Ok::<nat, IntErrorKind>(n),
    ensures
        train_scan(args + seq!["--lr-warmup-steps"@, value], ok + seq![b1, b2]) == Some(
            TrainModel { lr_warmup_steps: n, ..train_scan(args, ok)->0 },
        ),
{
    let t = train_table();
    let u = unset_slots(19);
    let s = scan_args(t, args, ok, 0, u)->Ok_0->Done_0;
    lemma_train_table();
    lemma_scan_append_value(t, args, ok, u, s, 6, value, b1, b2);
    assert(t[6] == Flag { name: "--lr-warmup-steps", field: 6, kind: FlagKind::Int });
    let s2 = s.update(6, SlotView::Int(n));
    assert(train_fields(s2) == TrainModel { lr_warmup_steps: n, ..train_fields(s) });
}

/// `--lr-final-scale X` given last, `X` a floating-point number, sets
/// `lr_min_scale` to `X` and leaves every other `train` option as it was.
pub proof fn law_train_lr_final_scale(
    args: Seq<Seq<char>>,
    ok: Seq<bool>,
    value: Seq<char>,
    b1: bool,
    b2: bool,
)
    requires
        ok.len() == args.len(),
        train_scan(args, ok) is Some,
        b2,
    ensures
        train_scan(args + seq!["--lr-final-scale"@, value], ok + seq![b1, b2]) == Some(
            TrainModel { lr_min_scale: Some(value), ..train_scan(args, ok)->0 },
        ),
{
    let t = train_table();
    let u = unset_slots(19);
    let s = scan_args(t, args, ok, 0, u)->Ok_0->Done_0;
    lemma_train_table();
    lemma_scan_append_value(t, args, ok, u, s, 7, value, b1, b2);
    assert(t[7] == Flag { name: "--lr-final-scale", field: 7, kind: FlagKind::Float });
    let s2 = s.update(7, SlotView::Text(value));
    assert(train_fields(s2) == TrainModel { lr_min_scale: Some(value), ..train_fields(s) });
}

/// `--lr-min-scale X` given last, `X` a floating-point number, sets
/// `lr_min_scale` to `X` and leaves every other `train` option as it was.
pub proof fn law_train_lr_min_scale(
    args: Seq<Seq<char>>,
    ok: Seq<bool>,
    value: Seq<char>,
    b1: bool,
    b2: bool,
)
    requires
        ok.len() == args.len(),
        train_scan(args, ok) is Some,
        b2,
    ensures
        train_scan(args + seq!["--lr-min-scale"@, value], ok + seq![b1, b2]) == Some(
            TrainModel { lr_min_scale: Some(value), ..train_scan(args, ok)->0 },
        ),
{
    let t = train_table();
    let u = unset_slots(19);
    let s = scan_args(t, args, ok, 0, u)->Ok_0->Done_0;
    lemma_train_table();
    lemma_scan_append_value(t, args, ok, u, s, 8, value, b1, b2);
    assert(t[8] == Flag { name: "--lr-min-scale", field: 7, kind: FlagKind::Float });
    let s2 = s.update(7, SlotView::Text(value));
    assert(train_fields(s2) == TrainModel { lr_min_scale: Some(value), ..train_fields(s) });
}

/// `--grad-clip-norm X` given last, `X` a floating-point number, sets
/// `grad_clip_norm` to `X` and leaves every other `train` option as it was.
pub proof fn law_train_grad_clip_norm(
    args: Seq<Seq<char>>,
    ok: Seq<bool>,
    value: Seq<char>,
    b1: bool,
    b2: bool,
)
    requires
        ok.len() == args.len(),
        train_scan(args, ok) is Some,
        b2,
    ensures
        train_scan(args + seq!["--grad-clip-norm"@, value], ok + seq![b1, b2]) == Some(
            TrainModel { grad_clip_norm: Some(value), ..train_scan(args, ok)->0 },
        ),
{
    let t = train_table();
    let u = unset_slots(19);
    let s = scan_args(t, args, ok, 0, u)->Ok_0->Done_0;
    lemma_train_table();
    lemma_scan_append_value(t, args, ok, u, s, 9, value, b1, b2);
    assert(t[9] == Flag { name: "--grad-clip-norm", field: 8, kind: FlagKind::Float });
    let s2 = s.update(8, SlotView::Text(value));
    assert(train_fields(s2) == TrainModel { grad_clip_norm: Some(value), ..train_fields(s) });
}

/// `--n-layers N` given last sets `n_layers` to `N` and leaves every other
/// `train` option as it was.
pub proof fn law_train_n_layers(
    args: Seq<Seq<char>>,
    ok: Seq<bool>,
    value: Seq<char>,
    b1: bool,
    b2: bool,
    n: nat,
)
    requires
        ok.len() == args.len(),
        train_scan(args, ok) is Some,
        parse_unsigned_spec(value, usize::MAX as nat) == Ok::<nat, IntErrorKind>(n),
    ensures
        train_scan(args + seq!["--n-layers"@, value], ok + seq![b1, b2]) == Some(
            TrainModel { n_layers: n, ..train_scan(args, ok)->0 },
        ),
{
    let t = train_table();
    let u = unset_slots(19);
    let s = scan_args(t, args, ok, 0, u)->Ok_0->Done_0;
    lemma_train_table();
    lemma_scan_append_value(t, args, ok, u, s, 14, value, b1, b2);
    assert(t[14] == Flag { name: "--n-layers", field: 9, kind: FlagKind::Count });
    let s2 = s.update(9, SlotView::Count(n));
    assert(train_fields(s2) == TrainModel { n_layers: n, ..train_fields(s) });
}

/// `--n-heads N` given last sets `n_heads` to `N` and leaves every other
/// `train` option as it was.
pub proof fn law_train_n_heads(
    args: Seq<Seq<char>>,
    ok: Seq<bool>,
    value: Seq<char>,
    b1: bool,
    b2: bool,
    n: nat,
)
    requires
        ok.len() == args.len(),
        train_scan(args, ok) is Some,
        parse_unsigned_spec(value, usize::MAX as nat) == Ok::<nat, IntErrorKind>(n),
    ensures
        train_scan(args + seq!["--n-heads"@, value], ok + seq![b1, b2]) == Some(
            TrainModel { n_heads: n, ..train_scan(args, ok)->0 },
        ),
{
    let t = train_table();
    let u = unset_slots(19);
    let s = scan_args(t, args, ok, 0, u)->Ok_0->Done_0;
    lemma_train_table();
    lemma_scan_append_value(t, args, ok, u, s, 15, value, b1, b2);
    assert(t[15] == Flag { name: "--n-heads", field: 10, kind: FlagKind::Count });
    let s2 = s.update(10, SlotView::Count(n));
    assert(train_fields(s2) == TrainModel { n_heads: n, ..train_fields(s) });
}

/// `--model-dim N` given last sets `d_model` to `N` and leaves every other
/// `train` option as it was.
pub proof fn law_train_model_dim(
    args: Seq<Seq<char>>,
    ok: Seq<bool>,
    value: Seq<char>,
    b1: bool,
    b2: bool,
    n: nat,
)
    requires
        ok.len() == args.len(),
        train_scan(args, ok) is Some,
        parse_unsigned_spec(value, usize::MAX as nat) == Ok::<nat, IntErrorKind>(n),
    ensures
        train_scan(args + seq!["--model-dim"@, value], ok + seq![b1, b2]) == Some(
            TrainModel { d_model: n, ..train_scan(args, ok)->0 },
        ),
{
    let t = train_table();
    let u = unset_slots(19);
    let s = scan_args(t, args, ok, 0, u)->Ok_0->Done_0;
    lemma_train_table();
    lemma_scan_append_value(t, args, ok, u, s, 10, value, b1, b2);
    assert(t[10] == Flag { name: "--model-dim", field: 11, kind: FlagKind::Count });
    let s2 = s.update(11, SlotView::Count(n));
    assert(train_fields(s2) == TrainModel { d_model: n, ..train_fields(s) });
}

/// `--d-model N` given last sets `d_model` to `N` and leaves every other
/// `train` option as it was.
pub proof fn law_train_d_model(
    args: Seq<Seq<char>>,
    ok: Seq<bool>,
    value: Seq<char>,
    b1: bool,
    b2: bool,
    n: nat,
)
    requires
        ok.len() == args.len(),
        train_scan(args, ok) is Some,
        parse_unsigned_spec(value, usize::MAX as nat) == Ok::<nat, IntErrorKind>(n),
    ensures
        train_scan(args + seq!["--d-model"@, value], ok + seq![b1, b2]) == Some(
            TrainModel { d_model: n, ..train_scan(args, ok)->0 },
        ),
{
    let t = train_table();
    let u = unset_slots(19);
    let s = scan_args(t, args, ok, 0, u)->Ok_0->Done_0;
    lemma_train_table();
    lemma_scan_append_value(t, args, ok, u, s, 11, value, b1, b2);
    assert(t[11] == Flag { name: "--d-model", field: 11, kind: FlagKind::Count });
    let s2 = s.update(11, SlotView::Count(n));
    assert(train_fields(s2) == TrainModel { d_model: n, ..train_fields(s) });
}

/// `--mlp-dim N` given last sets `d_ff` to `N` and leaves every other `train`
/// option as it was.
pub proof fn law_train_mlp_dim(
    args: Seq<Seq<char>>,
    ok: Seq<bool>,
    value: Seq<char>,
    b1: bool,
    b2: bool,
    n: nat,
)
    requires
        ok.len() == args.len(),
        train_scan(args, ok) is Some,
        parse_unsigned_spec(value, usize::MAX as nat) == Ok::<nat, IntErrorKind>(n),
    ensures
        train_scan(args + seq!["--mlp-dim"@, value], ok + seq![b1, b2]) == Some(
            TrainModel { d_ff: n, ..train_scan(args, ok)->0 },
        ),
{
    let t = train_table();
    let u = unset_slots(19);
    let s = scan_args(t, args, ok, 0, u)->Ok_0->Done_0;
    lemma_train_table();
    lemma_scan_append_value(t, args, ok, u, s, 12, value, b1, b2);
    assert(t[12] == Flag { name: "--mlp-dim", field: 12, kind: FlagKind::Count });
    let s2 = s.update(12, SlotView::Count(n));
    assert(train_fields(s2) == TrainModel { d_ff: n, ..train_fields(s) });
}

/// `--d-ff N` given last sets `d_ff` to `N` and leaves every other `train`
/// option as it was.
pub proof fn law_train_d_ff(
    args: Seq<Seq<char>>,
    ok: Seq<bool>,
    value: Seq<char>,
    b1: bool,
    b2: bool,
    n: nat,
)
    requires
        ok.len() == args.len(),
        train_scan(args, ok) is Some,
        parse_unsigned_spec(value, usize::MAX as nat) == Ok::<nat, IntErrorKind>(n),
    ensures
        train_scan(args + seq!["--d-ff"@, value], ok + seq![b1, b2]) == Some(
            TrainModel { d_ff: n, ..train_scan(args, ok)->0 },
        ),
{
    let t = train_table();
    let u = unset_slots(19);
    let s = scan_args(t, args, ok, 0, u)->Ok_0->Done_0;
    lemma_train_table();
    lemma_scan_append_value(t, args, ok, u, s, 13, value, b1, b2);
    assert(t[13] == Flag { name: "--d-ff", field: 12, kind: FlagKind::Count });
    let s2 = s.update(12, SlotView::Count(n));
    assert(train_fields(s2) == TrainModel { d_ff: n, ..train_fields(s) });
}

/// `--dropout X` given last, `X` a floating-point number, sets `dropout` to `X`
/// and leaves every other `train` option as it was.
pub proof fn law_train_dropout(
    args: Seq<Seq<char>>,
    ok: Seq<bool>,
    value: Seq<char>,
    b1: bool,
    b2: bool,
)
    requires
        ok.len() == args.len(),
        train_scan(args, ok) is Some,
        b2,
    ensures
        train_scan(args + seq!["--dropout"@, value], ok + seq![b1, b2]) == Some(
            TrainModel { dropout: Some(value), ..train_scan(args, ok)->0 },
        ),
{
    let t = train_table();
    let u = unset_slots(19);
    let s = scan_args(t, args, ok, 0, u)->Ok_0->Done_0;
    lemma_train_table();
    lemma_scan_append_value(t, args, ok, u, s, 16, value, b1, b2);
    assert(t[16] == Flag { name: "--dropout", field: 13, kind: FlagKind::Float });
    let s2 = s.update(13, SlotView::Text(value));
    assert(train_fields(s2) == TrainModel { dropout: Some(value), ..train_fields(s) });
}

/// `--weight-decay X` given last, `X` a floating-point number, sets
/// `weight_decay` to `X` and leaves every other `train` option as it was.
pub proof fn law_train_weight_decay(
    args: Seq<Seq<char>>,
    ok: Seq<bool>,
    value: Seq<char>,
    b1: bool,
    b2: bool,
)
    requires
        ok.len() == args.len(),
        train_scan(args, ok) is Some,
        b2,
    ensures
        train_scan(args + seq!["--weight-decay"@, value], ok + seq![b1, b2]) == Some(
            TrainModel { weight_decay: Some(value), ..train_scan(args, ok)->0 },
        ),
{
    let t = train_table();
    let u = unset_slots(19);
    let s = scan_args(t, args, ok, 0, u)->Ok_0->Done_0;
    lemma_train_table();
    lemma_scan_append_value(t, args, ok, u, s, 17, value, b1, b2);
    assert(t[17] == Flag { name: "--weight-decay", field: 14, kind: FlagKind::Float });
    let s2 = s.update(14, SlotView::Text(value));
    assert(train_fields(s2) == TrainModel { weight_decay: Some(value), ..train_fields(s) });
}

/// `--eval-interval N` given last sets `eval_interval` to `N` and leaves every
/// other `train` option as it was.
pub proof fn law_train_eval_interval(
    args: Seq<Seq<char>>,
    ok: Seq<bool>,
    value: Seq<char>,
    b1: bool,
    b2: bool,
    n: nat,
)
    requires
        ok.len() == args.len(),
        train_scan(args, ok) is Some,
        parse_unsigned_spec(value, u64::MAX as nat) == Ok::<nat, IntErrorKind>(n),
    ensures
        train_scan(args + seq!["--eval-interval"@, value], ok + seq![b1, b2]) == Some(
            TrainModel { eval_interval: n, ..train_scan(args, ok)->0 },
        ),
{
    let t = train_table();
    let u = unset_slots(19);
    let s = scan_args(t, args, ok, 0, u)->Ok_0->Done_0;
    lemma_train_table();
    lemma_scan_append_value(t, args, ok, u, s, 18, value, b1, b2);
    assert(t[18] == Flag { name: "--eval-interval", field: 15, kind: FlagKind::Int });
    let s2 = s.update(15, SlotView::Int(n));
    assert(train_fields(s2) == TrainModel { eval_interval: n, ..train_fields(s) });
}

/// `--eval-batches N` given last sets `eval_batches` to `N` and leaves every
/// other `train` option as it was.
pub proof fn law_train_eval_batches(
    args: Seq<Seq<char>>,
    ok: Seq<bool>,
    value: Seq<char>,
    b1: bool,
    b2: bool,
    n: nat,
)
    requires
        ok.len() == args.len(),
        train_scan(args, ok) is Some,
        parse_unsigned_spec(value, usize::MAX as nat) == Ok::<nat, IntErrorKind>(n),
    ensures
        train_scan(args + seq!["--eval-batches"@, value], ok + seq![b1, b2]) == Some(
            TrainModel { eval_batches: n, ..train_scan(args, ok)->0 },
        ),
{
    let t = train_table();
    let u = unset_slots(19);
    let s = scan_args(t, args, ok, 0, u)->Ok_0->Done_0;
    lemma_train_table();
    lemma_scan_append_value(t, args, ok, u, s, 19, value, b1, b2);
    assert(t[19] == Flag { name: "--eval-batches", field: 16, kind: FlagKind::Count });
    let s2 = s.update(16, SlotView::Count(n));
    assert(train_fields(s2) == TrainModel { eval_batches: n, ..train_fields(s) });
}

/// `--seed N` given last sets `seed` to `N` and leaves every other `train`
/// option as it was.
pub proof fn law_train_seed(
    args: Seq<Seq<char>>,
    ok: Seq<bool>,
    value: Seq<char>,
    b1: bool,
    b2: bool,
    n: nat,
)
    requires
        ok.len() == args.len(),
        train_scan(args, ok) is Some,
        parse_unsigned_spec(value, u64::MAX as nat) == Ok::<nat, IntErrorKind>(n),
    ensures
        train_scan(args + seq!["--seed"@, value], ok + seq![b1, b2]) == Some(
            TrainModel { seed: n, ..train_scan(args, ok)->0 },
        ),
{
    let t = train_table();
    let u = unset_slots(19);
    let s = scan_args(t, args, ok, 0, u)->Ok_0->Done_0;
    lemma_train_table();
    lemma_scan_append_value(t, args, ok, u, s, 20, value, b1, b2);
    assert(t[20] == Flag { name: "--seed", field: 17, kind: FlagKind::Int });
    let s2 = s.update(17, SlotView::Int(n));
    assert(train_fields(s2) == TrainModel { seed: n, ..train_fields(s) });
}

/// `--description T` given last sets `description` to `T` and leaves every
/// other `train` option as it was.
pub proof fn law_train_description(
    args: Seq<Seq<char>>,
    ok: Seq<bool>,
    value: Seq<char>,
    b1: bool,
    b2: bool,
)
    requires
        ok.len() == args.len(),
        train_scan(args, ok) is Some,
    ensures
        train_scan(args + seq!["--description"@, value], ok + seq![b1, b2]) == Some(
            TrainModel { description: value, ..train_scan(args, ok)->0 },
        ),
{
    let t = train_table();
    let u = unset_slots(19);
    let s = scan_args(t, args, ok, 0, u)->Ok_0->Done_0;
    lemma_train_table();
    lemma_scan_append_value(t, args, ok, u, s, 21, value, b1, b2);
    assert(t[21] == Flag { name: "--description", field: 18, kind: FlagKind::Text });
    let s2 = s.update(18, SlotView::Text(value));
    assert(train_fields(s2) == TrainModel { description: value, ..train_fields(s) });
}

/// `--help` after arguments that were read in full asks for the usage text.
pub proof fn law_train_help(args: Seq<Seq<char>>, ok: Seq<bool>, b: bool)
    requires
        ok.len() == args.len(),
        train_scan(args, ok) is Some,
    ensures
        scan_args(train_table(), args.push("--help"@), ok.push(b), 0, unset_slots(19))
            == Ok::<ScanOutcome, ArgError>(ScanOutcome::Help),
{
    let t = train_table();
    let u = unset_slots(19);
    let s = scan_args(t, args, ok, 0, u)->Ok_0->Done_0;
    lemma_train_table();
    lemma_scan_append_flag(t, args, ok, u, s, 22, b);
    assert(t[22] == Flag { name: "--help", field: 0, kind: FlagKind::Help });
}

/// `-h` after arguments that were read in full asks for the usage text.
pub proof fn law_train_h(args: Seq<Seq<char>>, ok: Seq<bool>, b: bool)
    requires
        ok.len() == args.len(),
        train_scan(args, ok) is Some,
    ensures
        scan_args(train_table(), args.push("-h"@), ok.push(b), 0, unset_slots(19))
            == Ok::<ScanOutcome, ArgError>(ScanOutcome::Help),
{
    let t = train_table();
    let u = unset_slots(19);
    let s = scan_args(t, args, ok, 0, u)->Ok_0->Done_0;
    lemma_train_table();
    lemma_scan_append_flag(t, args, ok, u, s, 23, b);
    assert(t[23] == Flag { name: "-h", field: 0, kind: FlagKind::Help });
}

} // verus!
