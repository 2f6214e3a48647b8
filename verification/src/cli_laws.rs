use vstd::prelude::*;

use crate::cli::{
    autoresearch_defaults, autoresearch_fields, autoresearch_scan, autoresearch_table, find_flag,
    lemma_find_flag_found, prepare_defaults, prepare_fields, prepare_scan, prepare_table, report_scan, report_table,
    scan_args, table_fits, train_defaults, train_fields, train_scan, train_table, unset_slots,
    ArgError, AutoresearchModel, Flag, FlagKind, PrepareModel, ScanOutcome, SlotView, TrainModel,
};
use crate::numbers::{parse_unsigned_spec, IntErrorKind};

verus! {

/// No two flags of `table` are spelled alike.
#[verifier::opaque]
pub open spec fn names_distinct(table: Seq<Flag>) -> bool {
    forall|j: int, k: int| 0 <= j < k < table.len() ==> table[j].name@ != table[k].name@
}

/// In a table of distinct spellings, a flag's spelling finds that flag.
proof fn lemma_find_distinct(table: Seq<Flag>, j: int)
    requires
        names_distinct(table),
        0 <= j < table.len(),
    ensures
        find_flag(table, table[j].name@) == Some(j as nat),
    decreases table.len(),
{
    reveal(names_distinct);
    let front = table.drop_last();
    let last = table.len() - 1;
    lemma_find_flag_found(front, table[j].name@);
    if j < last {
        assert(names_distinct(front)) by {
            assert forall|a: int, b: int| 0 <= a < b < front.len() implies front[a].name@
                != front[b].name@ by {
                assert(front[a] == table[a] && front[b] == table[b]);
            }
        }
        assert(front[j] == table[j]);
        lemma_find_distinct(front, j);
    } else {
        match find_flag(front, table[j].name@) {
            Some(k) => {
                assert(front[k as int] == table[k as int]);
            },
            None => {},
        }
    }
}

/// Reading keeps the number of fields.
proof fn lemma_scan_len(
    table: Seq<Flag>,
    args: Seq<Seq<char>>,
    ok: Seq<bool>,
    i: nat,
    slots: Seq<SlotView>,
)
    requires
        table_fits(table, slots.len()),
    ensures
        scan_args(table, args, ok, i, slots) matches Ok(ScanOutcome::Done(s)) ==> s.len()
            == slots.len(),
    decreases args.len() - i,
{
    reveal(scan_args);
    if i < args.len() {
        match find_flag(table, args[i as int]) {
            None => {},
            Some(j) => {
                lemma_find_flag_found(table, args[i as int]);
                let f = table[j as int];
                let fld = f.field as int;
                match f.kind {
                    FlagKind::Help => {},
                    FlagKind::Switch => {
                        lemma_scan_len(table, args, ok, i + 1, slots.update(fld, SlotView::On));
                    },
                    FlagKind::Count => {
                        if i + 1 < args.len() {
                            match parse_unsigned_spec(args[i as int + 1], usize::MAX as nat) {
                                Ok(v) => {
                                    lemma_scan_len(table, args, ok, i + 2, slots.update(fld, SlotView::Count(v)));
                                },
                                Err(_) => {},
                            }
                        }
                    },
                    FlagKind::Int => {
                        if i + 1 < args.len() {
                            match parse_unsigned_spec(args[i as int + 1], u64::MAX as nat) {
                                Ok(v) => {
                                    lemma_scan_len(table, args, ok, i + 2, slots.update(fld, SlotView::Int(v)));
                                },
                                Err(_) => {},
                            }
                        }
                    },
                    _ => {
                        if i + 1 < args.len() {
                            lemma_scan_len(
                                table,
                                args,
                                ok,
                                i + 2,
                                slots.update(fld, SlotView::Text(args[i as int + 1])),
                            );
                        }
                    },
                }
            },
        }
    }
}

/// Reading arguments extended at the end goes as reading the original
/// arguments, then the extension from the fields they gave.
proof fn lemma_scan_extend(
    table: Seq<Flag>,
    args: Seq<Seq<char>>,
    ok: Seq<bool>,
    a2: Seq<Seq<char>>,
    o2: Seq<bool>,
    i: nat,
    slots: Seq<SlotView>,
)
    requires
        i <= args.len() <= a2.len(),
        ok.len() == args.len(),
        o2.len() == a2.len(),
        forall|k: int| 0 <= k < args.len() ==> a2[k] == args[k] && o2[k] == ok[k],
    ensures
        scan_args(table, args, ok, i, slots) matches Ok(ScanOutcome::Done(s)) ==> scan_args(
            table,
            a2,
            o2,
            i,
            slots,
        ) == scan_args(table, a2, o2, args.len(), s),
    decreases args.len() - i,
{
    reveal(scan_args);
    if i < args.len() {
        assert(a2[i as int] == args[i as int]);
        match find_flag(table, args[i as int]) {
            None => {},
            Some(j) => {
                let f = table[j as int];
                let fld = f.field as int;
                if i + 1 < args.len() {
                    assert(a2[i as int + 1] == args[i as int + 1]);
                    assert(o2[i as int + 1] == ok[i as int + 1]);
                }
                match f.kind {
                    FlagKind::Help => {},
                    FlagKind::Switch => {
                        lemma_scan_extend(table, args, ok, a2, o2, i + 1, slots.update(fld, SlotView::On));
                    },
                    FlagKind::Count => {
                        if i + 1 < args.len() {
                            match parse_unsigned_spec(args[i as int + 1], usize::MAX as nat) {
                                Ok(v) => {
                                    lemma_scan_extend(table, args, ok, a2, o2, i + 2, slots.update(fld, SlotView::Count(v)));
                                },
                                Err(_) => {},
                            }
                        }
                    },
                    FlagKind::Int => {
                        if i + 1 < args.len() {
                            match parse_unsigned_spec(args[i as int + 1], u64::MAX as nat) {
                                Ok(v) => {
                                    lemma_scan_extend(table, args, ok, a2, o2, i + 2, slots.update(fld, SlotView::Int(v)));
                                },
                                Err(_) => {},
                            }
                        }
                    },
                    _ => {
                        if i + 1 < args.len() {
                            lemma_scan_extend(
                                table,
                                args,
                                ok,
                                a2,
                                o2,
                                i + 2,
                                slots.update(fld, SlotView::Text(args[i as int + 1])),
                            );
                        }
                    },
                }
            },
        }
    }
}


/// After arguments that were read in full, a flag that takes a value and its
/// value set the flag's field, and only it.
pub proof fn lemma_scan_append_value(
    table: Seq<Flag>,
    args: Seq<Seq<char>>,
    ok: Seq<bool>,
    slots: Seq<SlotView>,
    s: Seq<SlotView>,
    j: int,
    v: Seq<char>,
    b1: bool,
    b2: bool,
)
    requires
        names_distinct(table),
        table_fits(table, slots.len()),
        0 <= j < table.len(),
        ok.len() == args.len(),
        scan_args(table, args, ok, 0, slots) == Ok::<ScanOutcome, ArgError>(ScanOutcome::Done(s)),
    ensures
        s.len() == slots.len(),
        table[j].kind is Count ==> (parse_unsigned_spec(v, usize::MAX as nat) matches Ok(n)
            ==> scan_args(table, args + seq![table[j].name@, v], ok + seq![b1, b2], 0, slots)
            == Ok::<ScanOutcome, ArgError>(
            ScanOutcome::Done(s.update(table[j].field as int, SlotView::Count(n))),
        )),
        table[j].kind is Int ==> (parse_unsigned_spec(v, u64::MAX as nat) matches Ok(n)
            ==> scan_args(table, args + seq![table[j].name@, v], ok + seq![b1, b2], 0, slots)
            == Ok::<ScanOutcome, ArgError>(
            ScanOutcome::Done(s.update(table[j].field as int, SlotView::Int(n))),
        )),
        (table[j].kind is Text || (table[j].kind is Float && b2)) ==> scan_args(
            table,
            args + seq![table[j].name@, v],
            ok + seq![b1, b2],
            0,
            slots,
        ) == Ok::<ScanOutcome, ArgError>(
            ScanOutcome::Done(s.update(table[j].field as int, SlotView::Text(v))),
        ),
{
    reveal(scan_args);
    let a2 = args + seq![table[j].name@, v];
    let o2 = ok + seq![b1, b2];
    let n = args.len();
    lemma_scan_len(table, args, ok, 0, slots);
    lemma_scan_extend(table, args, ok, a2, o2, 0, slots);
    lemma_find_distinct(table, j);
    assert(a2[n as int] == table[j].name@);
    assert(a2[n as int + 1] == v);
    assert(o2[n as int + 1] == b2);
    let f = table[j];
    let fld = f.field as int;
    match f.kind {
        FlagKind::Count => {
            match parse_unsigned_spec(v, usize::MAX as nat) {
                Ok(c) => {
                    assert(scan_args(table, a2, o2, n + 2, s.update(fld, SlotView::Count(c)))
                        == Ok::<ScanOutcome, ArgError>(
                        ScanOutcome::Done(s.update(fld, SlotView::Count(c))),
                    ));
                },
                Err(_) => {},
            }
        },
        FlagKind::Int => {
            match parse_unsigned_spec(v, u64::MAX as nat) {
                Ok(c) => {
                    assert(scan_args(table, a2, o2, n + 2, s.update(fld, SlotView::Int(c)))
                        == Ok::<ScanOutcome, ArgError>(
                        ScanOutcome::Done(s.update(fld, SlotView::Int(c))),
                    ));
                },
                Err(_) => {},
            }
        },
        FlagKind::Text => {
            assert(scan_args(table, a2, o2, n + 2, s.update(fld, SlotView::Text(v)))
                == Ok::<ScanOutcome, ArgError>(ScanOutcome::Done(s.update(fld, SlotView::Text(v)))));
        },
        FlagKind::Float => {
            assert(scan_args(table, a2, o2, n + 2, s.update(fld, SlotView::Text(v)))
                == Ok::<ScanOutcome, ArgError>(ScanOutcome::Done(s.update(fld, SlotView::Text(v)))));
        },
        _ => {},
    }
}

/// After arguments that were read in full, a switch sets its field, and only
/// it; a help flag asks for help.
pub proof fn lemma_scan_append_flag(
    table: Seq<Flag>,
    args: Seq<Seq<char>>,
    ok: Seq<bool>,
    slots: Seq<SlotView>,
    s: Seq<SlotView>,
    j: int,
    b: bool,
)
    requires
        names_distinct(table),
        table_fits(table, slots.len()),
        0 <= j < table.len(),
        ok.len() == args.len(),
        scan_args(table, args, ok, 0, slots) == Ok::<ScanOutcome, ArgError>(ScanOutcome::Done(s)),
    ensures
        s.len() == slots.len(),
        table[j].kind is Switch ==> scan_args(table, args.push(table[j].name@), ok.push(b), 0, slots)
            == Ok::<ScanOutcome, ArgError>(
            ScanOutcome::Done(s.update(table[j].field as int, SlotView::On)),
        ),
        table[j].kind is Help ==> scan_args(table, args.push(table[j].name@), ok.push(b), 0, slots)
            == Ok::<ScanOutcome, ArgError>(ScanOutcome::Help),
{
    reveal(scan_args);
    let a2 = args.push(table[j].name@);
    let o2 = ok.push(b);
    let n = args.len();
    lemma_scan_len(table, args, ok, 0, slots);
    lemma_scan_extend(table, args, ok, a2, o2, 0, slots);
    lemma_find_distinct(table, j);
    assert(a2[n as int] == table[j].name@);
    let fld = table[j].field as int;
    if table[j].kind is Switch {
        assert(scan_args(table, a2, o2, n + 1, s.update(fld, SlotView::On))
            == Ok::<ScanOutcome, ArgError>(ScanOutcome::Done(s.update(fld, SlotView::On))));
    }
}


/// The `prepare` flags are spelled apart and set fields that exist.
pub proof fn lemma_prepare_table()
    ensures
        names_distinct(prepare_table()),
        table_fits(prepare_table(), 4),
{
    reveal(names_distinct);
    reveal_strlit("--artifacts-dir");
    reveal_strlit("--corpus-url");
    reveal_strlit("--val-fraction");
    reveal_strlit("--force-download");
    reveal_strlit("--help");
    reveal_strlit("-h");
    assert("--artifacts-dir"@.len() == 15);
    assert("--corpus-url"@.len() == 12);
    assert("--val-fraction"@.len() == 14);
    assert("--force-download"@.len() == 16);
    assert("--help"@.len() == 6);
    assert("-h"@.len() == 2);
}


/// The `autoresearch` flags are spelled apart and set fields that exist.
pub proof fn lemma_autoresearch_table()
    ensures
        names_distinct(autoresearch_table()),
        table_fits(autoresearch_table(), 13),
{
    reveal(names_distinct);
    reveal_strlit("--experiments");
    reveal_strlit("--artifacts-dir");
    reveal_strlit("--runs-dir");
    reveal_strlit("--time-budget-seconds");
    reveal_strlit("--base-batch-size");
    reveal_strlit("--base-seq-len");
    reveal_strlit("--base-learning-rate");
    reveal_strlit("--base-lr-warmup-steps");
    reveal_strlit("--base-lr-final-scale");
    reveal_strlit("--base-grad-clip-norm");
    reveal_strlit("--base-model-dim");
    reveal_strlit("--base-mlp-dim");
    reveal_strlit("--seed");
    reveal_strlit("--help");
    reveal_strlit("-h");
    assert("--experiments"@.len() == 13);
    assert("--experiments"@[2] == 'e');
    assert("--experiments"@[7] == 'i');
    assert("--artifacts-dir"@.len() == 15);
    assert("--artifacts-dir"@[2] == 'a');
    assert("--artifacts-dir"@[7] == 'a');
    assert("--runs-dir"@.len() == 10);
    assert("--runs-dir"@[2] == 'r');
    assert("--runs-dir"@[7] == 'd');
    assert("--time-budget-seconds"@.len() == 21);
    assert("--time-budget-seconds"@[2] == 't');
    assert("--time-budget-seconds"@[7] == 'b');
    assert("--base-batch-size"@.len() == 17);
    assert("--base-batch-size"@[2] == 'b');
    assert("--base-batch-size"@[7] == 'b');
    assert("--base-seq-len"@.len() == 14);
    assert("--base-seq-len"@[2] == 'b');
    assert("--base-seq-len"@[7] == 's');
    assert("--base-learning-rate"@.len() == 20);
    assert("--base-learning-rate"@[2] == 'b');
    assert("--base-learning-rate"@[7] == 'l');
    assert("--base-lr-warmup-steps"@.len() == 22);
    assert("--base-lr-warmup-steps"@[2] == 'b');
    assert("--base-lr-warmup-steps"@[7] == 'l');
    assert("--base-lr-final-scale"@.len() == 21);
    assert("--base-lr-final-scale"@[2] == 'b');
    assert("--base-lr-final-scale"@[7] == 'l');
    assert("--base-grad-clip-norm"@.len() == 21);
    assert("--base-grad-clip-norm"@[2] == 'b');
    assert("--base-grad-clip-norm"@[7] == 'g');
    assert("--base-model-dim"@.len() == 16);
    assert("--base-model-dim"@[2] == 'b');
    assert("--base-model-dim"@[7] == 'm');
    assert("--base-mlp-dim"@.len() == 14);
    assert("--base-mlp-dim"@[2] == 'b');
    assert("--base-mlp-dim"@[7] == 'm');
    assert("--seed"@.len() == 6);
    assert("--seed"@[2] == 's');
    assert("--help"@.len() == 6);
    assert("--help"@[2] == 'h');
    assert("-h"@.len() == 2);
}


/// The `train` flags are spelled apart and set fields that exist.
pub proof fn lemma_train_table()
    ensures
        names_distinct(train_table()),
        table_fits(train_table(), 19),
{
    reveal(names_distinct);
    reveal_strlit("--artifacts-dir");
    reveal_strlit("--runs-dir");
    reveal_strlit("--time-budget-seconds");
    reveal_strlit("--batch-size");
    reveal_strlit("--seq-len");
    reveal_strlit("--learning-rate");
    reveal_strlit("--lr-warmup-steps");
    reveal_strlit("--lr-final-scale");
    reveal_strlit("--lr-min-scale");
    reveal_strlit("--grad-clip-norm");
    reveal_strlit("--model-dim");
    reveal_strlit("--d-model");
    reveal_strlit("--mlp-dim");
    reveal_strlit("--d-ff");
    reveal_strlit("--n-layers");
    reveal_strlit("--n-heads");
    reveal_strlit("--dropout");
    reveal_strlit("--weight-decay");
    reveal_strlit("--eval-interval");
    reveal_strlit("--eval-batches");
    reveal_strlit("--seed");
    reveal_strlit("--description");
    reveal_strlit("--help");
    reveal_strlit("-h");
    assert("--artifacts-dir"@.len() == 15);
    assert("--artifacts-dir"@[2] == 'a');
    assert("--artifacts-dir"@[3] == 'r');
    assert("--runs-dir"@.len() == 10);
    assert("--runs-dir"@[2] == 'r');
    assert("--runs-dir"@[3] == 'u');
    assert("--time-budget-seconds"@.len() == 21);
    assert("--time-budget-seconds"@[2] == 't');
    assert("--time-budget-seconds"@[3] == 'i');
    assert("--batch-size"@.len() == 12);
    assert("--batch-size"@[2] == 'b');
    assert("--batch-size"@[3] == 'a');
    assert("--seq-len"@.len() == 9);
    assert("--seq-len"@[2] == 's');
    assert("--seq-len"@[3] == 'e');
    assert("--learning-rate"@.len() == 15);
    assert("--learning-rate"@[2] == 'l');
    assert("--learning-rate"@[3] == 'e');
    assert("--lr-warmup-steps"@.len() == 17);
    assert("--lr-warmup-steps"@[2] == 'l');
    assert("--lr-warmup-steps"@[3] == 'r');
    assert("--lr-final-scale"@.len() == 16);
    assert("--lr-final-scale"@[2] == 'l');
    assert("--lr-final-scale"@[3] == 'r');
    assert("--lr-min-scale"@.len() == 14);
    assert("--lr-min-scale"@[2] == 'l');
    assert("--lr-min-scale"@[3] == 'r');
    assert("--grad-clip-norm"@.len() == 16);
    assert("--grad-clip-norm"@[2] == 'g');
    assert("--grad-clip-norm"@[3] == 'r');
    assert("--model-dim"@.len() == 11);
    assert("--model-dim"@[2] == 'm');
    assert("--model-dim"@[3] == 'o');
    assert("--d-model"@.len() == 9);
    assert("--d-model"@[2] == 'd');
    assert("--d-model"@[3] == '-');
    assert("--mlp-dim"@.len() == 9);
    assert("--mlp-dim"@[2] == 'm');
    assert("--mlp-dim"@[3] == 'l');
    assert("--d-ff"@.len() == 6);
    assert("--d-ff"@[2] == 'd');
    assert("--d-ff"@[3] == '-');
    assert("--n-layers"@.len() == 10);
    assert("--n-layers"@[2] == 'n');
    assert("--n-layers"@[3] == '-');
    assert("--n-heads"@.len() == 9);
    assert("--n-heads"@[2] == 'n');
    assert("--n-heads"@[3] == '-');
    assert("--dropout"@.len() == 9);
    assert("--dropout"@[2] == 'd');
    assert("--dropout"@[3] == 'r');
    assert("--weight-decay"@.len() == 14);
    assert("--weight-decay"@[2] == 'w');
    assert("--weight-decay"@[3] == 'e');
    assert("--eval-interval"@.len() == 15);
    assert("--eval-interval"@[2] == 'e');
    assert("--eval-interval"@[3] == 'v');
    assert("--eval-batches"@.len() == 14);
    assert("--eval-batches"@[2] == 'e');
    assert("--eval-batches"@[3] == 'v');
    assert("--seed"@.len() == 6);
    assert("--seed"@[2] == 's');
    assert("--seed"@[3] == 'e');
    assert("--description"@.len() == 13);
    assert("--description"@[2] == 'd');
    assert("--description"@[3] == 'e');
    assert("--help"@.len() == 6);
    assert("--help"@[2] == 'h');
    assert("--help"@[3] == 'e');
    assert("-h"@.len() == 2);
}


/// With no arguments every `prepare` option has its default.
pub proof fn law_prepare_defaults()
    ensures
        prepare_scan(seq![], seq![]) == Some(
            (PrepareModel {
                artifacts_dir: "artifacts"@,
                corpus_url: "https://raw.githubusercontent.com/karpathy/char-rnn/master/data/tinyshakespeare/input.txt"@,
                val_fraction: None,
                force_download: false,
            }),
        ),
{
    reveal(scan_args);
    assert(prepare_fields(unset_slots(4)) == prepare_defaults());
}

/// `--artifacts-dir T` given last sets `artifacts_dir` to `T` and leaves every
/// other `prepare` option as it was.
pub proof fn law_prepare_artifacts_dir(
    args: Seq<Seq<char>>,
    ok: Seq<bool>,
    value: Seq<char>,
    b1: bool,
    b2: bool,
)
    requires
        ok.len() == args.len(),
        prepare_scan(args, ok) is Some,
    ensures
        prepare_scan(args + seq!["--artifacts-dir"@, value], ok + seq![b1, b2]) == Some(
            PrepareModel { artifacts_dir: value, ..prepare_scan(args, ok)->0 },
        ),
{
    let t = prepare_table();
    let u = unset_slots(4);
    let s = scan_args(t, args, ok, 0, u)->Ok_0->Done_0;
    lemma_prepare_table();
    lemma_scan_append_value(t, args, ok, u, s, 0, value, b1, b2);
    assert(t[0] == Flag { name: "--artifacts-dir", field: 0, kind: FlagKind::Text });
    let s2 = s.update(0, SlotView::Text(value));
    assert(prepare_fields(s2) == PrepareModel { artifacts_dir: value, ..prepare_fields(s) });
}

/// `--corpus-url T` given last sets `corpus_url` to `T` and leaves every other
/// `prepare` option as it was.
pub proof fn law_prepare_corpus_url(
    args: Seq<Seq<char>>,
    ok: Seq<bool>,
    value: Seq<char>,
    b1: bool,
    b2: bool,
)
    requires
        ok.len() == args.len(),
        prepare_scan(args, ok) is Some,
    ensures
        prepare_scan(args + seq!["--corpus-url"@, value], ok + seq![b1, b2]) == Some(
            PrepareModel { corpus_url: value, ..prepare_scan(args, ok)->0 },
        ),
{
    let t = prepare_table();
    let u = unset_slots(4);
    let s = scan_args(t, args, ok, 0, u)->Ok_0->Done_0;
    lemma_prepare_table();
    lemma_scan_append_value(t, args, ok, u, s, 1, value, b1, b2);
    assert(t[1] == Flag { name: "--corpus-url", field: 1, kind: FlagKind::Text });
    let s2 = s.update(1, SlotView::Text(value));
    assert(prepare_fields(s2) == PrepareModel { corpus_url: value, ..prepare_fields(s) });
}

/// `--val-fraction X` given last, `X` a floating-point number, sets
/// `val_fraction` to `X` and leaves every other `prepare` option as it was.
pub proof fn law_prepare_val_fraction(
    args: Seq<Seq<char>>,
    ok: Seq<bool>,
    value: Seq<char>,
    b1: bool,
    b2: bool,
)
    requires
        ok.len() == args.len(),
        prepare_scan(args, ok) is Some,
        b2,
    ensures
        prepare_scan(args + seq!["--val-fraction"@, value], ok + seq![b1, b2]) == Some(
            PrepareModel { val_fraction: Some(value), ..prepare_scan(args, ok)->0 },
        ),
{
    let t = prepare_table();
    let u = unset_slots(4);
    let s = scan_args(t, args, ok, 0, u)->Ok_0->Done_0;
    lemma_prepare_table();
    lemma_scan_append_value(t, args, ok, u, s, 2, value, b1, b2);
    assert(t[2] == Flag { name: "--val-fraction", field: 2, kind: FlagKind::Float });
    let s2 = s.update(2, SlotView::Text(value));
    assert(prepare_fields(s2) == PrepareModel { val_fraction: Some(value), ..prepare_fields(s) });
}

/// `--force-download` given last switches on `force_download` and leaves every
/// other `prepare` option as it was.
pub proof fn law_prepare_force_download(args: Seq<Seq<char>>, ok: Seq<bool>, b: bool)
    requires
        ok.len() == args.len(),
        prepare_scan(args, ok) is Some,
    ensures
        prepare_scan(args.push("--force-download"@), ok.push(b)) == Some(
            PrepareModel { force_download: true, ..prepare_scan(args, ok)->0 },
        ),
{
    let t = prepare_table();
    let u = unset_slots(4);
    let s = scan_args(t, args, ok, 0, u)->Ok_0->Done_0;
    lemma_prepare_table();
    lemma_scan_append_flag(t, args, ok, u, s, 3, b);
    assert(t[3] == Flag { name: "--force-download", field: 3, kind: FlagKind::Switch });
    let s2 = s.update(3, SlotView::On);
    assert(prepare_fields(s2) == PrepareModel { force_download: true, ..prepare_fields(s) });
}

/// `--help` after arguments that were read in full asks for the usage text.
pub proof fn law_prepare_help(args: Seq<Seq<char>>, ok: Seq<bool>, b: bool)
    requires
        ok.len() == args.len(),
        prepare_scan(args, ok) is Some,
    ensures
        scan_args(prepare_table(), args.push("--help"@), ok.push(b), 0, unset_slots(4))
            == Ok::<ScanOutcome, ArgError>(ScanOutcome::Help),
{
    let t = prepare_table();
    let u = unset_slots(4);
    let s = scan_args(t, args, ok, 0, u)->Ok_0->Done_0;
    lemma_prepare_table();
    lemma_scan_append_flag(t, args, ok, u, s, 4, b);
    assert(t[4] == Flag { name: "--help", field: 0, kind: FlagKind::Help });
}

/// `-h` after arguments that were read in full asks for the usage text.
pub proof fn law_prepare_h(args: Seq<Seq<char>>, ok: Seq<bool>, b: bool)
    requires
        ok.len() == args.len(),
        prepare_scan(args, ok) is Some,
    ensures
        scan_args(prepare_table(), args.push("-h"@), ok.push(b), 0, unset_slots(4))
            == Ok::<ScanOutcome, ArgError>(ScanOutcome::Help),
{
    let t = prepare_table();
    let u = unset_slots(4);
    let s = scan_args(t, args, ok, 0, u)->Ok_0->Done_0;
    lemma_prepare_table();
    lemma_scan_append_flag(t, args, ok, u, s, 5, b);
    assert(t[5] == Flag { name: "-h", field: 0, kind: FlagKind::Help });
}


/// With no arguments every `autoresearch` option has its default.
pub proof fn law_autoresearch_defaults()
    ensures
        autoresearch_scan(seq![], seq![]) == Some(
            (AutoresearchModel {
                experiments: 10,
                artifacts_dir: "artifacts"@,
                runs_dir: "runs"@,
                time_budget_seconds: 300,
                base_batch_size: 32,
                base_seq_len: 64,
                base_learning_rate: None,
                base_lr_warmup_steps: 200,
                base_lr_final_scale: None,
                base_grad_clip_norm: None,
                base_model_dim: 32,
                base_mlp_dim: 64,
                seed: 1337,
            }),
        ),
{
    reveal(scan_args);
    assert(autoresearch_fields(unset_slots(13)) == autoresearch_defaults());
}

/// `--experiments N` given last sets `experiments` to `N` and leaves every
/// other `autoresearch` option as it was.
pub proof fn law_autoresearch_experiments(
    args: Seq<Seq<char>>,
    ok: Seq<bool>,
    value: Seq<char>,
    b1: bool,
    b2: bool,
    n: nat,
)
    requires
        ok.len() == args.len(),
        autoresearch_scan(args, ok) is Some,
        parse_unsigned_spec(value, usize::MAX as nat) == Ok::<nat, IntErrorKind>(n),
    ensures
        autoresearch_scan(args + seq!["--experiments"@, value], ok + seq![b1, b2]) == Some(
            AutoresearchModel { experiments: n, ..autoresearch_scan(args, ok)->0 },
        ),
{
    let t = autoresearch_table();
    let u = unset_slots(13);
    let s = scan_args(t, args, ok, 0, u)->Ok_0->Done_0;
    lemma_autoresearch_table();
    lemma_scan_append_value(t, args, ok, u, s, 0, value, b1, b2);
    assert(t[0] == Flag { name: "--experiments", field: 0, kind: FlagKind::Count });
    let s2 = s.update(0, SlotView::Count(n));
    assert(autoresearch_fields(s2) == AutoresearchModel { experiments: n, ..autoresearch_fields(s) });
}

/// `--artifacts-dir T` given last sets `artifacts_dir` to `T` and leaves every
/// other `autoresearch` option as it was.
pub proof fn law_autoresearch_artifacts_dir(
    args: Seq<Seq<char>>,
    ok: Seq<bool>,
    value: Seq<char>,
    b1: bool,
    b2: bool,
)
    requires
        ok.len() == args.len(),
        autoresearch_scan(args, ok) is Some,
    ensures
        autoresearch_scan(args + seq!["--artifacts-dir"@, value], ok + seq![b1, b2]) == Some(
            AutoresearchModel { artifacts_dir: value, ..autoresearch_scan(args, ok)->0 },
        ),
{
    let t = autoresearch_table();
    let u = unset_slots(13);
    let s = scan_args(t, args, ok, 0, u)->Ok_0->Done_0;
    lemma_autoresearch_table();
    lemma_scan_append_value(t, args, ok, u, s, 1, value, b1, b2);
    assert(t[1] == Flag { name: "--artifacts-dir", field: 1, kind: FlagKind::Text });
    let s2 = s.update(1, SlotView::Text(value));
    assert(autoresearch_fields(s2) == AutoresearchModel { artifacts_dir: value, ..autoresearch_fields(s) });
}

/// `--runs-dir T` given last sets `runs_dir` to `T` and leaves every other
/// `autoresearch` option as it was.
pub proof fn law_autoresearch_runs_dir(
    args: Seq<Seq<char>>,
    ok: Seq<bool>,
    value: Seq<char>,
    b1: bool,
    b2: bool,
)
    requires
        ok.len() == args.len(),
        autoresearch_scan(args, ok) is Some,
    ensures
        autoresearch_scan(args + seq!["--runs-dir"@, value], ok + seq![b1, b2]) == Some(
            AutoresearchModel { runs_dir: value, ..autoresearch_scan(args, ok)->0 },
        ),
{
    let t = autoresearch_table();
    let u = unset_slots(13);
    let s = scan_args(t, args, ok, 0, u)->Ok_0->Done_0;
    lemma_autoresearch_table();
    lemma_scan_append_value(t, args, ok, u, s, 2, value, b1, b2);
    assert(t[2] == Flag { name: "--runs-dir", field: 2, kind: FlagKind::Text });
    let s2 = s.update(2, SlotView::Text(value));
    assert(autoresearch_fields(s2) == AutoresearchModel { runs_dir: value, ..autoresearch_fields(s) });
}

/// `--time-budget-seconds N` given last sets `time_budget_seconds` to `N` and
/// leaves every other `autoresearch` option as it was.
pub proof fn law_autoresearch_time_budget_seconds(
    args: Seq<Seq<char>>,
    ok: Seq<bool>,
    value: Seq<char>,
    b1: bool,
    b2: bool,
    n: nat,
)
    requires
        ok.len() == args.len(),
        autoresearch_scan(args, ok) is Some,
        parse_unsigned_spec(value, u64::MAX as nat) == Ok::<nat, IntErrorKind>(n),
    ensures
        autoresearch_scan(args + seq!["--time-budget-seconds"@, value], ok + seq![b1, b2]) == Some(
            AutoresearchModel { time_budget_seconds: n, ..autoresearch_scan(args, ok)->0 },
        ),
{
    let t = autoresearch_table();
    let u = unset_slots(13);
    let s = scan_args(t, args, ok, 0, u)->Ok_0->Done_0;
    lemma_autoresearch_table();
    lemma_scan_append_value(t, args, ok, u, s, 3, value, b1, b2);
    assert(t[3] == Flag { name: "--time-budget-seconds", field: 3, kind: FlagKind::Int });
    let s2 = s.update(3, SlotView::Int(n));
    assert(autoresearch_fields(s2) == AutoresearchModel { time_budget_seconds: n, ..autoresearch_fields(s) });
}

/// `--base-batch-size N` given last sets `base_batch_size` to `N` and leaves
/// every other `autoresearch` option as it was.
pub proof fn law_autoresearch_base_batch_size(
    args: Seq<Seq<char>>,
    ok: Seq<bool>,
    value: Seq<char>,
    b1: bool,
    b2: bool,
    n: nat,
)
    requires
        ok.len() == args.len(),
        autoresearch_scan(args, ok) is Some,
        parse_unsigned_spec(value, usize::MAX as nat) == Ok::<nat, IntErrorKind>(n),
    ensures
        autoresearch_scan(args + seq!["--base-batch-size"@, value], ok + seq![b1, b2]) == Some(
            AutoresearchModel { base_batch_size: n, ..autoresearch_scan(args, ok)->0 },
        ),
{
    let t = autoresearch_table();
    let u = unset_slots(13);
    let s = scan_args(t, args, ok, 0, u)->Ok_0->Done_0;
    lemma_autoresearch_table();
    lemma_scan_append_value(t, args, ok, u, s, 4, value, b1, b2);
    assert(t[4] == Flag { name: "--base-batch-size", field: 4, kind: FlagKind::Count });
    let s2 = s.update(4, SlotView::Count(n));
    assert(autoresearch_fields(s2) == AutoresearchModel { base_batch_size: n, ..autoresearch_fields(s) });
}

/// `--base-seq-len N` given last sets `base_seq_len` to `N` and leaves every
/// other `autoresearch` option as it was.
pub proof fn law_autoresearch_base_seq_len(
    args: Seq<Seq<char>>,
    ok: Seq<bool>,
    value: Seq<char>,
    b1: bool,
    b2: bool,
    n: nat,
)
    requires
        ok.len() == args.len(),
        autoresearch_scan(args, ok) is Some,
        parse_unsigned_spec(value, usize::MAX as nat) == Ok::<nat, IntErrorKind>(n),
    ensures
        autoresearch_scan(args + seq!["--base-seq-len"@, value], ok + seq![b1, b2]) == Some(
            AutoresearchModel { base_seq_len: n, ..autoresearch_scan(args, ok)->0 },
        ),
{
    let t = autoresearch_table();
    let u = unset_slots(13);
    let s = scan_args(t, args, ok, 0, u)->Ok_0->Done_0;
    lemma_autoresearch_table();
    lemma_scan_append_value(t, args, ok, u, s, 5, value, b1, b2);
    assert(t[5] == Flag { name: "--base-seq-len", field: 5, kind: FlagKind::Count });
    let s2 = s.update(5, SlotView::Count(n));
    assert(autoresearch_fields(s2) == AutoresearchModel { base_seq_len: n, ..autoresearch_fields(s) });
}

/// `--base-learning-rate X` given last, `X` a floating-point number, sets
/// `base_learning_rate` to `X` and leaves every other `autoresearch` option as
/// it was.
pub proof fn law_autoresearch_base_learning_rate(
    args: Seq<Seq<char>>,
    ok: Seq<bool>,
    value: Seq<char>,
    b1: bool,
    b2: bool,
)
    requires
        ok.len() == args.len(),
        autoresearch_scan(args, ok) is Some,
        b2,
    ensures
        autoresearch_scan(args + seq!["--base-learning-rate"@, value], ok + seq![b1, b2]) == Some(
            AutoresearchModel { base_learning_rate: Some(value), ..autoresearch_scan(args, ok)->0 },
        ),
{
    let t = autoresearch_table();
    let u = unset_slots(13);
    let s = scan_args(t, args, ok, 0, u)->Ok_0->Done_0;
    lemma_autoresearch_table();
    lemma_scan_append_value(t, args, ok, u, s, 6, value, b1, b2);
    assert(t[6] == Flag { name: "--base-learning-rate", field: 6, kind: FlagKind::Float });
    let s2 = s.update(6, SlotView::Text(value));
    assert(autoresearch_fields(s2) == AutoresearchModel { base_learning_rate: Some(value), ..autoresearch_fields(s) });
}

/// `--base-lr-warmup-steps N` given last sets `base_lr_warmup_steps` to `N` and
/// leaves every other `autoresearch` option as it was.
pub proof fn law_autoresearch_base_lr_warmup_steps(
    args: Seq<Seq<char>>,
    ok: Seq<bool>,
    value: Seq<char>,
    b1: bool,
    b2: bool,
    n: nat,
)
    requires
        ok.len() == args.len(),
        autoresearch_scan(args, ok) is Some,
        parse_unsigned_spec(value, u64::MAX as nat) == Ok::<nat, IntErrorKind>(n),
    ensures
        autoresearch_scan(args + seq!["--base-lr-warmup-steps"@, value], ok + seq![b1, b2]) == Some(
            AutoresearchModel { base_lr_warmup_steps: n, ..autoresearch_scan(args, ok)->0 },
        ),
{
    let t = autoresearch_table();
    let u = unset_slots(13);
    let s = scan_args(t, args, ok, 0, u)->Ok_0->Done_0;
    lemma_autoresearch_table();
    lemma_scan_append_value(t, args, ok, u, s, 7, value, b1, b2);
    assert(t[7] == Flag { name: "--base-lr-warmup-steps", field: 7, kind: FlagKind::Int });
    let s2 = s.update(7, SlotView::Int(n));
    assert(autoresearch_fields(s2) == AutoresearchModel { base_lr_warmup_steps: n, ..autoresearch_fields(s) });
}

/// `--base-lr-final-scale X` given last, `X` a floating-point number, sets
/// `base_lr_final_scale` to `X` and leaves every other `autoresearch` option as
/// it was.
pub proof fn law_autoresearch_base_lr_final_scale(
    args: Seq<Seq<char>>,
    ok: Seq<bool>,
    value: Seq<char>,
    b1: bool,
    b2: bool,
)
    requires
        ok.len() == args.len(),
        autoresearch_scan(args, ok) is Some,
        b2,
    ensures
        autoresearch_scan(args + seq!["--base-lr-final-scale"@, value], ok + seq![b1, b2]) == Some(
            AutoresearchModel { base_lr_final_scale: Some(value), ..autoresearch_scan(args, ok)->0 },
        ),
{
    let t = autoresearch_table();
    let u = unset_slots(13);
    let s = scan_args(t, args, ok, 0, u)->Ok_0->Done_0;
    lemma_autoresearch_table();
    lemma_scan_append_value(t, args, ok, u, s, 8, value, b1, b2);
    assert(t[8] == Flag { name: "--base-lr-final-scale", field: 8, kind: FlagKind::Float });
    let s2 = s.update(8, SlotView::Text(value));
    assert(autoresearch_fields(s2) == AutoresearchModel { base_lr_final_scale: Some(value), ..autoresearch_fields(s) });
}

/// `--base-grad-clip-norm X` given last, `X` a floating-point number, sets
/// `base_grad_clip_norm` to `X` and leaves every other `autoresearch` option as
/// it was.
pub proof fn law_autoresearch_base_grad_clip_norm(
    args: Seq<Seq<char>>,
    ok: Seq<bool>,
    value: Seq<char>,
    b1: bool,
    b2: bool,
)
    requires
        ok.len() == args.len(),
        autoresearch_scan(args, ok) is Some,
        b2,
    ensures
        autoresearch_scan(args + seq!["--base-grad-clip-norm"@, value], ok + seq![b1, b2]) == Some(
            AutoresearchModel { base_grad_clip_norm: Some(value), ..autoresearch_scan(args, ok)->0 },
        ),
{
    let t = autoresearch_table();
    let u = unset_slots(13);
    let s = scan_args(t, args, ok, 0, u)->Ok_0->Done_0;
    lemma_autoresearch_table();
    lemma_scan_append_value(t, args, ok, u, s, 9, value, b1, b2);
    assert(t[9] == Flag { name: "--base-grad-clip-norm", field: 9, kind: FlagKind::Float });
    let s2 = s.update(9, SlotView::Text(value));
    assert(autoresearch_fields(s2) == AutoresearchModel { base_grad_clip_norm: Some(value), ..autoresearch_fields(s) });
}

/// `--base-model-dim N` given last sets `base_model_dim` to `N` and leaves
/// every other `autoresearch` option as it was.
pub proof fn law_autoresearch_base_model_dim(
    args: Seq<Seq<char>>,
    ok: Seq<bool>,
    value: Seq<char>,
    b1: bool,
    b2: bool,
    n: nat,
)
    requires
        ok.len() == args.len(),
        autoresearch_scan(args, ok) is Some,
        parse_unsigned_spec(value, usize::MAX as nat) == Ok::<nat, IntErrorKind>(n),
    ensures
        autoresearch_scan(args + seq!["--base-model-dim"@, value], ok + seq![b1, b2]) == Some(
            AutoresearchModel { base_model_dim: n, ..autoresearch_scan(args, ok)->0 },
        ),
{
    let t = autoresearch_table();
    let u = unset_slots(13);
    let s = scan_args(t, args, ok, 0, u)->Ok_0->Done_0;
    lemma_autoresearch_table();
    lemma_scan_append_value(t, args, ok, u, s, 10, value, b1, b2);
    assert(t[10] == Flag { name: "--base-model-dim", field: 10, kind: FlagKind::Count });
    let s2 = s.update(10, SlotView::Count(n));
    assert(autoresearch_fields(s2) == AutoresearchModel { base_model_dim: n, ..autoresearch_fields(s) });
}

/// `--base-mlp-dim N` given last sets `base_mlp_dim` to `N` and leaves every
/// other `autoresearch` option as it was.
pub proof fn law_autoresearch_base_mlp_dim(
    args: Seq<Seq<char>>,
    ok: Seq<bool>,
    value: Seq<char>,
    b1: bool,
    b2: bool,
    n: nat,
)
    requires
        ok.len() == args.len(),
        autoresearch_scan(args, ok) is Some,
        parse_unsigned_spec(value, usize::MAX as nat) == Ok::<nat, IntErrorKind>(n),
    ensures
        autoresearch_scan(args + seq!["--base-mlp-dim"@, value], ok + seq![b1, b2]) == Some(
            AutoresearchModel { base_mlp_dim: n, ..autoresearch_scan(args, ok)->0 },
        ),
{
    let t = autoresearch_table();
    let u = unset_slots(13);
    let s = scan_args(t, args, ok, 0, u)->Ok_0->Done_0;
    lemma_autoresearch_table();
    lemma_scan_append_value(t, args, ok, u, s, 11, value, b1, b2);
    assert(t[11] == Flag { name: "--base-mlp-dim", field: 11, kind: FlagKind::Count });
    let s2 = s.update(11, SlotView::Count(n));
    assert(autoresearch_fields(s2) == AutoresearchModel { base_mlp_dim: n, ..autoresearch_fields(s) });
}

/// `--seed N` given last sets `seed` to `N` and leaves every other
/// `autoresearch` option as it was.
pub proof fn law_autoresearch_seed(
    args: Seq<Seq<char>>,
    ok: Seq<bool>,
    value: Seq<char>,
    b1: bool,
    b2: bool,
    n: nat,
)
    requires
        ok.len() == args.len(),
        autoresearch_scan(args, ok) is Some,
        parse_unsigned_spec(value, u64::MAX as nat) == Ok::<nat, IntErrorKind>(n),
    ensures
        autoresearch_scan(args + seq!["--seed"@, value], ok + seq![b1, b2]) == Some(
            AutoresearchModel { seed: n, ..autoresearch_scan(args, ok)->0 },
        ),
{
    let t = autoresearch_table();
    let u = unset_slots(13);
    let s = scan_args(t, args, ok, 0, u)->Ok_0->Done_0;
    lemma_autoresearch_table();
    lemma_scan_append_value(t, args, ok, u, s, 12, value, b1, b2);
    assert(t[12] == Flag { name: "--seed", field: 12, kind: FlagKind::Int });
    let s2 = s.update(12, SlotView::Int(n));
    assert(autoresearch_fields(s2) == AutoresearchModel { seed: n, ..autoresearch_fields(s) });
}

/// `--help` after arguments that were read in full asks for the usage text.
pub proof fn law_autoresearch_help(args: Seq<Seq<char>>, ok: Seq<bool>, b: bool)
    requires
        ok.len() == args.len(),
        autoresearch_scan(args, ok) is Some,
    ensures
        scan_args(autoresearch_table(), args.push("--help"@), ok.push(b), 0, unset_slots(13))
            == Ok::<ScanOutcome, ArgError>(ScanOutcome::Help),
{
    let t = autoresearch_table();
    let u = unset_slots(13);
    let s = scan_args(t, args, ok, 0, u)->Ok_0->Done_0;
    lemma_autoresearch_table();
    lemma_scan_append_flag(t, args, ok, u, s, 13, b);
    assert(t[13] == Flag { name: "--help", field: 0, kind: FlagKind::Help });
}

/// `-h` after arguments that were read in full asks for the usage text.
pub proof fn law_autoresearch_h(args: Seq<Seq<char>>, ok: Seq<bool>, b: bool)
    requires
        ok.len() == args.len(),
        autoresearch_scan(args, ok) is Some,
    ensures
        scan_args(autoresearch_table(), args.push("-h"@), ok.push(b), 0, unset_slots(13))
            == Ok::<ScanOutcome, ArgError>(ScanOutcome::Help),
{
    let t = autoresearch_table();
    let u = unset_slots(13);
    let s = scan_args(t, args, ok, 0, u)->Ok_0->Done_0;
    lemma_autoresearch_table();
    lemma_scan_append_flag(t, args, ok, u, s, 14, b);
    assert(t[14] == Flag { name: "-h", field: 0, kind: FlagKind::Help });
}


/// After arguments that were read in full, a flag that takes a value and comes
/// last is refused for its missing value; an integer flag whose value is not an
/// integer in range is refused with the reason; a floating-point flag whose
/// value is not a floating-point number is refused at the value.
pub proof fn law_scan_refusals(
    table: Seq<Flag>,
    args: Seq<Seq<char>>,
    ok: Seq<bool>,
    slots: Seq<SlotView>,
    s: Seq<SlotView>,
    j: int,
    v: Seq<char>,
    b1: bool,
    b2: bool,
)
    requires
        names_distinct(table),
        table_fits(table, slots.len()),
        0 <= j < table.len(),
        ok.len() == args.len(),
        scan_args(table, args, ok, 0, slots) == Ok::<ScanOutcome, ArgError>(ScanOutcome::Done(s)),
    ensures
        !(table[j].kind is Help || table[j].kind is Switch) ==> scan_args(
            table,
            args.push(table[j].name@),
            ok.push(b1),
            0,
            slots,
        ) == Err::<ScanOutcome, ArgError>(ArgError::MissingValue(args.len() as usize)),
        table[j].kind is Count ==> (parse_unsigned_spec(v, usize::MAX as nat) matches Err(k)
            ==> scan_args(table, args + seq![table[j].name@, v], ok + seq![b1, b2], 0, slots)
            == Err::<ScanOutcome, ArgError>(ArgError::InvalidInteger(k))),
        table[j].kind is Int ==> (parse_unsigned_spec(v, u64::MAX as nat) matches Err(k)
            ==> scan_args(table, args + seq![table[j].name@, v], ok + seq![b1, b2], 0, slots)
            == Err::<ScanOutcome, ArgError>(ArgError::InvalidInteger(k))),
        (table[j].kind is Float && !b2) ==> scan_args(
            table,
            args + seq![table[j].name@, v],
            ok + seq![b1, b2],
            0,
            slots,
        ) == Err::<ScanOutcome, ArgError>(ArgError::InvalidFloat((args.len() + 1) as usize)),
{
    reveal(scan_args);
    let n = args.len();
    let a1 = args.push(table[j].name@);
    let o1 = ok.push(b1);
    let a2 = args + seq![table[j].name@, v];
    let o2 = ok + seq![b1, b2];
    lemma_scan_extend(table, args, ok, a1, o1, 0, slots);
    lemma_scan_extend(table, args, ok, a2, o2, 0, slots);
    lemma_find_distinct(table, j);
    assert(a1[n as int] == table[j].name@);
    assert(a2[n as int] == table[j].name@);
    assert(a2[n as int + 1] == v);
    assert(o2[n as int + 1] == b2);
}

/// After arguments that were read in full, an argument that spells no flag of
/// the table is refused at its position.
pub proof fn law_scan_unknown(
    table: Seq<Flag>,
    args: Seq<Seq<char>>,
    ok: Seq<bool>,
    slots: Seq<SlotView>,
    s: Seq<SlotView>,
    a: Seq<char>,
    b: bool,
)
    requires
        ok.len() == args.len(),
        scan_args(table, args, ok, 0, slots) == Ok::<ScanOutcome, ArgError>(ScanOutcome::Done(s)),
        forall|j: int| 0 <= j < table.len() ==> table[j].name@ != a,
    ensures
        scan_args(table, args.push(a), ok.push(b), 0, slots) == Err::<ScanOutcome, ArgError>(
            ArgError::UnknownArgument(args.len() as usize),
        ),
{
    reveal(scan_args);
    let n = args.len();
    lemma_scan_extend(table, args, ok, args.push(a), ok.push(b), 0, slots);
    lemma_find_flag_found(table, a);
    assert(args.push(a)[n as int] == a);
}

/// The `report` flags are spelled apart and set fields that exist.
pub proof fn lemma_report_table()
    ensures
        names_distinct(report_table()),
        table_fits(report_table(), 1),
{
    reveal(names_distinct);
    reveal_strlit("--runs-dir");
    reveal_strlit("--help");
    reveal_strlit("-h");
    assert("--runs-dir"@.len() == 10);
    assert("--help"@.len() == 6);
    assert("-h"@.len() == 2);
}


/// With no arguments the `report` runs directory is `runs`.
pub proof fn law_report_defaults()
    ensures
        report_scan(seq![]) == Some("runs"@),
{
    reveal(scan_args);
}

/// `--runs-dir D` given last makes `D` the `report` runs directory.
pub proof fn law_report_runs_dir(args: Seq<Seq<char>>, value: Seq<char>)
    requires
        report_scan(args) is Some,
    ensures
        report_scan(args + seq!["--runs-dir"@, value]) == Some(value),
{
    let t = report_table();
    let u = unset_slots(1);
    let ok = Seq::new(args.len(), |i: int| false);
    let a2 = args + seq!["--runs-dir"@, value];
    let s = scan_args(t, args, ok, 0, u)->Ok_0->Done_0;
    lemma_report_table();
    lemma_scan_append_value(t, args, ok, u, s, 0, value, false, false);
    assert(t[0] == Flag { name: "--runs-dir", field: 0, kind: FlagKind::Text });
    assert(ok + seq![false, false] =~= Seq::new(a2.len(), |i: int| false));
}

/// `--help` after arguments that were read in full asks for the usage text.
pub proof fn law_report_help(args: Seq<Seq<char>>)
    requires
        report_scan(args) is Some,
    ensures
        scan_args(report_table(), args.push("--help"@), Seq::new(args.len() + 1, |i: int| false), 0, unset_slots(1))
            == Ok::<ScanOutcome, ArgError>(ScanOutcome::Help),
{
    let t = report_table();
    let u = unset_slots(1);
    let ok = Seq::new(args.len(), |i: int| false);
    let s = scan_args(t, args, ok, 0, u)->Ok_0->Done_0;
    lemma_report_table();
    lemma_scan_append_flag(t, args, ok, u, s, 1, false);
    assert(t[1] == Flag { name: "--help", field: 0, kind: FlagKind::Help });
    assert(ok.push(false) =~= Seq::new(args.len() + 1, |i: int| false));
}

/// `-h` after arguments that were read in full asks for the usage text.
pub proof fn law_report_h(args: Seq<Seq<char>>)
    requires
        report_scan(args) is Some,
    ensures
        scan_args(report_table(), args.push("-h"@), Seq::new(args.len() + 1, |i: int| false), 0, unset_slots(1))
            == Ok::<ScanOutcome, ArgError>(ScanOutcome::Help),
{
    let t = report_table();
    let u = unset_slots(1);
    let ok = Seq::new(args.len(), |i: int| false);
    let s = scan_args(t, args, ok, 0, u)->Ok_0->Done_0;
    lemma_report_table();
    lemma_scan_append_flag(t, args, ok, u, s, 2, false);
    assert(t[2] == Flag { name: "-h", field: 0, kind: FlagKind::Help });
    assert(ok.push(false) =~= Seq::new(args.len() + 1, |i: int| false));
}

} // verus!
