use vstd::prelude::*;

use crate::numbers::{parse_unsigned, parse_unsigned_spec, IntErrorKind};
use crate::text::{chars_of, string_from_chars};

verus! {

/// What a command-line flag takes.
#[derive(Debug, Clone, Copy, PartialEq, Eq)]
pub enum FlagKind {
    /// Asks for the usage text.
    Help,
    /// Sets its field, taking no value.
    Switch,
    /// Takes an unsigned decimal integer that fits in `usize`.
    Count,
    /// Takes an unsigned decimal integer that fits in `u64`.
    Int,
    /// Takes a floating-point number (kept as its text).
    Float,
    /// Takes any text.
    Text,
}

/// A command-line flag: its spelling, the field it sets and what it takes.
#[derive(Debug, Clone, Copy)]
pub struct Flag {
    pub name: &'static str,
    pub field: usize,
    pub kind: FlagKind,
}

/// The value a flag gave a field.
#[derive(Debug, Clone, PartialEq, Eq)]
pub enum Slot {
    /// No flag set the field.
    Unset,
    /// A `usize` integer.
    Count(usize),
    /// A `u64` integer.
    Int(u64),
    /// Text (a path, a description, or the text of a floating-point number).
    Text(Vec<char>),
    /// A switch was given.
    On,
}

/// The value a flag gave a field, as a mathematical value.
pub enum SlotView {
    Unset,
    Count(nat),
    Int(nat),
    Text(Seq<char>),
    On,
}

/// Why the arguments were refused; positions index the arguments.
#[derive(Debug, Clone, Copy, PartialEq, Eq)]
pub enum ArgError {
    /// The flag at this position needs a value and is the last argument.
    MissingValue(usize),
    /// The argument at this position is not a flag of the command.
    UnknownArgument(usize),
    /// An integer value is malformed.
    InvalidInteger(IntErrorKind),
    /// The value at this position is not a floating-point number.
    InvalidFloat(usize),
    /// The options are inconsistent.
    Config(ConfigError),
}

/// Inconsistent integer options.
#[derive(Debug, Clone, Copy, PartialEq, Eq)]
pub enum ConfigError {
    /// A base model dimension is zero.
    ZeroBaseDims,
    /// The number of layers is zero.
    ZeroLayers,
    /// The number of attention heads is zero.
    ZeroHeads,
    /// The model width or the feed-forward width is zero.
    ZeroWidths,
    /// The model width is not a multiple of the number of heads.
    WidthNotDivisible,
}

/// Arguments either ask for the usage text or give options.
#[derive(Debug, Clone, PartialEq, Eq)]
pub enum Parsed<T> {
    Help,
    Run(T),
}

/// Result of reading all the arguments.
pub enum ScanOutcome {
    Help,
    Done(Seq<SlotView>),
}

/// The mathematical value of a slot.
pub open spec fn slot_view(s: Slot) -> SlotView {
    match s {
        Slot::Unset => SlotView::Unset,
        Slot::Count(v) => SlotView::Count(v as nat),
        Slot::Int(v) => SlotView::Int(v as nat),
        Slot::Text(t) => SlotView::Text(t@),
        Slot::On => SlotView::On,
    }
}

/// The mathematical values of slots.
pub open spec fn slot_views(v: Seq<Slot>) -> Seq<SlotView> {
    Seq::new(v.len(), |i: int| slot_view(v[i]))
}

/// The texts of the arguments.
pub open spec fn arg_views(args: Seq<String>) -> Seq<Seq<char>> {
    Seq::new(args.len(), |i: int| args[i]@)
}

/// `n` unset fields.
pub open spec fn unset_slots(n: nat) -> Seq<SlotView> {
    Seq::new(n, |i: int| SlotView::Unset)
}

/// Position of the first flag of `table` spelled `arg`.
pub open spec fn find_flag(table: Seq<Flag>, arg: Seq<char>) -> Option<nat>
    decreases table.len(),
{
    if table.len() == 0 {
        None
    } else {
        match find_flag(table.drop_last(), arg) {
            Some(j) => Some(j),
            None => if table.last().name@ == arg {
                Some((table.len() - 1) as nat)
            } else {
                None
            },
        }
    }
}

/// Reads `args` from position `i` on, the fields so far being `slots`:
/// each argument must be a flag of `table`; a flag that takes a value takes
/// the next argument; a later flag for a field replaces an earlier one; a
/// help flag ends the reading.
#[verifier::opaque]
pub open spec fn scan_args(
    table: Seq<Flag>,
    args: Seq<Seq<char>>,
    float_ok: Seq<bool>,
    i: nat,
    slots: Seq<SlotView>,
) -> Result<ScanOutcome, ArgError>
    decreases args.len() - i,
{
    if i >= args.len() {
        Ok(ScanOutcome::Done(slots))
    } else {
        match find_flag(table, args[i as int]) {
            None => Err(ArgError::UnknownArgument(i as usize)),
            Some(j) => {
                let f = table[j as int];
                match f.kind {
                    FlagKind::Help => Ok(ScanOutcome::Help),
                    FlagKind::Switch => scan_args(
                        table,
                        args,
                        float_ok,
                        i + 1,
                        slots.update(f.field as int, SlotView::On),
                    ),
                    FlagKind::Count => if i + 1 >= args.len() {
                        Err(ArgError::MissingValue(i as usize))
                    } else {
                        match parse_unsigned_spec(args[i as int + 1], usize::MAX as nat) {
                            Err(k) => Err(ArgError::InvalidInteger(k)),
                            Ok(v) => scan_args(
                                table,
                                args,
                                float_ok,
                                i + 2,
                                slots.update(f.field as int, SlotView::Count(v)),
                            ),
                        }
                    },
                    FlagKind::Int => if i + 1 >= args.len() {
                        Err(ArgError::MissingValue(i as usize))
                    } else {
                        match parse_unsigned_spec(args[i as int + 1], u64::MAX as nat) {
                            Err(k) => Err(ArgError::InvalidInteger(k)),
                            Ok(v) => scan_args(
                                table,
                                args,
                                float_ok,
                                i + 2,
                                slots.update(f.field as int, SlotView::Int(v)),
                            ),
                        }
                    },
                    FlagKind::Float => if i + 1 >= args.len() {
                        Err(ArgError::MissingValue(i as usize))
                    } else if !float_ok[i as int + 1] {
                        Err(ArgError::InvalidFloat((i + 1) as usize))
                    } else {
                        scan_args(
                            table,
                            args,
                            float_ok,
                            i + 2,
                            slots.update(f.field as int, SlotView::Text(args[i as int + 1])),
                        )
                    },
                    FlagKind::Text => if i + 1 >= args.len() {
                        Err(ArgError::MissingValue(i as usize))
                    } else {
                        scan_args(
                            table,
                            args,
                            float_ok,
                            i + 2,
                            slots.update(f.field as int, SlotView::Text(args[i as int + 1])),
                        )
                    },
                }
            },
        }
    }
}

/// Every flag of `table` sets one of `n` fields.
pub open spec fn table_fits(table: Seq<Flag>, n: nat) -> bool {
    forall|j: int| 0 <= j < table.len() ==> (#[trigger] table[j]).field < n
}

/// `a` and `b` hold the same characters in the same order.
fn same_text(a: &Vec<char>, b: &Vec<char>) -> (r: bool)
    ensures
        r == (a@ == b@),
{
    if a.len() != b.len() {
        return false;
    }
    let mut i: usize = 0;
    while i < a.len()
        invariant
            i <= a.len() == b.len(),
            a@.take(i as int) == b@.take(i as int),
        decreases a.len() - i,
    {
        if a[i] != b[i] {
            return false;
        }
        assert(a@.take(i + 1) =~= a@.take(i as int).push(a@[i as int]));
        assert(b@.take(i + 1) =~= b@.take(i as int).push(b@[i as int]));
        i = i + 1;
    }
    assert(a@.take(i as int) =~= a@);
    assert(b@.take(i as int) =~= b@);
    true
}

/// Position of the first flag of `table` spelled `arg`.
fn lookup_flag(table: &Vec<Flag>, arg: &Vec<char>) -> (r: Option<usize>)
    ensures
        r matches Some(j) ==> find_flag(table@, arg@) == Some(j as nat) && j < table@.len(),
        r is None ==> find_flag(table@, arg@) is None,
{
    proof {
        lemma_find_flag_found(table@, arg@);
    }
    let mut j: usize = 0;
    while j < table.len()
        invariant
            j <= table.len(),
            find_flag(table@.take(j as int), arg@) is None,
        decreases table.len() - j,
    {
        let name = chars_of(table[j].name);
        assert(table@.take(j + 1).drop_last() =~= table@.take(j as int));
        assert(table@.take(j + 1).last() == table@[j as int]);
        if same_text(&name, arg) {
            proof {
                assert(find_flag(table@.take(j + 1), arg@) == Some(j as nat));
                lemma_find_flag_prefix(table@, j as int + 1, arg@);
            }
            return Some(j);
        }
        j = j + 1;
    }
    assert(table@.take(j as int) =~= table@);
    None
}

/// A flag found in a prefix of a table is the flag found in the table.
proof fn lemma_find_flag_prefix(table: Seq<Flag>, k: int, arg: Seq<char>)
    requires
        0 <= k <= table.len(),
        find_flag(table.take(k), arg) is Some,
    ensures
        find_flag(table, arg) == find_flag(table.take(k), arg),
    decreases table.len() - k,
{
    if k < table.len() {
        assert(table.take(k + 1).drop_last() =~= table.take(k));
        lemma_find_flag_prefix(table, k + 1, arg);
    } else {
        assert(table.take(k) =~= table);
    }
}

/// A found flag is in the table and has the searched spelling.
pub proof fn lemma_find_flag_found(table: Seq<Flag>, arg: Seq<char>)
    ensures
        find_flag(table, arg) matches Some(j) ==> j < table.len() && table[j as int].name@ == arg,
    decreases table.len(),
{
    if table.len() > 0 {
        lemma_find_flag_found(table.drop_last(), arg);
    }
}

/// Reads the arguments against `table`, filling `n` fields.
pub fn scan_arguments(table: &Vec<Flag>, n: usize, args: &Vec<String>, float_ok: &Vec<bool>) -> (r:
    Result<Parsed<Vec<Slot>>, ArgError>)
    requires
        table_fits(table@, n as nat),
        float_ok@.len() == args@.len(),
    ensures
        match scan_args(table@, arg_views(args@), float_ok@, 0, unset_slots(n as nat)) {
            Err(e) => r == Err::<Parsed<Vec<Slot>>, ArgError>(e),
            Ok(ScanOutcome::Help) => r == Ok::<Parsed<Vec<Slot>>, ArgError>(Parsed::Help),
            Ok(ScanOutcome::Done(s)) => r matches Ok(Parsed::Run(v)) && slot_views(v@) == s,
        },
        r matches Ok(Parsed::Run(v)) ==> v@.len() == n,
{
    reveal(scan_args);
    let ghost av = arg_views(args@);
    let mut slots: Vec<Slot> = Vec::new();
    let mut k: usize = 0;
    while k < n
        invariant
            k <= n,
            slots@.len() == k,
            slot_views(slots@) == unset_slots(k as nat),
        decreases n - k,
    {
        let ghost prev = slots@;
        slots.push(Slot::Unset);
        assert(slots@ == prev.push(Slot::Unset));
        assert forall|m: int| 0 <= m < k + 1 implies slot_views(slots@)[m] == SlotView::Unset by {
            if m < k {
                assert(slots@[m] == prev[m]);
                assert(slot_views(prev)[m] == unset_slots(k as nat)[m]);
            }
        }
        assert(slot_views(slots@) =~= unset_slots(k as nat + 1));
        k = k + 1;
    }
    let mut i: usize = 0;
    while i < args.len()
        invariant
            table_fits(table@, n as nat),
            float_ok@.len() == args@.len(),
            av == arg_views(args@),
            slots@.len() == n,
            scan_args(table@, av, float_ok@, i as nat, slot_views(slots@)) == scan_args(
                table@,
                av,
                float_ok@,
                0,
                unset_slots(n as nat),
            ),
        decreases args.len() - i,
    {
        proof {
            reveal(scan_args);
        }
        let arg = chars_of(args[i].as_str());
        assert(av[i as int] == arg@);
        let found = lookup_flag(table, &arg);
        match found {
            None => {
                return Err(ArgError::UnknownArgument(i));
            },
            Some(j) => {
                let f = table[j];
                assert(f.field < n);
                match f.kind {
                    FlagKind::Help => {
                        assert(find_flag(table@, av[i as int]) == Some(j as nat));
                        assert(scan_args(table@, av, float_ok@, i as nat, slot_views(slots@)) == Ok::<
                            ScanOutcome,
                            ArgError,
                        >(ScanOutcome::Help));
                        return Ok(Parsed::Help);
                    },
                    FlagKind::Switch => {
                        let ghost before = slot_views(slots@);
                        slots.set(f.field, Slot::On);
                        assert(slot_views(slots@) =~= before.update(f.field as int, SlotView::On));
                        i = i + 1;
                    },
                    FlagKind::Count => {
                        if i + 1 >= args.len() {
                            return Err(ArgError::MissingValue(i));
                        }
                        let value = chars_of(args[i + 1].as_str());
                        assert(av[i + 1] == value@);
                        assert(usize::MAX as u64 as nat == usize::MAX as nat);
                        match parse_unsigned(value.as_slice(), usize::MAX as u64) {
                            Err(e) => {
                                return Err(ArgError::InvalidInteger(e));
                            },
                            Ok(v) => {
                                let ghost before = slot_views(slots@);
                                let c = v as usize;
                                slots.set(f.field, Slot::Count(c));
                                assert(slot_views(slots@) =~= before.update(
                                    f.field as int,
                                    SlotView::Count(v as nat),
                                ));
                                i = i + 2;
                            },
                        }
                    },
                    FlagKind::Int => {
                        if i + 1 >= args.len() {
                            return Err(ArgError::MissingValue(i));
                        }
                        let value = chars_of(args[i + 1].as_str());
                        assert(av[i + 1] == value@);
                        assert(u64::MAX as nat == 0xFFFF_FFFF_FFFF_FFFF);
                        match parse_unsigned(value.as_slice(), u64::MAX) {
                            Err(e) => {
                                return Err(ArgError::InvalidInteger(e));
                            },
                            Ok(v) => {
                                let ghost before = slot_views(slots@);
                                slots.set(f.field, Slot::Int(v));
                                assert(slot_views(slots@) =~= before.update(
                                    f.field as int,
                                    SlotView::Int(v as nat),
                                ));
                                i = i + 2;
                            },
                        }
                    },
                    FlagKind::Float => {
                        if i + 1 >= args.len() {
                            return Err(ArgError::MissingValue(i));
                        }
                        if !float_ok[i + 1] {
                            return Err(ArgError::InvalidFloat(i + 1));
                        }
                        let value = chars_of(args[i + 1].as_str());
                        assert(av[i + 1] == value@);
                        let ghost before = slot_views(slots@);
                        let ghost vv = value@;
                        slots.set(f.field, Slot::Text(value));
                        assert(slot_views(slots@) =~= before.update(
                            f.field as int,
                            SlotView::Text(vv),
                        ));
                        i = i + 2;
                    },
                    FlagKind::Text => {
                        if i + 1 >= args.len() {
                            return Err(ArgError::MissingValue(i));
                        }
                        let value = chars_of(args[i + 1].as_str());
                        assert(av[i + 1] == value@);
                        let ghost before = slot_views(slots@);
                        let ghost vv = value@;
                        slots.set(f.field, Slot::Text(value));
                        assert(slot_views(slots@) =~= before.update(
                            f.field as int,
                            SlotView::Text(vv),
                        ));
                        i = i + 2;
                    },
                }
            },
        }
    }
    proof {
        reveal(scan_args);
    }
    Ok(Parsed::Run(slots))
}

/// The `usize` value given to field `f`, or `d`.
pub open spec fn count_or(slots: Seq<SlotView>, f: int, d: nat) -> nat {
    match slots[f] {
        SlotView::Count(v) => v,
        _ => d,
    }
}

/// The `u64` value given to field `f`, or `d`.
pub open spec fn int_or(slots: Seq<SlotView>, f: int, d: nat) -> nat {
    match slots[f] {
        SlotView::Int(v) => v,
        _ => d,
    }
}

/// The text given to field `f`, or `d`.
pub open spec fn text_or(slots: Seq<SlotView>, f: int, d: Seq<char>) -> Seq<char> {
    match slots[f] {
        SlotView::Text(t) => t,
        _ => d,
    }
}

/// The text given to field `f`, if any.
pub open spec fn text_opt(slots: Seq<SlotView>, f: int) -> Option<Seq<char>> {
    match slots[f] {
        SlotView::Text(t) => Some(t),
        _ => None,
    }
}

/// Field `f` was switched on.
pub open spec fn is_on(slots: Seq<SlotView>, f: int) -> bool {
    slots[f] is On
}

/// `o` holds the text `t`, if any.
pub open spec fn opt_text_is(o: Option<String>, t: Option<Seq<char>>) -> bool {
    match t {
        Some(v) => o matches Some(s) && s@ == v,
        None => o is None,
    }
}

fn get_count(slots: &Vec<Slot>, f: usize, d: usize) -> (r: usize)
    requires
        f < slots@.len(),
    ensures
        r as nat == count_or(slot_views(slots@), f as int, d as nat),
{
    match &slots[f] {
        Slot::Count(v) => *v,
        _ => d,
    }
}

fn get_int(slots: &Vec<Slot>, f: usize, d: u64) -> (r: u64)
    requires
        f < slots@.len(),
    ensures
        r as nat == int_or(slot_views(slots@), f as int, d as nat),
{
    match &slots[f] {
        Slot::Int(v) => *v,
        _ => d,
    }
}

fn get_text(slots: &Vec<Slot>, f: usize, d: &str) -> (r: String)
    requires
        f < slots@.len(),
    ensures
        r@ == text_or(slot_views(slots@), f as int, d@),
{
    match &slots[f] {
        Slot::Text(t) => string_from_chars(t),
        _ => {
            let c = chars_of(d);
            string_from_chars(&c)
        },
    }
}

fn get_text_opt(slots: &Vec<Slot>, f: usize) -> (r: Option<String>)
    requires
        f < slots@.len(),
    ensures
        opt_text_is(r, text_opt(slot_views(slots@), f as int)),
{
    match &slots[f] {
        Slot::Text(t) => Some(string_from_chars(t)),
        _ => None,
    }
}

fn get_on(slots: &Vec<Slot>, f: usize) -> (r: bool)
    requires
        f < slots@.len(),
    ensures
        r == is_on(slot_views(slots@), f as int),
{
    match &slots[f] {
        Slot::On => true,
        _ => false,
    }
}

/// `false` for each argument.
fn no_floats(args: &Vec<String>) -> (r: Vec<bool>)
    ensures
        r@ == Seq::new(args@.len(), |i: int| false),
{
    let mut r: Vec<bool> = Vec::new();
    let mut i: usize = 0;
    while i < args.len()
        invariant
            i <= args@.len(),
            r@ == Seq::new(i as nat, |k: int| false),
        decreases args.len() - i,
    {
        r.push(false);
        assert(r@ =~= Seq::new(i as nat + 1, |k: int| false));
        i = i + 1;
    }
    r
}

// ---------------------------------------------------------------- report

/// Flags of the `report` command.
pub open spec fn report_table() -> Seq<Flag> {
    seq![
        Flag { name: "--runs-dir", field: 0, kind: FlagKind::Text },
        Flag { name: "--help", field: 0, kind: FlagKind::Help },
        Flag { name: "-h", field: 0, kind: FlagKind::Help },
    ]
}

fn report_flags() -> (r: Vec<Flag>)
    ensures
        r@ == report_table(),
{
    let r = vec![
        Flag { name: "--runs-dir", field: 0, kind: FlagKind::Text },
        Flag { name: "--help", field: 0, kind: FlagKind::Help },
        Flag { name: "-h", field: 0, kind: FlagKind::Help },
    ];
    assert(r@ =~= report_table());
    r
}

/// Reads the arguments of the `report` command: the runs directory
/// (`--runs-dir`, default `runs`), or a request for help.
pub fn parse_report_args(args: &Vec<String>) -> (r: Result<Parsed<String>, ArgError>)
    ensures
        match scan_args(
            report_table(),
            arg_views(args@),
            Seq::new(args@.len(), |i: int| false),
            0,
            unset_slots(1),
        ) {
            Err(e) => r == Err::<Parsed<String>, ArgError>(e),
            Ok(ScanOutcome::Help) => r == Ok::<Parsed<String>, ArgError>(Parsed::Help),
            Ok(ScanOutcome::Done(s)) => r matches Ok(Parsed::Run(d)) && d@ == text_or(s, 0, "runs"@),
        },
        r matches Ok(Parsed::Run(d)) ==> report_scan(arg_views(args@)) == Some(d@),
        report_scan(arg_views(args@)) is Some ==> r matches Ok(Parsed::Run(_)),
{
    let table = report_flags();
    let floats = no_floats(args);
    match scan_arguments(&table, 1, args, &floats) {
        Err(e) => Err(e),
        Ok(Parsed::Help) => Ok(Parsed::Help),
        Ok(Parsed::Run(slots)) => Ok(Parsed::Run(get_text(&slots, 0, "runs"))),
    }
}

// ---------------------------------------------------------------- prepare

/// Corpus downloaded by default.
pub const DEFAULT_CORPUS_URL: &'static str =
    "https://raw.githubusercontent.com/karpathy/char-rnn/master/data/tinyshakespeare/input.txt";

/// Options of the `prepare` command (the validation fraction is kept as its
/// text; absent means the default).
#[derive(Debug, Clone, PartialEq, Eq)]
pub struct PrepareOptions {
    pub artifacts_dir: String,
    pub corpus_url: String,
    pub val_fraction: Option<String>,
    pub force_download: bool,
}

/// Flags of the `prepare` command.
pub open spec fn prepare_table() -> Seq<Flag> {
    seq![
        Flag { name: "--artifacts-dir", field: 0, kind: FlagKind::Text },
        Flag { name: "--corpus-url", field: 1, kind: FlagKind::Text },
        Flag { name: "--val-fraction", field: 2, kind: FlagKind::Float },
        Flag { name: "--force-download", field: 3, kind: FlagKind::Switch },
        Flag { name: "--help", field: 0, kind: FlagKind::Help },
        Flag { name: "-h", field: 0, kind: FlagKind::Help },
    ]
}

fn prepare_flags() -> (r: Vec<Flag>)
    ensures
        r@ == prepare_table(),
{
    let r = vec![
        Flag { name: "--artifacts-dir", field: 0, kind: FlagKind::Text },
        Flag { name: "--corpus-url", field: 1, kind: FlagKind::Text },
        Flag { name: "--val-fraction", field: 2, kind: FlagKind::Float },
        Flag { name: "--force-download", field: 3, kind: FlagKind::Switch },
        Flag { name: "--help", field: 0, kind: FlagKind::Help },
        Flag { name: "-h", field: 0, kind: FlagKind::Help },
    ];
    assert(r@ =~= prepare_table());
    r
}

/// `o` holds the `prepare` options that the fields `s` give.
pub open spec fn prepare_options_are(o: PrepareOptions, s: Seq<SlotView>) -> bool {
    &&& o.artifacts_dir@ == text_or(s, 0, "artifacts"@)
    &&& o.corpus_url@ == text_or(s, 1, DEFAULT_CORPUS_URL@)
    &&& opt_text_is(o.val_fraction, text_opt(s, 2))
    &&& o.force_download == is_on(s, 3)
}

/// Reads the arguments of the `prepare` command; `float_ok[i]` tells
/// whether argument `i` is a floating-point number.
pub fn parse_prepare_args(args: &Vec<String>, float_ok: &Vec<bool>) -> (r: Result<
    Parsed<PrepareOptions>,
    ArgError,
>)
    requires
        float_ok@.len() == args@.len(),
    ensures
        match scan_args(prepare_table(), arg_views(args@), float_ok@, 0, unset_slots(4)) {
            Err(e) => r == Err::<Parsed<PrepareOptions>, ArgError>(e),
            Ok(ScanOutcome::Help) => r == Ok::<Parsed<PrepareOptions>, ArgError>(Parsed::Help),
            Ok(ScanOutcome::Done(s)) => r matches Ok(Parsed::Run(o)) && prepare_options_are(o, s),
        },
        r matches Ok(Parsed::Run(o)) ==> prepare_scan(arg_views(args@), float_ok@) == Some(o@),
        prepare_scan(arg_views(args@), float_ok@) is Some ==> r matches Ok(Parsed::Run(_)),
{
    let table = prepare_flags();
    match scan_arguments(&table, 4, args, float_ok) {
        Err(e) => Err(e),
        Ok(Parsed::Help) => Ok(Parsed::Help),
        Ok(Parsed::Run(slots)) => Ok(
            Parsed::Run(
                PrepareOptions {
                    artifacts_dir: get_text(&slots, 0, "artifacts"),
                    corpus_url: get_text(&slots, 1, DEFAULT_CORPUS_URL),
                    val_fraction: get_text_opt(&slots, 2),
                    force_download: get_on(&slots, 3),
                },
            ),
        ),
    }
}

// ---------------------------------------------------------------- autoresearch

/// Options of the `autoresearch` command (floating-point options kept as
/// their text; absent means the default).
#[derive(Debug, Clone, PartialEq, Eq)]
pub struct AutoresearchOptions {
    pub experiments: usize,
    pub artifacts_dir: String,
    pub runs_dir: String,
    pub time_budget_seconds: u64,
    pub base_batch_size: usize,
    pub base_seq_len: usize,
    pub base_learning_rate: Option<String>,
    pub base_lr_warmup_steps: u64,
    pub base_lr_final_scale: Option<String>,
    pub base_grad_clip_norm: Option<String>,
    pub base_model_dim: usize,
    pub base_mlp_dim: usize,
    pub seed: u64,
}

/// Flags of the `autoresearch` command.
pub open spec fn autoresearch_table() -> Seq<Flag> {
    seq![
        Flag { name: "--experiments", field: 0, kind: FlagKind::Count },
        Flag { name: "--artifacts-dir", field: 1, kind: FlagKind::Text },
        Flag { name: "--runs-dir", field: 2, kind: FlagKind::Text },
        Flag { name: "--time-budget-seconds", field: 3, kind: FlagKind::Int },
        Flag { name: "--base-batch-size", field: 4, kind: FlagKind::Count },
        Flag { name: "--base-seq-len", field: 5, kind: FlagKind::Count },
        Flag { name: "--base-learning-rate", field: 6, kind: FlagKind::Float },
        Flag { name: "--base-lr-warmup-steps", field: 7, kind: FlagKind::Int },
        Flag { name: "--base-lr-final-scale", field: 8, kind: FlagKind::Float },
        Flag { name: "--base-grad-clip-norm", field: 9, kind: FlagKind::Float },
        Flag { name: "--base-model-dim", field: 10, kind: FlagKind::Count },
        Flag { name: "--base-mlp-dim", field: 11, kind: FlagKind::Count },
        Flag { name: "--seed", field: 12, kind: FlagKind::Int },
        Flag { name: "--help", field: 0, kind: FlagKind::Help },
        Flag { name: "-h", field: 0, kind: FlagKind::Help },
    ]
}

fn autoresearch_flags() -> (r: Vec<Flag>)
    ensures
        r@ == autoresearch_table(),
{
    let r = vec![
        Flag { name: "--experiments", field: 0, kind: FlagKind::Count },
        Flag { name: "--artifacts-dir", field: 1, kind: FlagKind::Text },
        Flag { name: "--runs-dir", field: 2, kind: FlagKind::Text },
        Flag { name: "--time-budget-seconds", field: 3, kind: FlagKind::Int },
        Flag { name: "--base-batch-size", field: 4, kind: FlagKind::Count },
        Flag { name: "--base-seq-len", field: 5, kind: FlagKind::Count },
        Flag { name: "--base-learning-rate", field: 6, kind: FlagKind::Float },
        Flag { name: "--base-lr-warmup-steps", field: 7, kind: FlagKind::Int },
        Flag { name: "--base-lr-final-scale", field: 8, kind: FlagKind::Float },
        Flag { name: "--base-grad-clip-norm", field: 9, kind: FlagKind::Float },
        Flag { name: "--base-model-dim", field: 10, kind: FlagKind::Count },
        Flag { name: "--base-mlp-dim", field: 11, kind: FlagKind::Count },
        Flag { name: "--seed", field: 12, kind: FlagKind::Int },
        Flag { name: "--help", field: 0, kind: FlagKind::Help },
        Flag { name: "-h", field: 0, kind: FlagKind::Help },
    ];
    assert(r@ =~= autoresearch_table());
    r
}

/// `o` holds the `autoresearch` options that the fields `s` give.
pub open spec fn autoresearch_options_are(o: AutoresearchOptions, s: Seq<SlotView>) -> bool {
    &&& o.experiments as nat == count_or(s, 0, 10)
    &&& o.artifacts_dir@ == text_or(s, 1, "artifacts"@)
    &&& o.runs_dir@ == text_or(s, 2, "runs"@)
    &&& o.time_budget_seconds as nat == int_or(s, 3, 300)
    &&& o.base_batch_size as nat == count_or(s, 4, 32)
    &&& o.base_seq_len as nat == count_or(s, 5, 64)
    &&& opt_text_is(o.base_learning_rate, text_opt(s, 6))
    &&& o.base_lr_warmup_steps as nat == int_or(s, 7, 200)
    &&& opt_text_is(o.base_lr_final_scale, text_opt(s, 8))
    &&& opt_text_is(o.base_grad_clip_norm, text_opt(s, 9))
    &&& o.base_model_dim as nat == count_or(s, 10, 32)
    &&& o.base_mlp_dim as nat == count_or(s, 11, 64)
    &&& o.seed as nat == int_or(s, 12, 1337)
}

/// Reads the arguments of the `autoresearch` command; `float_ok[i]` tells
/// whether argument `i` is a floating-point number. Zero base model
/// dimensions are refused.
pub fn parse_autoresearch_args(args: &Vec<String>, float_ok: &Vec<bool>) -> (r: Result<
    Parsed<AutoresearchOptions>,
    ArgError,
>)
    requires
        float_ok@.len() == args@.len(),
    ensures
        match scan_args(autoresearch_table(), arg_views(args@), float_ok@, 0, unset_slots(13)) {
            Err(e) => r == Err::<Parsed<AutoresearchOptions>, ArgError>(e),
            Ok(ScanOutcome::Help) => r == Ok::<Parsed<AutoresearchOptions>, ArgError>(Parsed::Help),
            Ok(ScanOutcome::Done(s)) => if count_or(s, 10, 32) == 0 || count_or(s, 11, 64) == 0 {
                r == Err::<Parsed<AutoresearchOptions>, ArgError>(
                    ArgError::Config(ConfigError::ZeroBaseDims),
                )
            } else {
                r matches Ok(Parsed::Run(o)) && autoresearch_options_are(o, s)
            },
        },
        r matches Ok(Parsed::Run(o)) ==> autoresearch_scan(arg_views(args@), float_ok@) == Some(o@),
        autoresearch_scan(arg_views(args@), float_ok@) matches Some(m) ==> match autoresearch_model_error(m) {
            Some(e) => r == Err::<Parsed<AutoresearchOptions>, ArgError>(ArgError::Config(e)),
            None => r matches Ok(Parsed::Run(_)),
        },
{
    let table = autoresearch_flags();
    match scan_arguments(&table, 13, args, float_ok) {
        Err(e) => Err(e),
        Ok(Parsed::Help) => Ok(Parsed::Help),
        Ok(Parsed::Run(slots)) => {
            let o = AutoresearchOptions {
                experiments: get_count(&slots, 0, 10),
                artifacts_dir: get_text(&slots, 1, "artifacts"),
                runs_dir: get_text(&slots, 2, "runs"),
                time_budget_seconds: get_int(&slots, 3, DEFAULT_TIME_BUDGET_SECONDS),
                base_batch_size: get_count(&slots, 4, DEFAULT_BATCH_SIZE),
                base_seq_len: get_count(&slots, 5, DEFAULT_SEQ_LEN),
                base_learning_rate: get_text_opt(&slots, 6),
                base_lr_warmup_steps: get_int(&slots, 7, 200),
                base_lr_final_scale: get_text_opt(&slots, 8),
                base_grad_clip_norm: get_text_opt(&slots, 9),
                base_model_dim: get_count(&slots, 10, 32),
                base_mlp_dim: get_count(&slots, 11, 64),
                seed: get_int(&slots, 12, 1337),
            };
            if o.base_model_dim == 0 || o.base_mlp_dim == 0 {
                return Err(ArgError::Config(ConfigError::ZeroBaseDims));
            }
            Ok(Parsed::Run(o))
        },
    }
}

// ---------------------------------------------------------------- train

/// Default time budget of a training run, in seconds.
pub const DEFAULT_TIME_BUDGET_SECONDS: u64 = 300;

/// Default number of tokens per training window.
pub const DEFAULT_SEQ_LEN: usize = 64;

/// Default number of windows per batch.
pub const DEFAULT_BATCH_SIZE: usize = 32;

/// Options of the `train` command (floating-point options kept as their
/// text; absent means the default).
#[derive(Debug, Clone, PartialEq, Eq)]
pub struct TrainOptions {
    pub artifacts_dir: String,
    pub runs_dir: String,
    pub time_budget_seconds: u64,
    pub batch_size: usize,
    pub seq_len: usize,
    pub learning_rate: Option<String>,
    pub lr_warmup_steps: u64,
    pub lr_min_scale: Option<String>,
    pub grad_clip_norm: Option<String>,
    pub n_layers: usize,
    pub n_heads: usize,
    pub d_model: usize,
    pub d_ff: usize,
    pub dropout: Option<String>,
    pub weight_decay: Option<String>,
    pub eval_interval: u64,
    pub eval_batches: usize,
    pub seed: u64,
    pub description: String,
}

/// Flags of the `train` command.
pub open spec fn train_table() -> Seq<Flag> {
    seq![
        Flag { name: "--artifacts-dir", field: 0, kind: FlagKind::Text },
        Flag { name: "--runs-dir", field: 1, kind: FlagKind::Text },
        Flag { name: "--time-budget-seconds", field: 2, kind: FlagKind::Int },
        Flag { name: "--batch-size", field: 3, kind: FlagKind::Count },
        Flag { name: "--seq-len", field: 4, kind: FlagKind::Count },
        Flag { name: "--learning-rate", field: 5, kind: FlagKind::Float },
        Flag { name: "--lr-warmup-steps", field: 6, kind: FlagKind::Int },
        Flag { name: "--lr-final-scale", field: 7, kind: FlagKind::Float },
        Flag { name: "--lr-min-scale", field: 7, kind: FlagKind::Float },
        Flag { name: "--grad-clip-norm", field: 8, kind: FlagKind::Float },
        Flag { name: "--model-dim", field: 11, kind: FlagKind::Count },
        Flag { name: "--d-model", field: 11, kind: FlagKind::Count },
        Flag { name: "--mlp-dim", field: 12, kind: FlagKind::Count },
        Flag { name: "--d-ff", field: 12, kind: FlagKind::Count },
        Flag { name: "--n-layers", field: 9, kind: FlagKind::Count },
        Flag { name: "--n-heads", field: 10, kind: FlagKind::Count },
        Flag { name: "--dropout", field: 13, kind: FlagKind::Float },
        Flag { name: "--weight-decay", field: 14, kind: FlagKind::Float },
        Flag { name: "--eval-interval", field: 15, kind: FlagKind::Int },
        Flag { name: "--eval-batches", field: 16, kind: FlagKind::Count },
        Flag { name: "--seed", field: 17, kind: FlagKind::Int },
        Flag { name: "--description", field: 18, kind: FlagKind::Text },
        Flag { name: "--help", field: 0, kind: FlagKind::Help },
        Flag { name: "-h", field: 0, kind: FlagKind::Help },
    ]
}

fn train_flags() -> (r: Vec<Flag>)
    ensures
        r@ == train_table(),
{
    let r = vec![
        Flag { name: "--artifacts-dir", field: 0, kind: FlagKind::Text },
        Flag { name: "--runs-dir", field: 1, kind: FlagKind::Text },
        Flag { name: "--time-budget-seconds", field: 2, kind: FlagKind::Int },
        Flag { name: "--batch-size", field: 3, kind: FlagKind::Count },
        Flag { name: "--seq-len", field: 4, kind: FlagKind::Count },
        Flag { name: "--learning-rate", field: 5, kind: FlagKind::Float },
        Flag { name: "--lr-warmup-steps", field: 6, kind: FlagKind::Int },
        Flag { name: "--lr-final-scale", field: 7, kind: FlagKind::Float },
        Flag { name: "--lr-min-scale", field: 7, kind: FlagKind::Float },
        Flag { name: "--grad-clip-norm", field: 8, kind: FlagKind::Float },
        Flag { name: "--model-dim", field: 11, kind: FlagKind::Count },
        Flag { name: "--d-model", field: 11, kind: FlagKind::Count },
        Flag { name: "--mlp-dim", field: 12, kind: FlagKind::Count },
        Flag { name: "--d-ff", field: 12, kind: FlagKind::Count },
        Flag { name: "--n-layers", field: 9, kind: FlagKind::Count },
        Flag { name: "--n-heads", field: 10, kind: FlagKind::Count },
        Flag { name: "--dropout", field: 13, kind: FlagKind::Float },
        Flag { name: "--weight-decay", field: 14, kind: FlagKind::Float },
        Flag { name: "--eval-interval", field: 15, kind: FlagKind::Int },
        Flag { name: "--eval-batches", field: 16, kind: FlagKind::Count },
        Flag { name: "--seed", field: 17, kind: FlagKind::Int },
        Flag { name: "--description", field: 18, kind: FlagKind::Text },
        Flag { name: "--help", field: 0, kind: FlagKind::Help },
        Flag { name: "-h", field: 0, kind: FlagKind::Help },
    ];
    assert(r@ =~= train_table());
    r
}

/// The description of a training run when none is given.
pub const DEFAULT_DESCRIPTION: &'static str = "tiny GPT (candle, adamw, cosine-warmup schedule)";

/// `o` holds the `train` options that the fields `s` give.
pub open spec fn train_options_are(o: TrainOptions, s: Seq<SlotView>) -> bool {
    &&& o.artifacts_dir@ == text_or(s, 0, "artifacts"@)
    &&& o.runs_dir@ == text_or(s, 1, "runs"@)
    &&& o.time_budget_seconds as nat == int_or(s, 2, DEFAULT_TIME_BUDGET_SECONDS as nat)
    &&& o.batch_size as nat == count_or(s, 3, DEFAULT_BATCH_SIZE as nat)
    &&& o.seq_len as nat == count_or(s, 4, DEFAULT_SEQ_LEN as nat)
    &&& opt_text_is(o.learning_rate, text_opt(s, 5))
    &&& o.lr_warmup_steps as nat == int_or(s, 6, 200)
    &&& opt_text_is(o.lr_min_scale, text_opt(s, 7))
    &&& opt_text_is(o.grad_clip_norm, text_opt(s, 8))
    &&& o.n_layers as nat == count_or(s, 9, 2)
    &&& o.n_heads as nat == count_or(s, 10, 4)
    &&& o.d_model as nat == count_or(s, 11, 64)
    &&& o.d_ff as nat == count_or(s, 12, 256)
    &&& opt_text_is(o.dropout, text_opt(s, 13))
    &&& opt_text_is(o.weight_decay, text_opt(s, 14))
    &&& o.eval_interval as nat == int_or(s, 15, 250)
    &&& o.eval_batches as nat == count_or(s, 16, 64)
    &&& o.seed as nat == int_or(s, 17, 1337)
    &&& o.description@ == text_or(s, 18, DEFAULT_DESCRIPTION@)
}

/// The first inconsistency among the integer `train` options the fields `s`
/// give, checked in order: layers, heads, widths, divisibility.
pub open spec fn train_config_error(s: Seq<SlotView>) -> Option<ConfigError> {
    let n_layers = count_or(s, 9, 2);
    let n_heads = count_or(s, 10, 4);
    let d_model = count_or(s, 11, 64);
    let d_ff = count_or(s, 12, 256);
    if n_layers == 0 {
        Some(ConfigError::ZeroLayers)
    } else if n_heads == 0 {
        Some(ConfigError::ZeroHeads)
    } else if d_model == 0 || d_ff == 0 {
        Some(ConfigError::ZeroWidths)
    } else if d_model % n_heads != 0 {
        Some(ConfigError::WidthNotDivisible)
    } else {
        None
    }
}

/// Reads the arguments of the `train` command; `float_ok[i]` tells whether
/// argument `i` is a floating-point number. Inconsistent integer options are
/// refused.
pub fn parse_train_args(args: &Vec<String>, float_ok: &Vec<bool>) -> (r: Result<
    Parsed<TrainOptions>,
    ArgError,
>)
    requires
        float_ok@.len() == args@.len(),
    ensures
        match scan_args(train_table(), arg_views(args@), float_ok@, 0, unset_slots(19)) {
            Err(e) => r == Err::<Parsed<TrainOptions>, ArgError>(e),
            Ok(ScanOutcome::Help) => r == Ok::<Parsed<TrainOptions>, ArgError>(Parsed::Help),
            Ok(ScanOutcome::Done(s)) => match train_config_error(s) {
                Some(e) => r == Err::<Parsed<TrainOptions>, ArgError>(ArgError::Config(e)),
                None => r matches Ok(Parsed::Run(o)) && train_options_are(o, s),
            },
        },
        r matches Ok(Parsed::Run(o)) ==> train_scan(arg_views(args@), float_ok@) == Some(o@),
        train_scan(arg_views(args@), float_ok@) matches Some(m) ==> match train_model_error(m) {
            Some(e) => r == Err::<Parsed<TrainOptions>, ArgError>(ArgError::Config(e)),
            None => r matches Ok(Parsed::Run(_)),
        },
{
    let table = train_flags();
    match scan_arguments(&table, 19, args, float_ok) {
        Err(e) => Err(e),
        Ok(Parsed::Help) => Ok(Parsed::Help),
        Ok(Parsed::Run(slots)) => {
            let o = TrainOptions {
                artifacts_dir: get_text(&slots, 0, "artifacts"),
                runs_dir: get_text(&slots, 1, "runs"),
                time_budget_seconds: get_int(&slots, 2, DEFAULT_TIME_BUDGET_SECONDS),
                batch_size: get_count(&slots, 3, DEFAULT_BATCH_SIZE),
                seq_len: get_count(&slots, 4, DEFAULT_SEQ_LEN),
                learning_rate: get_text_opt(&slots, 5),
                lr_warmup_steps: get_int(&slots, 6, 200),
                lr_min_scale: get_text_opt(&slots, 7),
                grad_clip_norm: get_text_opt(&slots, 8),
                n_layers: get_count(&slots, 9, 2),
                n_heads: get_count(&slots, 10, 4),
                d_model: get_count(&slots, 11, 64),
                d_ff: get_count(&slots, 12, 256),
                dropout: get_text_opt(&slots, 13),
                weight_decay: get_text_opt(&slots, 14),
                eval_interval: get_int(&slots, 15, 250),
                eval_batches: get_count(&slots, 16, 64),
                seed: get_int(&slots, 17, 1337),
                description: get_text(&slots, 18, DEFAULT_DESCRIPTION),
            };
            if o.n_layers == 0 {
                return Err(ArgError::Config(ConfigError::ZeroLayers));
            }
            if o.n_heads == 0 {
                return Err(ArgError::Config(ConfigError::ZeroHeads));
            }
            if o.d_model == 0 || o.d_ff == 0 {
                return Err(ArgError::Config(ConfigError::ZeroWidths));
            }
            if o.d_model % o.n_heads != 0 {
                return Err(ArgError::Config(ConfigError::WidthNotDivisible));
            }
            Ok(Parsed::Run(o))
        },
    }
}

// ---------------------------------------------------------------- option models

/// The text held, if any.
pub open spec fn text_view(o: Option<String>) -> Option<Seq<char>> {
    match o {
        Some(t) => Some(t@),
        None => None,
    }
}

/// The `prepare` options as mathematical values (floating-point options
/// as their text, absent when not given).
pub struct PrepareModel {
    pub artifacts_dir: Seq<char>,
    pub corpus_url: Seq<char>,
    pub val_fraction: Option<Seq<char>>,
    pub force_download: bool,
}

impl View for PrepareOptions {
    type V = PrepareModel;

    open spec fn view(&self) -> PrepareModel {
        PrepareModel {
            artifacts_dir: self.artifacts_dir@,
            corpus_url: self.corpus_url@,
            val_fraction: text_view(self.val_fraction),
            force_download: self.force_download,
        }
    }
}

/// The `prepare` options when no flag is given.
pub open spec fn prepare_defaults() -> PrepareModel {
    PrepareModel {
        artifacts_dir: "artifacts"@,
        corpus_url: DEFAULT_CORPUS_URL@,
        val_fraction: None,
        force_download: false,
    }
}

/// The `prepare` options that the fields `s` give, each field standing for
/// the option of the same position, with the defaults for unset fields.
pub open spec fn prepare_fields(s: Seq<SlotView>) -> PrepareModel {
    let z = prepare_defaults();
    PrepareModel {
        artifacts_dir: text_or(s, 0, z.artifacts_dir),
        corpus_url: text_or(s, 1, z.corpus_url),
        val_fraction: text_opt(s, 2),
        force_download: is_on(s, 3),
    }
}

/// The `prepare` options that the arguments `args` give, when every
/// argument is read and no help is asked for (`ok[i]` tells whether argument
/// `i` is a floating-point number).
pub open spec fn prepare_scan(args: Seq<Seq<char>>, ok: Seq<bool>) -> Option<PrepareModel> {
    match scan_args(prepare_table(), args, ok, 0, unset_slots(4)) {
        Ok(ScanOutcome::Done(s)) => Some(prepare_fields(s)),
        _ => None,
    }
}


/// The `autoresearch` options as mathematical values (floating-point options
/// as their text, absent when not given).
pub struct AutoresearchModel {
    pub experiments: nat,
    pub artifacts_dir: Seq<char>,
    pub runs_dir: Seq<char>,
    pub time_budget_seconds: nat,
    pub base_batch_size: nat,
    pub base_seq_len: nat,
    pub base_learning_rate: Option<Seq<char>>,
    pub base_lr_warmup_steps: nat,
    pub base_lr_final_scale: Option<Seq<char>>,
    pub base_grad_clip_norm: Option<Seq<char>>,
    pub base_model_dim: nat,
    pub base_mlp_dim: nat,
    pub seed: nat,
}

impl View for AutoresearchOptions {
    type V = AutoresearchModel;

    open spec fn view(&self) -> AutoresearchModel {
        AutoresearchModel {
            experiments: self.experiments as nat,
            artifacts_dir: self.artifacts_dir@,
            runs_dir: self.runs_dir@,
            time_budget_seconds: self.time_budget_seconds as nat,
            base_batch_size: self.base_batch_size as nat,
            base_seq_len: self.base_seq_len as nat,
            base_learning_rate: text_view(self.base_learning_rate),
            base_lr_warmup_steps: self.base_lr_warmup_steps as nat,
            base_lr_final_scale: text_view(self.base_lr_final_scale),
            base_grad_clip_norm: text_view(self.base_grad_clip_norm),
            base_model_dim: self.base_model_dim as nat,
            base_mlp_dim: self.base_mlp_dim as nat,
            seed: self.seed as nat,
        }
    }
}

/// The `autoresearch` options when no flag is given.
pub open spec fn autoresearch_defaults() -> AutoresearchModel {
    AutoresearchModel {
        experiments: 10,
        artifacts_dir: "artifacts"@,
        runs_dir: "runs"@,
        time_budget_seconds: 300,
        base_batch_size: 32,
        base_seq_len: 64,
        base_learning_rate: None,
        base_lr_warmup_steps: 200,
        base_lr_final_scale: None,
        base_grad_clip_norm: None,
        base_model_dim: 32,
        base_mlp_dim: 64,
        seed: 1337,
    }
}

/// The `autoresearch` options that the fields `s` give, each field standing for
/// the option of the same position, with the defaults for unset fields.
pub open spec fn autoresearch_fields(s: Seq<SlotView>) -> AutoresearchModel {
    let z = autoresearch_defaults();
    AutoresearchModel {
        experiments: count_or(s, 0, z.experiments),
        artifacts_dir: text_or(s, 1, z.artifacts_dir),
        runs_dir: text_or(s, 2, z.runs_dir),
        time_budget_seconds: int_or(s, 3, z.time_budget_seconds),
        base_batch_size: count_or(s, 4, z.base_batch_size),
        base_seq_len: count_or(s, 5, z.base_seq_len),
        base_learning_rate: text_opt(s, 6),
        base_lr_warmup_steps: int_or(s, 7, z.base_lr_warmup_steps),
        base_lr_final_scale: text_opt(s, 8),
        base_grad_clip_norm: text_opt(s, 9),
        base_model_dim: count_or(s, 10, z.base_model_dim),
        base_mlp_dim: count_or(s, 11, z.base_mlp_dim),
        seed: int_or(s, 12, z.seed),
    }
}

/// The `autoresearch` options that the arguments `args` give, when every
/// argument is read and no help is asked for (`ok[i]` tells whether argument
/// `i` is a floating-point number).
pub open spec fn autoresearch_scan(args: Seq<Seq<char>>, ok: Seq<bool>) -> Option<AutoresearchModel> {
    match scan_args(autoresearch_table(), args, ok, 0, unset_slots(13)) {
        Ok(ScanOutcome::Done(s)) => Some(autoresearch_fields(s)),
        _ => None,
    }
}


/// The `train` options as mathematical values (floating-point options
/// as their text, absent when not given).
pub struct TrainModel {
    pub artifacts_dir: Seq<char>,
    pub runs_dir: Seq<char>,
    pub time_budget_seconds: nat,
    pub batch_size: nat,
    pub seq_len: nat,
    pub learning_rate: Option<Seq<char>>,
    pub lr_warmup_steps: nat,
    pub lr_min_scale: Option<Seq<char>>,
    pub grad_clip_norm: Option<Seq<char>>,
    pub n_layers: nat,
    pub n_heads: nat,
    pub d_model: nat,
    pub d_ff: nat,
    pub dropout: Option<Seq<char>>,
    pub weight_decay: Option<Seq<char>>,
    pub eval_interval: nat,
    pub eval_batches: nat,
    pub seed: nat,
    pub description: Seq<char>,
}

impl View for TrainOptions {
    type V = TrainModel;

    open spec fn view(&self) -> TrainModel {
        TrainModel {
            artifacts_dir: self.artifacts_dir@,
            runs_dir: self.runs_dir@,
            time_budget_seconds: self.time_budget_seconds as nat,
            batch_size: self.batch_size as nat,
            seq_len: self.seq_len as nat,
            learning_rate: text_view(self.learning_rate),
            lr_warmup_steps: self.lr_warmup_steps as nat,
            lr_min_scale: text_view(self.lr_min_scale),
            grad_clip_norm: text_view(self.grad_clip_norm),
            n_layers: self.n_layers as nat,
            n_heads: self.n_heads as nat,
            d_model: self.d_model as nat,
            d_ff: self.d_ff as nat,
            dropout: text_view(self.dropout),
            weight_decay: text_view(self.weight_decay),
            eval_interval: self.eval_interval as nat,
            eval_batches: self.eval_batches as nat,
            seed: self.seed as nat,
            description: self.description@,
        }
    }
}

/// The `train` options when no flag is given.
pub open spec fn train_defaults() -> TrainModel {
    TrainModel {
        artifacts_dir: "artifacts"@,
        runs_dir: "runs"@,
        time_budget_seconds: 300,
        batch_size: 32,
        seq_len: 64,
        learning_rate: None,
        lr_warmup_steps: 200,
        lr_min_scale: None,
        grad_clip_norm: None,
        n_layers: 2,
        n_heads: 4,
        d_model: 64,
        d_ff: 256,
        dropout: None,
        weight_decay: None,
        eval_interval: 250,
        eval_batches: 64,
        seed: 1337,
        description: DEFAULT_DESCRIPTION@,
    }
}

/// The `train` options that the fields `s` give, each field standing for
/// the option of the same position, with the defaults for unset fields.
pub open spec fn train_fields(s: Seq<SlotView>) -> TrainModel {
    let z = train_defaults();
    TrainModel {
        artifacts_dir: text_or(s, 0, z.artifacts_dir),
        runs_dir: text_or(s, 1, z.runs_dir),
        time_budget_seconds: int_or(s, 2, z.time_budget_seconds),
        batch_size: count_or(s, 3, z.batch_size),
        seq_len: count_or(s, 4, z.seq_len),
        learning_rate: text_opt(s, 5),
        lr_warmup_steps: int_or(s, 6, z.lr_warmup_steps),
        lr_min_scale: text_opt(s, 7),
        grad_clip_norm: text_opt(s, 8),
        n_layers: count_or(s, 9, z.n_layers),
        n_heads: count_or(s, 10, z.n_heads),
        d_model: count_or(s, 11, z.d_model),
        d_ff: count_or(s, 12, z.d_ff),
        dropout: text_opt(s, 13),
        weight_decay: text_opt(s, 14),
        eval_interval: int_or(s, 15, z.eval_interval),
        eval_batches: count_or(s, 16, z.eval_batches),
        seed: int_or(s, 17, z.seed),
        description: text_or(s, 18, z.description),
    }
}

/// The `train` options that the arguments `args` give, when every
/// argument is read and no help is asked for (`ok[i]` tells whether argument
/// `i` is a floating-point number).
pub open spec fn train_scan(args: Seq<Seq<char>>, ok: Seq<bool>) -> Option<TrainModel> {
    match scan_args(train_table(), args, ok, 0, unset_slots(19)) {
        Ok(ScanOutcome::Done(s)) => Some(train_fields(s)),
        _ => None,
    }
}


/// The first inconsistency among the integer `autoresearch` options.
pub open spec fn autoresearch_model_error(m: AutoresearchModel) -> Option<ConfigError> {
    if m.base_model_dim == 0 || m.base_mlp_dim == 0 {
        Some(ConfigError::ZeroBaseDims)
    } else {
        None
    }
}

/// The first inconsistency among the integer `train` options, checked in
/// order: layers, heads, widths, divisibility of the width by the heads.
pub open spec fn train_model_error(m: TrainModel) -> Option<ConfigError> {
    if m.n_layers == 0 {
        Some(ConfigError::ZeroLayers)
    } else if m.n_heads == 0 {
        Some(ConfigError::ZeroHeads)
    } else if m.d_model == 0 || m.d_ff == 0 {
        Some(ConfigError::ZeroWidths)
    } else if m.d_model % m.n_heads != 0 {
        Some(ConfigError::WidthNotDivisible)
    } else {
        None
    }
}

/// The `report` runs directory that the arguments `args` give, when every
/// argument is read and no help is asked for.
pub open spec fn report_scan(args: Seq<Seq<char>>) -> Option<Seq<char>> {
    match scan_args(report_table(), args, Seq::new(args.len(), |i: int| false), 0, unset_slots(1)) {
        Ok(ScanOutcome::Done(s)) => Some(text_or(s, 0, "runs"@)),
        _ => None,
    }
}

} // verus!
