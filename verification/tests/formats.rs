use autoresearch_rs::kv::{format_kv, parse_kv};
use autoresearch_rs::numbers::{format_decimal, parse_unsigned, IntErrorKind};
use autoresearch_rs::results::{is_white_space, value_column_texts};
use autoresearch_rs::run_id::run_id_for;
use autoresearch_rs::split::{split_train_val_chars, SplitError};
use autoresearch_rs::text::{chars_of, lines};
use autoresearch_rs::token_file::{decode_tokens_le, encode_tokens_le, TokenFileError};
use autoresearch_rs::tokenizer_file::{format_tokenizer, parse_tokenizer, TokenizerFileError};
use autoresearch_rs::{timestamp_run_id, CharTokenizer, TokenizerArtifacts};

fn cs(s: &str) -> Vec<char> {
    s.chars().collect()
}

#[test]
fn decimal_format_and_parse() {
    assert_eq!(format_decimal(0), cs("0"));
    assert_eq!(format_decimal(1234567890), cs("1234567890"));
    assert_eq!(parse_unsigned(&cs("+42"), 100), Ok(42));
    assert_eq!(parse_unsigned(&cs("007"), 100), Ok(7));
    assert_eq!(parse_unsigned(&cs(""), 100), Err(IntErrorKind::Empty));
    assert_eq!(parse_unsigned(&cs("+"), 100), Err(IntErrorKind::InvalidDigit));
    assert_eq!(parse_unsigned(&cs("-1"), 100), Err(IntErrorKind::InvalidDigit));
    assert_eq!(parse_unsigned(&cs("1 2"), 100), Err(IntErrorKind::InvalidDigit));
    assert_eq!(parse_unsigned(&cs("101"), 100), Err(IntErrorKind::PosOverflow));
    assert_eq!(
        parse_unsigned(&cs("18446744073709551615"), u64::MAX),
        Ok(u64::MAX)
    );
    assert_eq!(
        parse_unsigned(&cs("18446744073709551616"), u64::MAX),
        Err(IntErrorKind::PosOverflow)
    );
    for n in [0u64, 9, 10, 65535, 4294967295] {
        assert_eq!(parse_unsigned(&format_decimal(n), u64::MAX), Ok(n));
    }
}

#[test]
fn parse_unsigned_agrees_with_std() {
    for s in ["", "+", "-", "+0", "12", "4294967295", "4294967296", "1x", "x1", "99999999999x"] {
        let ours = parse_unsigned(&cs(s), u32::MAX as u64).map(|v| v as u32);
        let std = s.parse::<u32>();
        assert_eq!(ours.is_ok(), std.is_ok(), "{s}");
        if let (Ok(a), Ok(b)) = (ours, &std) {
            assert_eq!(a, *b);
        }
        if let (Err(k), Err(e)) = (ours, &std) {
            let expected = match e.kind() {
                std::num::IntErrorKind::Empty => IntErrorKind::Empty,
                std::num::IntErrorKind::InvalidDigit => IntErrorKind::InvalidDigit,
                _ => IntErrorKind::PosOverflow,
            };
            assert_eq!(k, expected, "{s}");
        }
    }
}

#[test]
fn lines_follow_str_lines() {
    for s in ["", "a", "a\n", "a\r\nb", "a\rb\n", "\n\n", "x\r", "one\ntwo\r\nthree"] {
        let ours: Vec<String> = lines(&chars_of(s)).iter().map(|l| l.iter().collect()).collect();
        let std: Vec<String> = s.lines().map(|l| l.to_string()).collect();
        assert_eq!(ours, std, "{s:?}");
    }
}

#[test]
fn tokens_roundtrip_little_endian() {
    let tokens = vec![0u16, 1, 255, 256, 65535];
    let bytes = encode_tokens_le(&tokens);
    assert_eq!(bytes, vec![0, 0, 1, 0, 255, 0, 0, 1, 255, 255]);
    assert_eq!(decode_tokens_le(&bytes), Ok(tokens));
    assert_eq!(decode_tokens_le(&[]), Ok(vec![]));
}

#[test]
fn odd_token_file_is_refused() {
    assert_eq!(decode_tokens_le(&[1, 2, 3]), Err(TokenFileError::OddLength));
}

#[test]
fn tokenizer_file_roundtrip() {
    let t = CharTokenizer::from_text("ab€\t\n").unwrap();
    let a = t.to_artifacts();
    let text = format_tokenizer(&a);
    assert_eq!(
        text,
        "vocab_size=5\n0\t9\t1\n1\t10\t1\n2\t97\t1\n3\t98\t1\n4\t8364\t3\n"
    );
    let back = parse_tokenizer(&text).unwrap();
    assert_eq!(back.vocab, a.vocab);
    assert_eq!(back.token_bytes, a.token_bytes);
}

#[test]
fn tokenizer_file_skips_lines_without_three_columns() {
    let back = parse_tokenizer("vocab_size=1\r\njunk\n0\t65\t1\n\n").unwrap();
    assert_eq!(back.vocab, vec!['A']);
    assert_eq!(back.token_bytes, vec![1]);
}

#[test]
fn tokenizer_file_errors() {
    assert_eq!(parse_tokenizer("").err(), Some(TokenizerFileError::MissingHeader));
    assert_eq!(parse_tokenizer("size=1\n").err(), Some(TokenizerFileError::MalformedHeader));
    assert_eq!(
        parse_tokenizer("vocab_size=x\n").err(),
        Some(TokenizerFileError::BadNumber(IntErrorKind::InvalidDigit))
    );
    assert_eq!(
        parse_tokenizer("vocab_size=1\n0\t55296\t3\n").err(),
        Some(TokenizerFileError::InvalidCodepoint)
    );
    assert_eq!(
        parse_tokenizer("vocab_size=1\n0\t65\t\n").err(),
        Some(TokenizerFileError::BadNumber(IntErrorKind::Empty))
    );
    assert_eq!(
        parse_tokenizer("vocab_size=1\n0\t4294967296\t1\n").err(),
        Some(TokenizerFileError::BadNumber(IntErrorKind::PosOverflow))
    );
    assert_eq!(
        parse_tokenizer("vocab_size=2\n0\t65\t1\n").err(),
        Some(TokenizerFileError::SizeMismatch { found: 1, expected: 2 })
    );
}

#[test]
fn format_tokenizer_ignores_extra_byte_counts() {
    let a = TokenizerArtifacts { vocab: vec!['z'], token_bytes: vec![1, 7] };
    assert_eq!(format_tokenizer(&a), "vocab_size=1\n0\t122\t1\n");
}

#[test]
fn kv_roundtrip_last_value_wins() {
    let pairs = vec![
        ("run_id", "run-1".to_string()),
        ("val_bpb", "1.234".to_string()),
        ("run_id", "run-2".to_string()),
        ("note", "a=b".to_string()),
    ];
    let text = format_kv(&pairs);
    assert_eq!(text, "run_id=run-1\nval_bpb=1.234\nrun_id=run-2\nnote=a=b\n");
    let m = parse_kv(&text);
    assert_eq!(m.get("run_id"), Some("run-2".to_string()));
    assert_eq!(m.get("val_bpb"), Some("1.234".to_string()));
    assert_eq!(m.get("note"), Some("a=b".to_string()));
    assert_eq!(m.get("missing"), None);
}

#[test]
fn kv_lines_without_equals_are_ignored() {
    let m = parse_kv("header\nk=\n=v\r\n");
    assert_eq!(m.get("k"), Some(String::new()));
    assert_eq!(m.get(""), Some("v".to_string()));
    assert_eq!(m.get("header"), None);
}

#[test]
fn split_keeps_all_text() {
    let text: String = "abcdefghij".repeat(10);
    let (a, b) = split_train_val_chars(&text, 10).unwrap();
    assert_eq!(a.chars().count(), 90);
    assert_eq!(b, "abcdefghij");
    assert_eq!(format!("{a}{b}"), text);
    let uni: String = "é".repeat(120);
    let (a, b) = split_train_val_chars(&uni, 12).unwrap();
    assert_eq!(b.chars().count(), 12);
    assert_eq!(a.chars().count(), 108);
}

#[test]
fn split_errors() {
    let small = "x".repeat(99);
    assert_eq!(split_train_val_chars(&small, 10), Err(SplitError::CorpusTooSmall(99)));
    let text = "x".repeat(100);
    assert_eq!(
        split_train_val_chars(&text, 1),
        Err(SplitError::InvalidSplitSizes { train: 99, val: 1 })
    );
    assert_eq!(
        split_train_val_chars(&text, 99),
        Err(SplitError::InvalidSplitSizes { train: 1, val: 99 })
    );
    assert_eq!(
        split_train_val_chars(&text, 500),
        Err(SplitError::InvalidSplitSizes { train: 0, val: 500 })
    );
}

#[test]
fn results_value_column() {
    let content = "run_id\tval_bpb\ttraining_seconds\tstatus\tdescription\n\
                   run-1\t2.5\t300.0\tkeep\td\n\
                   \n   \t \n\
                   onecolumn\n\
                   run-2\tnan-ish\t1\n\
                   run-3\t1.25\r\n";
    assert_eq!(
        value_column_texts(content),
        vec!["2.5".to_string(), "nan-ish".to_string(), "1.25".to_string()]
    );
    assert!(value_column_texts("").is_empty());
    assert!(value_column_texts("header only\n").is_empty());
}

#[test]
fn run_ids() {
    assert_eq!(run_id_for(0), "run-0");
    assert_eq!(run_id_for(1700000000), "run-1700000000");
    let id = timestamp_run_id();
    assert!(id.starts_with("run-"));
    assert!(id[4..].chars().all(|c| c.is_ascii_digit()));
    assert!(id.len() > 4);
}

#[test]
fn white_space_matches_std() {
    for cp in 0u32..=0x10FFFF {
        if let Some(c) = char::from_u32(cp) {
            assert_eq!(is_white_space(c), c.is_whitespace(), "U+{cp:04X}");
        }
    }
}
