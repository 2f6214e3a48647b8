use autoresearch_rs::tokenizer::{char_utf8_len, sum_target_bytes};
use autoresearch_rs::{CharTokenizer, TokenizerError};

#[test]
fn from_text_builds_sorted_distinct_vocab() {
    let t = CharTokenizer::from_text("hello world").unwrap();
    let a = t.to_artifacts();
    assert_eq!(a.vocab, vec![' ', 'd', 'e', 'h', 'l', 'o', 'r', 'w']);
    assert_eq!(a.token_bytes, vec![1; 8]);
    assert_eq!(t.vocab_size(), 8);
}

#[test]
fn from_text_rejects_empty_corpus() {
    assert_eq!(CharTokenizer::from_text("").err(), Some(TokenizerError::EmptyCorpus));
}

#[test]
fn from_text_rejects_oversized_vocab() {
    let text: String = (0u32..70000)
        .filter_map(|cp| char::from_u32(cp + 0x100))
        .collect();
    let distinct = text.chars().count();
    assert!(distinct > 65535);
    assert_eq!(
        CharTokenizer::from_text(&text).err(),
        Some(TokenizerError::VocabTooLarge(distinct))
    );
}

#[test]
fn vocab_of_65535_chars_is_accepted() {
    let text: String = (0u32..65535)
        .filter_map(|cp| char::from_u32(cp + 0x10000))
        .collect();
    let t = CharTokenizer::from_text(&text).unwrap();
    assert_eq!(t.vocab_size(), 65535);
}

#[test]
fn token_bytes_are_utf8_lengths() {
    let t = CharTokenizer::from_text("aé€😀").unwrap();
    let a = t.to_artifacts();
    assert_eq!(a.vocab, vec!['a', 'é', '€', '😀']);
    assert_eq!(a.token_bytes, vec![1, 2, 3, 4]);
    assert_eq!(char_utf8_len('\u{7f}'), 1);
    assert_eq!(char_utf8_len('\u{80}'), 2);
    assert_eq!(char_utf8_len('\u{7ff}'), 2);
    assert_eq!(char_utf8_len('\u{800}'), 3);
    assert_eq!(char_utf8_len('\u{ffff}'), 3);
    assert_eq!(char_utf8_len('\u{10000}'), 4);
}

#[test]
fn encode_maps_chars_to_vocab_positions() {
    let t = CharTokenizer::from_text("banana").unwrap();
    assert_eq!(t.encode("banana").unwrap(), vec![1, 0, 2, 0, 2, 0]);
    assert_eq!(t.encode("").unwrap(), Vec::<u16>::new());
}

#[test]
fn encode_reports_first_unknown_char() {
    let t = CharTokenizer::from_text("abc").unwrap();
    assert_eq!(t.encode("abxyc").err(), Some(TokenizerError::UnknownChar('x')));
}

#[test]
fn encoding_decodes_back_to_the_text() {
    let text = "The quick brown fox jumps over the lazy dog; ünïcödé ✓";
    let t = CharTokenizer::from_text(text).unwrap();
    let vocab = t.to_artifacts().vocab;
    let ids = t.encode(text).unwrap();
    let decoded: String = ids.iter().map(|&i| vocab[i as usize]).collect();
    assert_eq!(decoded, text);
}

#[test]
fn parts_of_the_corpus_encode() {
    let text = "to be or not to be";
    let t = CharTokenizer::from_text(text).unwrap();
    assert!(t.encode(&text[3..9]).is_ok());
    assert!(t.encode(&text[10..]).is_ok());
}

#[test]
fn same_characters_give_same_vocab() {
    let a = CharTokenizer::from_text("abcabc").unwrap().to_artifacts();
    let b = CharTokenizer::from_text("cba").unwrap().to_artifacts();
    assert_eq!(a.vocab, b.vocab);
}

#[test]
fn token_bytes_sum_to_utf8_size() {
    let text = "héllo wörld €";
    let t = CharTokenizer::from_text(text).unwrap();
    let a = t.to_artifacts();
    let ids: Vec<u32> = t.encode(text).unwrap().iter().map(|&i| i as u32).collect();
    assert_eq!(sum_target_bytes(&ids, &a.token_bytes), text.len() as u64);
}

#[test]
fn clone_keeps_the_vocab() {
    let t = CharTokenizer::from_text("xyz").unwrap();
    let c = t.clone();
    assert_eq!(c.to_artifacts().vocab, t.to_artifacts().vocab);
    assert_eq!(c.encode("zyx").unwrap(), vec![2, 1, 0]);
}

#[test]
fn utf8_len_matches_std() {
    for cp in 0u32..=0x10FFFF {
        if let Some(c) = char::from_u32(cp) {
            assert_eq!(char_utf8_len(c) as usize, c.len_utf8());
        }
    }
}
