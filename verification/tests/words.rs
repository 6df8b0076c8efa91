use sentences::error::PipelineError;
use sentences::record::{emit_all, emit_record, line_or_error, Record};
use sentences::tokenize::{retain_words, tokenize, Tokenizer};

#[test]
fn retain_words_drops_blank_units_only() {
    let units = vec![" ", "a", "\t", " b ", "", "\u{3000}", "a", "，"];
    assert_eq!(retain_words(&units), vec!["a", " b ", "a", "，"]);
    assert_eq!(retain_words(&Vec::new()), Vec::<&str>::new());
    assert_eq!(retain_words(&vec![" ", "\n"]), Vec::<&str>::new());
}

#[test]
fn tokenize_cuts_known_words() {
    let tokenizer = Tokenizer::new();
    assert_eq!(tokenize(&tokenizer, "我来到北京清华大学"), vec!["我", "来到", "北京", "清华大学"]);
}

#[test]
fn tokenize_finds_unknown_words() {
    let tokenizer = Tokenizer::new();
    let clause = "他来到了网易杭研大厦";
    let words = tokenize(&tokenizer, clause);
    assert_eq!(words, vec!["他", "来到", "了", "网易", "杭研", "大厦"]);
    assert_eq!(words.concat(), clause);
}

#[test]
fn tokenize_covers_a_clause_of_unknown_text() {
    let tokenizer = Tokenizer::new();
    let clause = "qwrtzx魑魅魍魉zzz";
    let words = tokenize(&tokenizer, clause);
    assert!(!words.is_empty());
    assert_eq!(words.concat(), clause);
}

#[test]
fn tokenize_keeps_punctuation_and_drops_whitespace() {
    let tokenizer = Tokenizer::new();
    let words = tokenize(&tokenizer, "你好 世界！");
    assert_eq!(words, vec!["你好", "世界", "！"]);
}

#[test]
fn whitespace_only_clause_has_no_words() {
    let tokenizer = Tokenizer::new();
    assert_eq!(tokenize(&tokenizer, "  \t  "), Vec::<&str>::new());
    assert_eq!(tokenize(&tokenizer, " "), Vec::<&str>::new());
}

#[test]
fn empty_clause_has_no_words() {
    let tokenizer = Tokenizer::new();
    assert_eq!(tokenize(&tokenizer, ""), Vec::<&str>::new());
}

#[test]
fn emit_record_writes_a_pair() {
    let record = Record { clause: "a", words: vec!["b", "c"] };
    assert_eq!(emit_record(&record), Ok("[\"a\",[\"b\",\"c\"]]".to_string()));
    let record = Record { clause: "我来到", words: vec!["我", "来到"] };
    assert_eq!(emit_record(&record), Ok("[\"我来到\",[\"我\",\"来到\"]]".to_string()));
}

#[test]
fn emit_record_of_an_empty_clause() {
    let record = Record { clause: "", words: Vec::new() };
    assert_eq!(emit_record(&record), Ok("[\"\",[]]".to_string()));
}

#[test]
fn emit_record_escapes() {
    let record = Record { clause: "\"\\", words: vec!["\""] };
    assert_eq!(emit_record(&record), Ok("[\"\\\"\\\\\",[\"\\\"\"]]".to_string()));
}

#[test]
fn emit_record_agrees_with_the_serialiser() {
    let record = Record { clause: "x\u{1}y", words: vec!["x", "\u{1}", "y"] };
    let expected = serde_json::to_string(&("x\u{1}y", vec!["x", "\u{1}", "y"])).unwrap();
    assert_eq!(emit_record(&record), Ok(expected));
}

#[test]
fn emit_all_keeps_the_order() {
    let records = vec![
        Record { clause: "a", words: vec!["a"] },
        Record { clause: "", words: Vec::new() },
        Record { clause: "b", words: vec!["b"] },
    ];
    let expected = vec![
        "[\"a\",[\"a\"]]".to_string(),
        "[\"\",[]]".to_string(),
        "[\"b\",[\"b\"]]".to_string(),
    ];
    assert_eq!(emit_all(&records), Ok(expected));
    assert_eq!(emit_all(&Vec::new()), Ok(Vec::new()));
}

#[test]
fn a_line_passes_through() {
    assert_eq!(line_or_error(Ok("[]".to_string())), Ok("[]".to_string()));
}

#[test]
fn a_serialiser_failure_is_a_serialization_error() {
    let failure = serde_json::from_str::<bool>("?").unwrap_err();
    assert_eq!(line_or_error(Err(failure)), Err(PipelineError::Serialization));
}

#[test]
fn the_error_kinds_differ() {
    assert_ne!(PipelineError::Input, PipelineError::Resource);
    assert_ne!(PipelineError::Resource, PipelineError::Serialization);
    assert_ne!(PipelineError::Input, PipelineError::Serialization);
}

#[test]
fn words_are_the_units_with_text_in_order() {
    let tokenizer = Tokenizer::new();
    let segmenter = jieba_rs::Jieba::new();
    for clause in ["今天天气真好", "Hello world !", "我 来到\t北京", "", " ", "3.14%和C++"] {
        let words = tokenize(&tokenizer, clause);
        let mut expected: Vec<&str> = Vec::new();
        for token in segmenter.cut(clause, true) {
            if !token.word.trim().is_empty() {
                expected.push(token.word);
            }
        }
        assert_eq!(words, expected);
        for word in words {
            assert!(!word.trim().is_empty());
            assert!(clause.contains(word));
        }
    }
}

#[test]
fn every_record_has_a_line() {
    let texts = ["", "\u{0}\u{1f}\u{7f}", "\"\\/\u{8}\u{c}\n\r\t", "\u{2028}\u{2029}", "😀𝄞", "，,"];
    for clause in texts {
        let record = Record { clause, words: texts.to_vec() };
        let line = emit_record(&record).unwrap();
        let (back, words): (String, Vec<String>) = serde_json::from_str(&line).unwrap();
        assert_eq!(back, clause);
        assert_eq!(words, texts);
        assert!(!line.contains('\n'));
    }
}
