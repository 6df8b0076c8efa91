use sentences::pipeline::{records, run, sentence_records, sentences_records};
use sentences::tokenize::Tokenizer;

#[test]
fn sentence_records_pairs_each_clause_with_its_words() {
    let tokenizer = Tokenizer::new();
    let found = sentence_records(&tokenizer, "我来到北京清华大学，他来到了网易杭研大厦");
    assert_eq!(found.len(), 2);
    assert_eq!(found[0].clause, "我来到北京清华大学");
    assert_eq!(found[0].words, vec!["我", "来到", "北京", "清华大学"]);
    assert_eq!(found[1].clause, "他来到了网易杭研大厦");
    assert_eq!(found[1].words, vec!["他", "来到", "了", "网易", "杭研", "大厦"]);
}

#[test]
fn sentence_records_trims_the_sentence() {
    let tokenizer = Tokenizer::new();
    let found = sentence_records(&tokenizer, "  你好 世界 \n");
    assert_eq!(found.len(), 2);
    assert_eq!(found[0].clause, "你好");
    assert_eq!(found[1].clause, "世界");
}

#[test]
fn an_empty_clause_has_a_record_without_words() {
    let tokenizer = Tokenizer::new();
    let found = sentence_records(&tokenizer, "a,,b");
    assert_eq!(found.len(), 3);
    assert_eq!(found[0].clause, "a");
    assert_eq!(found[0].words, vec!["a"]);
    assert_eq!(found[1].clause, "");
    assert_eq!(found[1].words, Vec::<&str>::new());
    assert_eq!(found[2].clause, "b");
    assert_eq!(found[2].words, vec!["b"]);
}

#[test]
fn sentences_records_keeps_the_order() {
    let tokenizer = Tokenizer::new();
    let found = sentences_records(&tokenizer, &vec!["b a. ", "c"]);
    let clauses: Vec<&str> = found.iter().map(|r| r.clause).collect();
    assert_eq!(clauses, vec!["b", "a.", "c"]);
    assert_eq!(sentences_records(&tokenizer, &Vec::new()).len(), 0);
}

#[test]
fn records_go_sentence_by_sentence() {
    let tokenizer = Tokenizer::new();
    let found = records(&tokenizer, "Mr. Fox jumped. [...] The dog was too lazy.");
    let clauses: Vec<&str> = found.iter().map(|r| r.clause).collect();
    assert_eq!(clauses, vec!["Mr.", "Fox", "jumped.", "The", "dog", "was", "too", "lazy."]);
}

#[test]
fn run_writes_one_line_for_each_clause() {
    let tokenizer = Tokenizer::new();
    let lines = run(&tokenizer, "我来到北京清华大学。a,,b").unwrap();
    assert_eq!(
        lines,
        vec![
            "[\"我来到北京清华大学。\",[\"我\",\"来到\",\"北京\",\"清华大学\",\"。\"]]",
            "[\"a\",[\"a\"]]",
            "[\"\",[]]",
            "[\"b\",[\"b\"]]",
        ]
    );
}

#[test]
fn run_of_an_empty_text_writes_nothing() {
    let tokenizer = Tokenizer::new();
    assert_eq!(run(&tokenizer, ""), Ok(Vec::new()));
    assert_eq!(run(&tokenizer, "  \n ... "), Ok(Vec::new()));
}

#[test]
fn run_twice_gives_the_same_lines() {
    let tokenizer = Tokenizer::new();
    let text = "今天天气真好，我们去公园 散步吧。Hello, world! 他来到了网易杭研大厦";
    let first = run(&tokenizer, text);
    let second = run(&tokenizer, text);
    assert!(first.is_ok());
    assert_eq!(first, second);
    let other = Tokenizer::new();
    assert_eq!(run(&other, text), first);
}

#[test]
fn every_line_parses_as_a_pair() {
    let tokenizer = Tokenizer::new();
    let lines = run(&tokenizer, "说\"好\"，然后走了。").unwrap();
    assert_eq!(lines.len(), 2);
    for line in lines {
        let (clause, words): (String, Vec<String>) = serde_json::from_str(&line).unwrap();
        assert!(!clause.contains('，'));
        for word in words {
            assert!(!word.trim().is_empty());
            assert!(clause.contains(&word));
        }
    }
}

#[test]
fn records_follow_the_sentences_of_the_segmenter() {
    let tokenizer = Tokenizer::new();
    let text = "今天天气真好。 我们去公园，散步吧！ Is it far? No.";
    let mut sentences: Vec<&str> = Vec::new();
    for sentence in unicode_segmentation::UnicodeSegmentation::unicode_sentences(text) {
        sentences.push(sentence);
    }
    assert!(sentences.len() > 1);
    let found = records(&tokenizer, text);
    let expected = sentences_records(&tokenizer, &sentences);
    assert_eq!(found.len(), expected.len());
    for (a, b) in found.iter().zip(expected.iter()) {
        assert_eq!(a.clause, b.clause);
        assert_eq!(a.words, b.words);
    }
    let clauses: Vec<&str> = found.iter().map(|r| r.clause).collect();
    assert_eq!(
        clauses,
        vec!["今天天气真好。", "我们去公园", "散步吧！", "Is", "it", "far?", "No."]
    );
}
