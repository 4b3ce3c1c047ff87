use qiancizhan::word_builder::WordBuilder;
use qiancizhan::word_model::WordClass;

#[test]
fn build_test() {
    let word = WordBuilder::new()
        .id(1)
        .word("test".to_string())
        .word_class(WordClass::N)
        .meaning("测试".to_string())
        .review_count(0)
        .correct_count(0)
        .last_review_date("2020-01-01".to_string())
        .display_order(0)
        .build();

    assert_eq!(word.id, 1);
    assert_eq!(word.word, "test");
    assert_eq!(word.word_class, vec![WordClass::N]);
    assert_eq!(word.meaning, "测试");
    assert_eq!(word.review_count, 0);
    assert_eq!(word.correct_count, 0);
    assert_eq!(word.last_review_date, "2020-01-01");
    assert_eq!(word.display_order, 0);
}

#[test]
fn unset_fields_take_defaults() {
    let word = WordBuilder::new().word("bare".to_string()).build();
    assert_eq!(word.id, 0);
    assert_eq!(word.word, "bare");
    assert_eq!(word.word_class, vec![]);
    assert_eq!(word.meaning, "");
    assert_eq!(word.review_count, 0);
    assert_eq!(word.correct_count, 0);
    assert_eq!(word.last_review_date, "");
    assert_eq!(word.display_order, 0);
}

#[test]
fn word_classes_replaces_appended_classes() {
    let word = WordBuilder::new()
        .word_class(WordClass::N)
        .word_class(WordClass::Adj)
        .word_classes(&vec![WordClass::V])
        .build();
    assert_eq!(word.word_class, vec![WordClass::V]);
}

#[test]
fn word_class_appends_in_order() {
    let word = WordBuilder::new()
        .word_class(WordClass::Adv)
        .word_class(WordClass::N)
        .build();
    assert_eq!(word.word_class, vec![WordClass::Adv, WordClass::N]);
}
