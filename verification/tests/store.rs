use qiancizhan::db_util::{DBConnection, FieldUpdate, StoreError};
use qiancizhan::word_builder::WordBuilder;
use qiancizhan::word_model::WordClass;

fn schema() -> &'static str {
    "create table Words (id integer primary key, word text, word_class text, meaning text, \
     review_count integer, correct_count integer, last_review_date text, display_order integer);"
}

fn seed_rows() -> &'static str {
    "insert into Words values (0, 'apple', 'n.;', '苹果', 0, 0, '2020-01-01', 0);\n\
     insert into Words values (1, 'banana', 'n.;', '香蕉', 0, 0, '2020-01-01', 1);\n\
     insert into Words values (2, 'cherry', 'n.;', '樱桃', 0, 0, '2020-01-01', 2);\n\
     insert into Words values (3, 'orange', 'n.;adj.;', '橙子', 0, 0, '2020-01-01', 3);\n\
     insert into Words values (4, 'watermelon', 'n.;', '西瓜', 0, 0, '2020-01-01', 4);\n\
     insert into Words values (5, 'fig', 'n.;', '无花果', 0, 0, '2020-01-01', 5);"
}

fn seeded_memory_store() -> DBConnection {
    let conn = rusqlite::Connection::open_in_memory().unwrap();
    conn.execute_batch(schema()).unwrap();
    conn.execute_batch(seed_rows()).unwrap();
    DBConnection::from_conn(conn).unwrap()
}

fn fresh_file(path: &str) {
    let conn = rusqlite::Connection::open(path).unwrap();
    conn.execute_batch("drop table if exists Words;").unwrap();
    conn.execute_batch(schema()).unwrap();
}

fn today() -> String {
    chrono::Local::now().format("%Y-%m-%d").to_string()
}

#[test]
fn open_loads_all_seeded_rows() {
    let db = seeded_memory_store();
    let words = db.words();
    assert_eq!(words.len(), 6);
    assert_eq!(words[0].id, 0);
    assert_eq!(words[0].word, "apple");
    assert_eq!(words[0].word_class, vec![WordClass::N]);
    assert_eq!(words[0].meaning, "苹果");
    assert_eq!(words[0].review_count, 0);
    assert_eq!(words[0].correct_count, 0);
    assert_eq!(words[0].last_review_date, "2020-01-01");
    assert_eq!(words[0].display_order, 0);
    assert_eq!(words[3].word_class, vec![WordClass::N, WordClass::Adj]);
    let names: Vec<&str> = words.iter().map(|w| w.word.as_str()).collect();
    assert_eq!(
        names,
        vec!["apple", "banana", "cherry", "orange", "watermelon", "fig"]
    );
}

#[test]
fn insert_words_test() {
    let mut db = seeded_memory_store();

    db.insert_words(vec![WordBuilder::new()
        .word("juice".to_string())
        .word_class(WordClass::N)
        .meaning("果汁".to_string())
        .display_order(4)
        .build()])
        .unwrap();

    assert_eq!(db.words().last().unwrap().word, "juice");
}

#[test]
fn insert_extends_mirror_and_table() {
    let path = "/tmp/qiancizhan_insert_pair.db";
    fresh_file(path);
    let mut db = DBConnection::from_path(path).unwrap();
    assert_eq!(db.words().len(), 0);

    let r1 = WordBuilder::new()
        .word("left".to_string())
        .word_class(WordClass::N)
        .meaning("左".to_string())
        .display_order(1)
        .build();
    let r2 = WordBuilder::new()
        .word("right".to_string())
        .word_class(WordClass::Adj)
        .meaning("右".to_string())
        .display_order(2)
        .build();
    let c1 = r1.clone();
    let c2 = r2.clone();

    db.insert_words(vec![r1, r2]).unwrap();

    let words = db.words();
    assert_eq!(words.len(), 2);
    assert_eq!(words[0], c1);
    assert_eq!(words[1], c2);

    let check = rusqlite::Connection::open(path).unwrap();
    let count: i64 = check
        .query_row("select count(*) from Words", [], |row| row.get(0))
        .unwrap();
    assert_eq!(count, 2);
}

#[test]
fn update_to_current_date_test() {
    let mut db = seeded_memory_store();
    db.update_to_current_date(2).unwrap();
    let format_date = today();
    assert_eq!(db.words()[2].last_review_date, format_date);
}

#[test]
fn update_review_count_test() {
    let mut db = seeded_memory_store();
    db.update_review_count(1, true).unwrap();
    assert_eq!(db.words()[1].review_count, 1);
    assert_eq!(db.words()[1].correct_count, 1);
}

#[test]
fn correct_review_updates_counts_and_date() {
    let mut db = seeded_memory_store();
    db.update_review_count(1, true).unwrap();
    let w = &db.words()[1];
    assert_eq!(w.review_count, 1);
    assert_eq!(w.correct_count, 1);
    assert_eq!(w.last_review_date, today());
}

#[test]
fn incorrect_review_leaves_correct_count() {
    let mut db = seeded_memory_store();
    db.update_review_count(1, false).unwrap();
    let w = &db.words()[1];
    assert_eq!(w.review_count, 1);
    assert_eq!(w.correct_count, 0);
}

#[test]
fn delete_word_test() {
    let mut db = seeded_memory_store();
    db.delete_word(4).unwrap();
    assert_ne!(db.words()[4].word, "watermelon");
}

#[test]
fn delete_removes_record_everywhere() {
    let path = "/tmp/qiancizhan_delete.db";
    fresh_file(path);
    {
        let seed = rusqlite::Connection::open(path).unwrap();
        seed.execute_batch(seed_rows()).unwrap();
    }
    let mut db = DBConnection::from_path(path).unwrap();
    assert_eq!(db.words().len(), 6);

    db.delete_word(4).unwrap();

    assert_eq!(db.words().len(), 5);
    assert!(db.words().iter().all(|w| w.id != 4));
    assert!(db.find_index(4).is_none());

    let check = rusqlite::Connection::open(path).unwrap();
    let count: i64 = check
        .query_row("select count(*) from Words where id = 4", [], |row| row.get(0))
        .unwrap();
    assert_eq!(count, 0);
}

#[test]
fn update_word_persists_raw_text() {
    let path = "/tmp/qiancizhan_update_word.db";
    fresh_file(path);
    {
        let seed = rusqlite::Connection::open(path).unwrap();
        seed.execute_batch(
            "insert into Words values (1, 'apple', 'n.;', '苹果', 0, 0, '2020-01-01', 1);",
        )
        .unwrap();
    }
    let mut db = DBConnection::from_path(path).unwrap();

    db.update_field(1, FieldUpdate::Word("apples".to_string()))
        .unwrap();

    assert_eq!(db.words()[0].word, "apples");

    let check = rusqlite::Connection::open(path).unwrap();
    let stored: String = check
        .query_row("select word from Words where id = 1", [], |row| row.get(0))
        .unwrap();
    assert_eq!(stored, "apples");
}

#[test]
fn update_word_class_field_decodes_for_mirror() {
    let mut db = seeded_memory_store();
    db.update_field(0, FieldUpdate::WordClasses("n.;v.;".to_string()))
        .unwrap();
    assert_eq!(db.words()[0].word_class, vec![WordClass::N, WordClass::V]);
}

#[test]
fn update_meaning_and_display_order_fields() {
    let mut db = seeded_memory_store();
    db.update_field(0, FieldUpdate::Meaning("红苹果".to_string()))
        .unwrap();
    db.update_field(0, FieldUpdate::DisplayOrder(9)).unwrap();
    db.update_field(0, FieldUpdate::LastReviewDate("2021-02-03".to_string()))
        .unwrap();
    let w = &db.words()[0];
    assert_eq!(w.meaning, "红苹果");
    assert_eq!(w.display_order, 9);
    assert_eq!(w.last_review_date, "2021-02-03");
}

#[test]
fn review_outcome_and_class_update_persist_across_reopen() {
    let path = "/tmp/qiancizhan_reopen.db";
    fresh_file(path);
    {
        let seed = rusqlite::Connection::open(path).unwrap();
        seed.execute_batch(
            "insert into Words values (1, 'apple', 'n.;', '苹果', 0, 0, '2020-01-01', 1);",
        )
        .unwrap();
    }
    let mut db = DBConnection::from_path(path).unwrap();
    db.update_review_count(1, true).unwrap();
    db.update_field(1, FieldUpdate::WordClasses("v.;".to_string()))
        .unwrap();

    let reopened = DBConnection::from_path(path).unwrap();
    let w = &reopened.words()[0];
    assert_eq!(w.review_count, 1);
    assert_eq!(w.correct_count, 1);
    assert_eq!(w.last_review_date, today());
    assert_eq!(w.word_class, vec![WordClass::V]);
}

#[test]
fn missing_table_fails_open() {
    let result = DBConnection::from_path(":memory:");
    assert!(matches!(result, Err(StoreError::OpenFailure(_))));
}

#[test]
fn rejected_statement_fails_insert_and_keeps_mirror() {
    let path = "/tmp/qiancizhan_rejected.db";
    fresh_file(path);
    let mut db = DBConnection::from_path(path).unwrap();
    {
        let saboteur = rusqlite::Connection::open(path).unwrap();
        saboteur.execute_batch("drop table Words;").unwrap();
    }
    let word = WordBuilder::new().word("ghostly".to_string()).build();
    let result = db.insert_words(vec![word]);
    assert!(matches!(result, Err(StoreError::StatementFailure(_))));
    assert_eq!(db.words().len(), 0);
}
