use vstd::prelude::*;

use crate::word_builder::WordBuilder;
use crate::word_model::{Word, WordClass};
use crate::word_model::{spec_decode_list, spec_encode_list};

verus! {

#[verifier::external_type_specification]
#[verifier::external_body]
pub struct ExConnection(rusqlite::Connection);

#[verifier::external_type_specification]
#[verifier::external_body]
pub struct ExSqliteError(rusqlite::Error);

/// One row of the persisted `Words` table, as the columns hold it: the
/// engine-assigned integer key, text columns as character sequences, and
/// integer columns as integers.
pub ghost struct Row {
    pub id: int,
    pub word: Seq<char>,
    pub word_class: Seq<char>,
    pub meaning: Seq<char>,
    pub review_count: int,
    pub correct_count: int,
    pub last_review_date: Seq<char>,
    pub display_order: int,
}

/// The rows of the `Words` table as seen through `conn`, in stored order.
/// The store owns its connection exclusively, so the contents change only
/// through the statements this module executes.
pub uninterp spec fn table_of(conn: rusqlite::Connection) -> Seq<Row>;

/// One decoded row handed back by the load query.
pub struct RawRow {
    pub id: i32,
    pub word: String,
    pub word_class: String,
    pub meaning: String,
    pub review_count: i32,
    pub correct_count: i32,
    pub last_review_date: String,
    pub display_order: i32,
}

impl View for RawRow {
    type V = Row;

    open spec fn view(&self) -> Row {
        Row {
            id: self.id as int,
            word: self.word@,
            word_class: self.word_class@,
            meaning: self.meaning@,
            review_count: self.review_count as int,
            correct_count: self.correct_count as int,
            last_review_date: self.last_review_date@,
            display_order: self.display_order as int,
        }
    }
}

/// Relies on `rusqlite::Connection::open`: opens (creating if absent) the
/// database file at `path`. Nothing is assumed of the contents found there.
#[verifier::external_body]
fn open_conn(path: &str) -> Result<rusqlite::Connection, rusqlite::Error> {
    rusqlite::Connection::open(path)
}

/// Relies on `rusqlite::Connection::prepare` and `Statement::query_map` over
/// a bare `select` of every column of `Words`: on success the query yields
/// exactly the rows of the table, in stored order, and the row accessors
/// hand each column back as the declared Rust type.
#[verifier::external_body]
fn query_rows(conn: &rusqlite::Connection) -> (r: Result<Vec<RawRow>, rusqlite::Error>)
    ensures
        r matches Ok(v) ==> {
            &&& v@.len() == table_of(*conn).len()
            &&& forall|i: int| 0 <= i < v@.len() ==> (#[trigger] v@[i])@ == table_of(*conn)[i]
        },
{
    let mut stmt = conn.prepare(
        "select id, word, word_class, meaning, review_count, correct_count, last_review_date, display_order from Words",
    )?;
    let rows = stmt.query_map([], |row| {
        Ok(RawRow {
            id: row.get(0)?, word: row.get(1)?, word_class: row.get(2)?, meaning: row.get(3)?,
            review_count: row.get(4)?, correct_count: row.get(5)?,
            last_review_date: row.get(6)?, display_order: row.get(7)?,
        })
    })?;
    rows.collect()
}

/// A `Words` row built from the given column values and an id of the
/// engine's choosing.
pub open spec fn row_with(
    id: int,
    word: Seq<char>,
    word_class: Seq<char>,
    meaning: Seq<char>,
    review_count: int,
    correct_count: int,
    last_review_date: Seq<char>,
    display_order: int,
) -> Row {
    Row { id, word, word_class, meaning, review_count, correct_count, last_review_date, display_order }
}

/// Relies on `rusqlite::Connection::execute` with `begin TRANSACTION;`:
/// starting a transaction changes no table contents.
#[verifier::external_body]
fn exec_begin(conn: &mut rusqlite::Connection) -> (r: Result<(), rusqlite::Error>)
    ensures
        r matches Ok(_) ==> table_of(*final(conn)) == table_of(*old(conn)),
{
    match conn.execute("begin TRANSACTION;", ()) {
        Ok(_) => Ok(()),
        Err(e) => Err(e),
    }
}

/// Relies on `rusqlite::Connection::execute` with `commit;`: committing
/// makes the transaction's rows durable and changes no contents as seen
/// through this connection.
#[verifier::external_body]
fn exec_commit(conn: &mut rusqlite::Connection) -> (r: Result<(), rusqlite::Error>)
    ensures
        r matches Ok(_) ==> table_of(*final(conn)) == table_of(*old(conn)),
{
    match conn.execute("commit;", ()) {
        Ok(_) => Ok(()),
        Err(e) => Err(e),
    }
}

/// Relies on `rusqlite::Connection::execute` with an `insert into Words`
/// statement listing every column but `id`: on success exactly one row is
/// appended, holding the given values under an engine-assigned id. The
/// `Words` schema is assumed to give the count and order columns integer
/// affinity and the rest text.
#[verifier::external_body]
fn exec_insert_row(
    conn: &mut rusqlite::Connection,
    word: &String,
    word_class: &String,
    meaning: &String,
    review_count: i32,
    correct_count: i32,
    last_review_date: &String,
    display_order: i32,
) -> (r: Result<(), rusqlite::Error>)
    ensures
        r matches Ok(_) ==> exists|id: int|
            table_of(*final(conn)) == table_of(*old(conn)).push(
                row_with(
                    id,
                    word@,
                    word_class@,
                    meaning@,
                    review_count as int,
                    correct_count as int,
                    last_review_date@,
                    display_order as int,
                ),
            ),
{
    match conn.execute(
        "insert into Words (word, word_class, meaning, review_count, correct_count, last_review_date, display_order) values (?1, ?2, ?3, ?4, ?5, ?6, ?7);",
        (word.as_str(), word_class.as_str(), meaning.as_str(), review_count, correct_count,
            last_review_date.as_str(), display_order),
    ) {
        Ok(_) => Ok(()),
        Err(e) => Err(e),
    }
}

/// A typed failure of a store operation, carrying the engine's error.
#[derive(Debug)]
pub enum StoreError {
    /// The database file could not be opened, or the `Words` table could not
    /// be read at store construction.
    OpenFailure(rusqlite::Error),
    /// The engine rejected a statement or its execution.
    StatementFailure(rusqlite::Error),
}

/// The mirror record and the table row carry the same data: the mirror
/// holds the classes decoded from the row's encoded column.
pub open spec fn word_matches_row(w: Word, r: Row) -> bool {
    &&& w.id as int == r.id
    &&& w.word@ == r.word
    &&& w.word_class@ == spec_decode_list(r.word_class)
    &&& w.meaning@ == r.meaning
    &&& w.review_count as int == r.review_count
    &&& w.correct_count as int == r.correct_count
    &&& w.last_review_date@ == r.last_review_date
    &&& w.display_order as int == r.display_order
}

/// Every mirror record matches the table row at its position.
pub open spec fn mirror_matches_table(m: Seq<Word>, t: Seq<Row>) -> bool {
    &&& m.len() == t.len()
    &&& forall|i: int| 0 <= i < t.len() ==> word_matches_row(#[trigger] m[i], t[i])
}

/// The row holds the record's fields, the classes in their encoded form,
/// under whatever id the engine assigned.
pub open spec fn row_encodes(r: Row, w: Word) -> bool {
    &&& r.word == w.word@
    &&& r.word_class == spec_encode_list(w.word_class@)
    &&& r.meaning == w.meaning@
    &&& r.review_count == w.review_count as int
    &&& r.correct_count == w.correct_count as int
    &&& r.last_review_date == w.last_review_date@
    &&& r.display_order == w.display_order as int
}

/// Relies on `rusqlite::Connection::execute` with
/// `delete from Words where id = ?1;`: on success exactly the rows carrying
/// that id are gone, and the remaining rows keep their order.
#[verifier::external_body]
fn exec_delete(conn: &mut rusqlite::Connection, id: i32) -> (r: Result<(), rusqlite::Error>)
    ensures
        r matches Ok(_) ==> table_of(*final(conn)) == table_of(*old(conn)).filter(
            |row: Row| row.id != id as int,
        ),
{
    match conn.execute("delete from Words where id = ?1;", (id,)) {
        Ok(_) => Ok(()),
        Err(e) => Err(e),
    }
}

/// The table with the `last_review_date` column of every row carrying `id`
/// set to `d`.
pub open spec fn with_date(t: Seq<Row>, id: int, d: Seq<char>) -> Seq<Row> {
    t.map(
        |i: int, r: Row|
            if r.id == id {
                (Row { last_review_date: d, ..r })
            } else {
                r
            },
    )
}

/// The table with the `word` column of every row carrying `id` set to `v`.
pub open spec fn with_word(t: Seq<Row>, id: int, v: Seq<char>) -> Seq<Row> {
    t.map(
        |i: int, r: Row|
            if r.id == id {
                (Row { word: v, ..r })
            } else {
                r
            },
    )
}

/// The table with the `word_class` column of every row carrying `id` set to
/// the raw text `v`.
pub open spec fn with_word_class(t: Seq<Row>, id: int, v: Seq<char>) -> Seq<Row> {
    t.map(
        |i: int, r: Row|
            if r.id == id {
                (Row { word_class: v, ..r })
            } else {
                r
            },
    )
}

/// The table with the `meaning` column of every row carrying `id` set to `v`.
pub open spec fn with_meaning(t: Seq<Row>, id: int, v: Seq<char>) -> Seq<Row> {
    t.map(
        |i: int, r: Row|
            if r.id == id {
                (Row { meaning: v, ..r })
            } else {
                r
            },
    )
}

/// The table with the `display_order` column of every row carrying `id` set
/// to `v`.
pub open spec fn with_display(t: Seq<Row>, id: int, v: int) -> Seq<Row> {
    t.map(
        |i: int, r: Row|
            if r.id == id {
                (Row { display_order: v, ..r })
            } else {
                r
            },
    )
}

/// The table with the count columns and the review date of every row
/// carrying `id` set to the given values.
pub open spec fn with_counts(t: Seq<Row>, id: int, rc: int, cc: int, d: Seq<char>) -> Seq<Row> {
    t.map(
        |i: int, r: Row|
            if r.id == id {
                (Row { review_count: rc, correct_count: cc, last_review_date: d, ..r })
            } else {
                r
            },
    )
}

/// Relies on `rusqlite::Connection::execute` with
/// `update Words set last_review_date = ?1 where id = ?2;`.
#[verifier::external_body]
fn exec_update_date(conn: &mut rusqlite::Connection, id: i32, value: &String) -> (r: Result<
    (),
    rusqlite::Error,
>)
    ensures
        r matches Ok(_) ==> table_of(*final(conn)) == with_date(
            table_of(*old(conn)),
            id as int,
            value@,
        ),
{
    match conn.execute("update Words set last_review_date = ?1 where id = ?2;", (value.as_str(), id)) {
        Ok(_) => Ok(()),
        Err(e) => Err(e),
    }
}

/// Relies on `rusqlite::Connection::execute` with
/// `update Words set word = ?1 where id = ?2;`.
#[verifier::external_body]
fn exec_update_word(conn: &mut rusqlite::Connection, id: i32, value: &String) -> (r: Result<
    (),
    rusqlite::Error,
>)
    ensures
        r matches Ok(_) ==> table_of(*final(conn)) == with_word(
            table_of(*old(conn)),
            id as int,
            value@,
        ),
{
    match conn.execute("update Words set word = ?1 where id = ?2;", (value.as_str(), id)) {
        Ok(_) => Ok(()),
        Err(e) => Err(e),
    }
}

/// Relies on `rusqlite::Connection::execute` with
/// `update Words set word_class = ?1 where id = ?2;`: the column keeps the
/// raw text the caller supplied.
#[verifier::external_body]
fn exec_update_word_class(conn: &mut rusqlite::Connection, id: i32, value: &String) -> (r: Result<
    (),
    rusqlite::Error,
>)
    ensures
        r matches Ok(_) ==> table_of(*final(conn)) == with_word_class(
            table_of(*old(conn)),
            id as int,
            value@,
        ),
{
    match conn.execute("update Words set word_class = ?1 where id = ?2;", (value.as_str(), id)) {
        Ok(_) => Ok(()),
        Err(e) => Err(e),
    }
}

/// Relies on `rusqlite::Connection::execute` with
/// `update Words set meaning = ?1 where id = ?2;`.
#[verifier::external_body]
fn exec_update_meaning(conn: &mut rusqlite::Connection, id: i32, value: &String) -> (r: Result<
    (),
    rusqlite::Error,
>)
    ensures
        r matches Ok(_) ==> table_of(*final(conn)) == with_meaning(
            table_of(*old(conn)),
            id as int,
            value@,
        ),
{
    match conn.execute("update Words set meaning = ?1 where id = ?2;", (value.as_str(), id)) {
        Ok(_) => Ok(()),
        Err(e) => Err(e),
    }
}

/// Relies on `rusqlite::Connection::execute` with
/// `update Words set display_order = ?1 where id = ?2;`; the column has
/// integer affinity.
#[verifier::external_body]
fn exec_update_display(conn: &mut rusqlite::Connection, id: i32, value: i32) -> (r: Result<
    (),
    rusqlite::Error,
>)
    ensures
        r matches Ok(_) ==> table_of(*final(conn)) == with_display(
            table_of(*old(conn)),
            id as int,
            value as int,
        ),
{
    match conn.execute("update Words set display_order = ?1 where id = ?2;", (value, id)) {
        Ok(_) => Ok(()),
        Err(e) => Err(e),
    }
}

/// Relies on `rusqlite::Connection::execute` with `update Words set
/// review_count = ?1, correct_count = ?2, last_review_date = ?3 where id =
/// ?4;`: the three columns are written together.
#[verifier::external_body]
fn exec_update_counts(
    conn: &mut rusqlite::Connection,
    id: i32,
    review_count: i32,
    correct_count: i32,
    date: &String,
) -> (r: Result<(), rusqlite::Error>)
    ensures
        r matches Ok(_) ==> table_of(*final(conn)) == with_counts(
            table_of(*old(conn)),
            id as int,
            review_count as int,
            correct_count as int,
            date@,
        ),
{
    match conn.execute(
        "update Words set review_count = ?1, correct_count = ?2, last_review_date = ?3 where id = ?4;",
        (review_count, correct_count, date.as_str(), id),
    ) {
        Ok(_) => Ok(()),
        Err(e) => Err(e),
    }
}

/// Relies on `chrono::Local::now` and `DateTime::format` with `%Y-%m-%d`:
/// yields the current local calendar date as text. The value depends on the
/// clock, so nothing is assumed of it.
#[verifier::external_body]
fn today_string() -> String {
    chrono::Local::now().format("%Y-%m-%d").to_string()
}

/// The position of the first record with this id, or -1 when there is none.
pub open spec fn find_pos(m: Seq<Word>, id: int) -> int
    decreases m.len(),
{
    if m.len() <= 0 {
        -1
    } else if m[0].id as int == id {
        0
    } else {
        let r = find_pos(m.skip(1), id);
        if r < 0 {
            -1
        } else {
            r + 1
        }
    }
}

/// `find_pos` lands on the first record with the id, if any.
pub proof fn lemma_find_pos_props(m: Seq<Word>, id: int)
    ensures
        -1 <= find_pos(m, id) < m.len(),
        find_pos(m, id) >= 0 ==> m[find_pos(m, id)].id as int == id,
        find_pos(m, id) >= 0 ==> forall|j: int| 0 <= j < find_pos(m, id) ==> m[j].id as int != id,
        find_pos(m, id) == -1 ==> forall|j: int| 0 <= j < m.len() ==> m[j].id as int != id,
    decreases m.len(),
{
    if m.len() > 0 && m[0].id as int != id {
        lemma_find_pos_props(m.skip(1), id);
        assert forall|j: int| 1 <= j < m.len() implies m.skip(1)[j - 1] == m[j] by {}
    }
}

/// Scanning past a prefix free of the id does not change where it is found.
proof fn lemma_find_pos_skip(m: Seq<Word>, id: int, i: int)
    requires
        0 <= i <= m.len(),
        forall|j: int| 0 <= j < i ==> m[j].id as int != id,
    ensures
        find_pos(m, id) == if find_pos(m.skip(i), id) < 0 {
            -1 as int
        } else {
            find_pos(m.skip(i), id) + i
        },
    decreases i,
{
    if i == 0 {
        assert(m.skip(0) =~= m);
    } else {
        assert(m.len() > 0);
        assert(m[0].id as int != id);
        assert(forall|j: int| 0 <= j < i - 1 ==> m.skip(1)[j].id as int != id);
        lemma_find_pos_skip(m.skip(1), id, i - 1);
        assert(m.skip(1).skip(i - 1) =~= m.skip(i));
    }
}

/// Records whose ids agree pointwise are searched identically.
proof fn lemma_find_pos_same_ids(m1: Seq<Word>, m2: Seq<Word>, id: int)
    requires
        m1.len() == m2.len(),
        forall|j: int| 0 <= j < m1.len() ==> m1[j].id == m2[j].id,
    ensures
        find_pos(m1, id) == find_pos(m2, id),
    decreases m1.len(),
{
    if m1.len() > 0 {
        assert(forall|j: int|
            0 <= j < m1.skip(1).len() ==> m1.skip(1)[j].id == m2.skip(1)[j].id);
        lemma_find_pos_same_ids(m1.skip(1), m2.skip(1), id);
    }
}

/// `w2` is `w1` with only its review date replaced by `d`.
pub open spec fn date_set(w1: Word, w2: Word, d: Seq<char>) -> bool {
    &&& w2.id == w1.id
    &&& w2.word == w1.word
    &&& w2.word_class == w1.word_class
    &&& w2.meaning == w1.meaning
    &&& w2.review_count == w1.review_count
    &&& w2.correct_count == w1.correct_count
    &&& w2.last_review_date@ == d
    &&& w2.display_order == w1.display_order
}

/// `w2` is `w1` with its review date replaced by `d`, its review count
/// incremented, and its correct count incremented exactly when the review
/// was correct.
pub open spec fn counts_set(w1: Word, w2: Word, is_correct: bool, d: Seq<char>) -> bool {
    &&& w2.id == w1.id
    &&& w2.word == w1.word
    &&& w2.word_class == w1.word_class
    &&& w2.meaning == w1.meaning
    &&& w2.review_count as int == w1.review_count as int + 1
    &&& w2.correct_count as int == w1.correct_count as int + (if is_correct {
        1int
    } else {
        0int
    })
    &&& w2.last_review_date@ == d
    &&& w2.display_order == w1.display_order
}

/// `m2` is `m1` with only the record at `p` changed.
pub open spec fn same_except_at(m1: Seq<Word>, m2: Seq<Word>, p: int) -> bool {
    &&& m2.len() == m1.len()
    &&& forall|j: int| 0 <= j < m1.len() && j != p ==> m1[j] == #[trigger] m2[j]
}

/// Everything `update_to_current_date` changes, with `d` the date text the
/// clock produced: in mirror and table alike, exactly the identified
/// record's review date becomes `d`.
pub open spec fn date_updated(pre: DBConnection, post: DBConnection, id: int, d: Seq<char>) -> bool {
    let p = find_pos(pre.mirror(), id);
    &&& same_except_at(pre.mirror(), post.mirror(), p)
    &&& date_set(pre.mirror()[p], post.mirror()[p], d)
    &&& post.tbl() == with_date(pre.tbl(), id, d)
}

/// Everything `update_review_count` changes in the mirror, with `d` the
/// date text the clock produced.
pub open spec fn mirror_outcome_set(
    m1: Seq<Word>,
    m2: Seq<Word>,
    id: int,
    is_correct: bool,
    d: Seq<char>,
) -> bool {
    let p = find_pos(m1, id);
    &&& same_except_at(m1, m2, p)
    &&& counts_set(m1[p], m2[p], is_correct, d)
}

/// Everything `update_review_count` changes: the identified record's date
/// and counts, in mirror and table alike, the table taking the mirror's new
/// count values.
pub open spec fn review_outcome_applied(
    pre: DBConnection,
    post: DBConnection,
    id: int,
    is_correct: bool,
    d: Seq<char>,
) -> bool {
    let p = find_pos(pre.mirror(), id);
    &&& mirror_outcome_set(pre.mirror(), post.mirror(), id, is_correct, d)
    &&& post.tbl() == with_counts(
        pre.tbl(),
        id,
        post.mirror()[p].review_count as int,
        post.mirror()[p].correct_count as int,
        d,
    )
}

/// Writing the counts and the date over rows whose date was just written
/// leaves the same table as writing them over the original rows.
proof fn lemma_counts_absorb_date(t: Seq<Row>, id: int, rc: int, cc: int, d0: Seq<char>, d: Seq<char>)
    ensures
        with_counts(with_date(t, id, d0), id, rc, cc, d) == with_counts(t, id, rc, cc, d),
{
    assert forall|i: int| 0 <= i < t.len() implies with_counts(with_date(t, id, d0), id, rc, cc, d)[i]
        == with_counts(t, id, rc, cc, d)[i] by {}
    assert(with_counts(with_date(t, id, d0), id, rc, cc, d) =~= with_counts(t, id, rc, cc, d));
}

/// One typed field replacement, as `update_field` accepts it. Text fields
/// carry the raw text to persist; the grammatical classes are supplied in
/// their encoded form.
pub enum FieldUpdate {
    Word(String),
    WordClasses(String),
    Meaning(String),
    LastReviewDate(String),
    DisplayOrder(i32),
}

/// The column named by `value`, over every row carrying `id`, holds the raw
/// supplied value; nothing else changed.
pub open spec fn tbl_field_updated(t1: Seq<Row>, t2: Seq<Row>, id: int, value: FieldUpdate) -> bool {
    match value {
        FieldUpdate::Word(s) => t2 == with_word(t1, id, s@),
        FieldUpdate::WordClasses(s) => t2 == with_word_class(t1, id, s@),
        FieldUpdate::Meaning(s) => t2 == with_meaning(t1, id, s@),
        FieldUpdate::LastReviewDate(s) => t2 == with_date(t1, id, s@),
        FieldUpdate::DisplayOrder(v) => t2 == with_display(t1, id, v as int),
    }
}

/// `w2` is `w1` with the named field replaced by the converted value: the
/// supplied value itself, except for the class list, which is stored
/// decoded.
pub open spec fn record_field_set(w1: Word, w2: Word, value: FieldUpdate) -> bool {
    match value {
        FieldUpdate::Word(s) => w2 == (Word { word: s, ..w1 }),
        FieldUpdate::WordClasses(s) => {
            &&& w2.word_class@ == spec_decode_list(s@)
            &&& w2.id == w1.id
            &&& w2.word == w1.word
            &&& w2.meaning == w1.meaning
            &&& w2.review_count == w1.review_count
            &&& w2.correct_count == w1.correct_count
            &&& w2.last_review_date == w1.last_review_date
            &&& w2.display_order == w1.display_order
        },
        FieldUpdate::Meaning(s) => w2 == (Word { meaning: s, ..w1 }),
        FieldUpdate::LastReviewDate(s) => w2 == (Word { last_review_date: s, ..w1 }),
        FieldUpdate::DisplayOrder(v) => w2 == (Word { display_order: v, ..w1 }),
    }
}

/// The word store: owns the connection to the persisted `Words` table and
/// an in-memory mirror of its records, and keeps the two consistent on
/// every operation.
pub struct DBConnection {
    conn: rusqlite::Connection,
    context: Vec<Word>,
}

impl DBConnection {
    /// The in-memory mirror.
    pub closed spec fn mirror(self) -> Seq<Word> {
        self.context@
    }

    /// The persisted table as seen through the store's connection.
    pub closed spec fn tbl(self) -> Seq<Row> {
        table_of(self.conn)
    }

    /// Loads every row of the `Words` table reachable through `conn` into a
    /// fresh mirror.
    pub fn from_conn(conn: rusqlite::Connection) -> (r: Result<DBConnection, StoreError>)
        ensures
            r matches Ok(db) ==> {
                &&& db.tbl() == table_of(conn)
                &&& mirror_matches_table(db.mirror(), db.tbl())
            },
            r matches Err(e) ==> e matches StoreError::OpenFailure(_),
    {
        let rows = match query_rows(&conn) {
            Ok(v) => v,
            Err(e) => {
                return Err(StoreError::OpenFailure(e));
            },
        };
        let mut context: Vec<Word> = Vec::new();
        let mut i: usize = 0;
        while i < rows.len()
            invariant
                i <= rows@.len(),
                context@.len() == i,
                forall|j: int| 0 <= j < rows@.len() ==> (#[trigger] rows@[j])@ == table_of(conn)[j],
                rows@.len() == table_of(conn).len(),
                forall|j: int| 0 <= j < i ==> word_matches_row(#[trigger] context@[j], rows@[j]@),
            decreases rows@.len() - i,
        {
            let row = &rows[i];
            let classes = WordClass::from_string_to_list(row.word_class.as_str());
            let w = WordBuilder::new()
                .id(row.id)
                .word(row.word.clone())
                .word_classes(&classes)
                .meaning(row.meaning.clone())
                .review_count(row.review_count)
                .correct_count(row.correct_count)
                .last_review_date(row.last_review_date.clone())
                .display_order(row.display_order)
                .build();
            context.push(w);
            i += 1;
        }
        Ok(DBConnection { conn, context })
    }

    /// Opens (creating if absent) the database file at `path` and loads the
    /// `Words` table into the mirror. Fails if the file cannot be opened or
    /// the table is absent or unreadable.
    pub fn from_path(path: &str) -> (r: Result<DBConnection, StoreError>)
        ensures
            r matches Ok(db) ==> mirror_matches_table(db.mirror(), db.tbl()),
            r matches Err(e) ==> e matches StoreError::OpenFailure(_),
    {
        let conn = match open_conn(path) {
            Ok(c) => c,
            Err(e) => {
                return Err(StoreError::OpenFailure(e));
            },
        };
        Self::from_conn(conn)
    }

    /// The position in the mirror of the first record with this id.
    pub fn find_index(&self, id: i32) -> (r: Option<usize>)
        ensures
            r matches Some(p) ==> p as int == find_pos(self.mirror(), id as int),
            r is None ==> find_pos(self.mirror(), id as int) == -1,
    {
        let mut i: usize = 0;
        while i < self.context.len()
            invariant
                i <= self.context@.len(),
                forall|j: int| 0 <= j < i ==> self.context@[j].id as int != id as int,
            decreases self.context@.len() - i,
        {
            if self.context[i].id == id {
                proof {
                    lemma_find_pos_skip(self.context@, id as int, i as int);
                    assert(self.context@.skip(i as int)[0] == self.context@[i as int]);
                }
                return Some(i);
            }
            i += 1;
        }
        proof {
            lemma_find_pos_skip(self.context@, id as int, self.context@.len() as int);
            assert(self.context@.skip(self.context@.len() as int) =~= Seq::<Word>::empty());
        }
        None
    }

    /// Appends a batch of new records: all rows are inserted inside one
    /// transaction, and on success the mirror is extended with the same
    /// records, in the same order, at the end. The mirror keeps each record
    /// as given — its `id` field is not reconciled with the id the engine
    /// assigned to its row. On failure the mirror is unchanged.
    pub fn insert_words(&mut self, words: Vec<Word>) -> (r: Result<(), StoreError>)
        ensures
            r matches Ok(_) ==> {
                &&& final(self).mirror() == old(self).mirror() + words@
                &&& final(self).tbl().len() == old(self).tbl().len() + words@.len()
                &&& forall|i: int|
                    0 <= i < old(self).tbl().len() ==> final(self).tbl()[i] == old(self).tbl()[i]
                &&& forall|i: int|
                    0 <= i < words@.len() ==> row_encodes(
                        #[trigger] final(self).tbl()[old(self).tbl().len() + i],
                        words@[i],
                    )
            },
            r matches Err(e) ==> {
                &&& final(self).mirror() == old(self).mirror()
                &&& e matches StoreError::StatementFailure(_)
            },
    {
        match exec_begin(&mut self.conn) {
            Ok(_) => {},
            Err(e) => {
                return Err(StoreError::StatementFailure(e));
            },
        }
        let mut i: usize = 0;
        while i < words.len()
            invariant
                i <= words@.len(),
                self.context@ == old(self).context@,
                table_of(self.conn).len() == table_of(old(self).conn).len() + i,
                forall|j: int|
                    0 <= j < table_of(old(self).conn).len() ==> #[trigger] table_of(self.conn)[j]
                        == table_of(old(self).conn)[j],
                forall|j: int|
                    0 <= j < i ==> row_encodes(
                        #[trigger] table_of(self.conn)[table_of(old(self).conn).len() + j],
                        words@[j],
                    ),
            decreases words@.len() - i,
        {
            let w = &words[i];
            let encoded = WordClass::wordclass_list_to_string(&w.word_class);
            match exec_insert_row(
                &mut self.conn,
                &w.word,
                &encoded,
                &w.meaning,
                w.review_count,
                w.correct_count,
                &w.last_review_date,
                w.display_order,
            ) {
                Ok(_) => {},
                Err(e) => {
                    return Err(StoreError::StatementFailure(e));
                },
            }
            i += 1;
        }
        match exec_commit(&mut self.conn) {
            Ok(_) => {},
            Err(e) => {
                return Err(StoreError::StatementFailure(e));
            },
        }
        let mut rest = words;
        self.context.append(&mut rest);
        Ok(())
    }

    /// Deletes the rows carrying `id` from the table and removes the first
    /// mirror record with that id, if one exists. On failure the mirror is
    /// unchanged.
    pub fn delete_word(&mut self, id: i32) -> (r: Result<(), StoreError>)
        ensures
            r matches Ok(_) ==> {
                &&& final(self).tbl() == old(self).tbl().filter(|row: Row| row.id != id as int)
                &&& if find_pos(old(self).mirror(), id as int) >= 0 {
                    final(self).mirror() == old(self).mirror().remove(
                        find_pos(old(self).mirror(), id as int),
                    )
                } else {
                    final(self).mirror() == old(self).mirror()
                }
            },
            r matches Err(e) ==> {
                &&& final(self).mirror() == old(self).mirror()
                &&& e matches StoreError::StatementFailure(_)
            },
    {
        match exec_delete(&mut self.conn, id) {
            Ok(_) => {},
            Err(e) => {
                return Err(StoreError::StatementFailure(e));
            },
        }
        proof {
            lemma_find_pos_props(self.context@, id as int);
        }
        match self.find_index(id) {
            Some(p) => {
                let _ = self.context.remove(p);
            },
            None => {},
        }
        Ok(())
    }

    /// Sets the identified record's `last_review_date` to the current local
    /// calendar date, in table and mirror; the mirror is patched only after
    /// the persistent write succeeds.
    pub fn update_to_current_date(&mut self, id: i32) -> (r: Result<(), StoreError>)
        requires
            find_pos(old(self).mirror(), id as int) >= 0,
        ensures
            r matches Ok(_) ==> exists|d: Seq<char>|
                #[trigger] date_updated(*old(self), *final(self), id as int, d),
            r matches Err(e) ==> {
                &&& final(self).mirror() == old(self).mirror()
                &&& e matches StoreError::StatementFailure(_)
            },
    {
        let date = today_string();
        let ghost dv = date@;
        match exec_update_date(&mut self.conn, id, &date) {
            Ok(_) => {},
            Err(e) => {
                return Err(StoreError::StatementFailure(e));
            },
        }
        proof {
            lemma_find_pos_props(self.context@, id as int);
        }
        let p: usize = match self.find_index(id) {
            Some(p) => p,
            None => {
                proof {
                    assert(false);
                }
                0
            },
        };
        let w = self.context.remove(p);
        let w2 = Word { last_review_date: date, ..w };
        self.context.insert(p, w2);
        proof {
            assert(self.context@ =~= old(self).context@.update(p as int, w2));
            assert(date_updated(*old(self), *self, id as int, dv));
        }
        Ok(())
    }

    /// Applies one review outcome to the identified record: sets the review
    /// date to the current date, increments `review_count`, increments
    /// `correct_count` exactly when the review was correct, and persists the
    /// three columns together. The date is persisted first, so a failure on
    /// the second statement leaves the date updated everywhere and the new
    /// counts only in the mirror.
    pub fn update_review_count(&mut self, id: i32, is_correct: bool) -> (r: Result<(), StoreError>)
        requires
            find_pos(old(self).mirror(), id as int) >= 0,
            old(self).mirror()[find_pos(old(self).mirror(), id as int)].review_count < i32::MAX,
            is_correct ==> old(self).mirror()[find_pos(old(self).mirror(), id as int)].correct_count
                < i32::MAX,
        ensures
            r matches Ok(_) ==> exists|d: Seq<char>|
                #[trigger] review_outcome_applied(*old(self), *final(self), id as int, is_correct, d),
            r matches Err(e) ==> {
                &&& e matches StoreError::StatementFailure(_)
                &&& (final(self).mirror() == old(self).mirror() || exists|d: Seq<char>|
                    #[trigger] mirror_outcome_set(
                        old(self).mirror(),
                        final(self).mirror(),
                        id as int,
                        is_correct,
                        d,
                    ))
            },
    {
        let ghost pre = *self;
        match self.update_to_current_date(id) {
            Ok(_) => {},
            Err(e) => {
                return Err(e);
            },
        }
        proof {
            let d0 = choose|d: Seq<char>| date_updated(pre, *self, id as int, d);
            assert(date_updated(pre, *self, id as int, d0));
            lemma_find_pos_props(pre.context@, id as int);
            assert(forall|j: int|
                0 <= j < pre.context@.len() ==> pre.context@[j].id == self.context@[j].id);
            lemma_find_pos_same_ids(pre.context@, self.context@, id as int);
        }
        let p: usize = match self.find_index(id) {
            Some(p) => p,
            None => {
                proof {
                    assert(false);
                }
                0
            },
        };
        let ghost mid = *self;
        let ghost d0 = choose|d: Seq<char>| date_updated(pre, *self, id as int, d);
        let w = self.context.remove(p);
        let date_copy = w.last_review_date.clone();
        let new_rc: i32 = w.review_count + 1;
        let new_cc: i32 = if is_correct {
            w.correct_count + 1
        } else {
            w.correct_count
        };
        let w2 = Word { review_count: new_rc, correct_count: new_cc, ..w };
        self.context.insert(p, w2);
        proof {
            assert(self.context@ =~= mid.context@.update(p as int, w2));
            assert(date_copy@ == d0);
            assert(mirror_outcome_set(pre.mirror(), self.mirror(), id as int, is_correct, d0));
        }
        match exec_update_counts(&mut self.conn, id, new_rc, new_cc, &date_copy) {
            Ok(_) => {},
            Err(e) => {
                return Err(StoreError::StatementFailure(e));
            },
        }
        proof {
            lemma_counts_absorb_date(
                pre.tbl(),
                id as int,
                new_rc as int,
                new_cc as int,
                d0,
                date_copy@,
            );
            assert(review_outcome_applied(pre, *self, id as int, is_correct, d0));
        }
        Ok(())
    }

    /// Replaces one field of the identified record: the mirror takes the
    /// converted value (the supplied value itself, or the decoded class
    /// list), the table takes the raw supplied value, and the mirror is
    /// patched only after the persistent write succeeds.
    pub fn update_field(&mut self, id: i32, value: FieldUpdate) -> (r: Result<(), StoreError>)
        requires
            find_pos(old(self).mirror(), id as int) >= 0,
        ensures
            r matches Ok(_) ==> {
                let p = find_pos(old(self).mirror(), id as int);
                &&& tbl_field_updated(old(self).tbl(), final(self).tbl(), id as int, value)
                &&& same_except_at(old(self).mirror(), final(self).mirror(), p)
                &&& record_field_set(old(self).mirror()[p], final(self).mirror()[p], value)
            },
            r matches Err(e) ==> {
                &&& final(self).mirror() == old(self).mirror()
                &&& e matches StoreError::StatementFailure(_)
            },
    {
        proof {
            lemma_find_pos_props(self.context@, id as int);
        }
        let p: usize = match self.find_index(id) {
            Some(p) => p,
            None => {
                proof {
                    assert(false);
                }
                0
            },
        };
        match value {
            FieldUpdate::Word(s) => {
                match exec_update_word(&mut self.conn, id, &s) {
                    Ok(_) => {},
                    Err(e) => {
                        return Err(StoreError::StatementFailure(e));
                    },
                }
                let w = self.context.remove(p);
                let w2 = Word { word: s, ..w };
                self.context.insert(p, w2);
                proof {
                    assert(self.context@ =~= old(self).context@.update(p as int, w2));
                }
            },
            FieldUpdate::WordClasses(s) => {
                match exec_update_word_class(&mut self.conn, id, &s) {
                    Ok(_) => {},
                    Err(e) => {
                        return Err(StoreError::StatementFailure(e));
                    },
                }
                let classes = WordClass::from_string_to_list(s.as_str());
                let w = self.context.remove(p);
                let w2 = Word { word_class: classes, ..w };
                self.context.insert(p, w2);
                proof {
                    assert(self.context@ =~= old(self).context@.update(p as int, w2));
                }
            },
            FieldUpdate::Meaning(s) => {
                match exec_update_meaning(&mut self.conn, id, &s) {
                    Ok(_) => {},
                    Err(e) => {
                        return Err(StoreError::StatementFailure(e));
                    },
                }
                let w = self.context.remove(p);
                let w2 = Word { meaning: s, ..w };
                self.context.insert(p, w2);
                proof {
                    assert(self.context@ =~= old(self).context@.update(p as int, w2));
                }
            },
            FieldUpdate::LastReviewDate(s) => {
                match exec_update_date(&mut self.conn, id, &s) {
                    Ok(_) => {},
                    Err(e) => {
                        return Err(StoreError::StatementFailure(e));
                    },
                }
                let w = self.context.remove(p);
                let w2 = Word { last_review_date: s, ..w };
                self.context.insert(p, w2);
                proof {
                    assert(self.context@ =~= old(self).context@.update(p as int, w2));
                }
            },
            FieldUpdate::DisplayOrder(v) => {
                match exec_update_display(&mut self.conn, id, v) {
                    Ok(_) => {},
                    Err(e) => {
                        return Err(StoreError::StatementFailure(e));
                    },
                }
                let w = self.context.remove(p);
                let w2 = Word { display_order: v, ..w };
                self.context.insert(p, w2);
                proof {
                    assert(self.context@ =~= old(self).context@.update(p as int, w2));
                }
            },
        }
        Ok(())
    }

    /// Read access to the mirror, in its stored order.
    pub fn words(&self) -> (r: &Vec<Word>)
        ensures
            r@ == self.mirror(),
    {
        &self.context
    }
}

} // verus!
