use vstd::prelude::*;

use crate::word_model::{Word, WordClass};
use crate::word_model::spec_word_is_default;

verus! {

/// Fluent constructor for a `Word`: each setter consumes the builder and
/// returns it, and `build` yields the accumulated record. A field never set
/// keeps its default. `word_classes` replaces everything `word_class`
/// appended before it, so the two styles must not be mixed additively.
pub struct WordBuilder {
    word: Word,
}

impl WordBuilder {
    /// The value accumulated so far.
    pub closed spec fn current(self) -> Word {
        self.word
    }

    pub fn new() -> (r: WordBuilder)
        ensures
            spec_word_is_default(r.current()),
    {
        WordBuilder { word: Word::default() }
    }

    pub fn id(self, id: i32) -> (r: WordBuilder)
        ensures
            r.current() == (Word { id, ..self.current() }),
    {
        let mut s = self;
        s.word.id = id;
        s
    }

    pub fn word(self, word: String) -> (r: WordBuilder)
        ensures
            r.current() == (Word { word, ..self.current() }),
    {
        let mut s = self;
        s.word.word = word;
        s
    }

    /// Appends one class after those already accumulated.
    pub fn word_class(self, wc: WordClass) -> (r: WordBuilder)
        ensures
            r.current().word_class@ == self.current().word_class@.push(wc),
            r.current().id == self.current().id,
            r.current().word == self.current().word,
            r.current().meaning == self.current().meaning,
            r.current().review_count == self.current().review_count,
            r.current().correct_count == self.current().correct_count,
            r.current().last_review_date == self.current().last_review_date,
            r.current().display_order == self.current().display_order,
    {
        let mut s = self;
        s.word.word_class.push(wc);
        s
    }

    /// Replaces the accumulated classes with a copy of `wcs`.
    pub fn word_classes(self, wcs: &Vec<WordClass>) -> (r: WordBuilder)
        ensures
            r.current().word_class@ == wcs@,
            r.current().id == self.current().id,
            r.current().word == self.current().word,
            r.current().meaning == self.current().meaning,
            r.current().review_count == self.current().review_count,
            r.current().correct_count == self.current().correct_count,
            r.current().last_review_date == self.current().last_review_date,
            r.current().display_order == self.current().display_order,
    {
        let mut copy: Vec<WordClass> = Vec::new();
        let mut i: usize = 0;
        while i < wcs.len()
            invariant
                i <= wcs@.len(),
                copy@ == wcs@.take(i as int),
            decreases wcs@.len() - i,
        {
            copy.push(wcs[i]);
            proof {
                assert(copy@ =~= wcs@.take(i + 1));
            }
            i += 1;
        }
        proof {
            assert(wcs@.take(wcs@.len() as int) =~= wcs@);
        }
        let mut s = self;
        s.word.word_class = copy;
        s
    }

    pub fn meaning(self, meaning: String) -> (r: WordBuilder)
        ensures
            r.current() == (Word { meaning, ..self.current() }),
    {
        let mut s = self;
        s.word.meaning = meaning;
        s
    }

    pub fn review_count(self, review_count: i32) -> (r: WordBuilder)
        ensures
            r.current() == (Word { review_count, ..self.current() }),
    {
        let mut s = self;
        s.word.review_count = review_count;
        s
    }

    pub fn correct_count(self, correct_count: i32) -> (r: WordBuilder)
        ensures
            r.current() == (Word { correct_count, ..self.current() }),
    {
        let mut s = self;
        s.word.correct_count = correct_count;
        s
    }

    pub fn last_review_date(self, last_review_date: String) -> (r: WordBuilder)
        ensures
            r.current() == (Word { last_review_date, ..self.current() }),
    {
        let mut s = self;
        s.word.last_review_date = last_review_date;
        s
    }

    pub fn display_order(self, display_order: i32) -> (r: WordBuilder)
        ensures
            r.current() == (Word { display_order, ..self.current() }),
    {
        let mut s = self;
        s.word.display_order = display_order;
        s
    }

    pub fn build(self) -> (r: Word)
        ensures
            r == self.current(),
    {
        self.word
    }
}

} // verus!
