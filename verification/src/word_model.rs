use vstd::prelude::*;

verus! {

/// One grammatical category of a headword. `Unknown` is both an explicit
/// category and the fallback that decoding uses for unrecognized tokens;
/// it is also the default.
#[derive(PartialEq, Eq, Structural, Clone, Copy, Debug)]
pub enum WordClass {
    N,
    V,
    Adj,
    Adv,
    Par,
    Pron,
    Num,
    Art,
    Prep,
    Conj,
    Interj,
    Unknown,
}

impl Default for WordClass {
    fn default() -> (r: Self)
        ensures
            r == WordClass::Unknown,
    {
        WordClass::Unknown
    }
}

/// The canonical text token of a grammatical class.
pub open spec fn spec_token(wc: WordClass) -> Seq<char> {
    match wc {
        WordClass::N => "n."@,
        WordClass::V => "v."@,
        WordClass::Adj => "adj."@,
        WordClass::Adv => "adv."@,
        WordClass::Par => "par."@,
        WordClass::Pron => "pron."@,
        WordClass::Num => "num."@,
        WordClass::Art => "art."@,
        WordClass::Prep => "prep."@,
        WordClass::Conj => "conj."@,
        WordClass::Interj => "interj."@,
        WordClass::Unknown => "unknown."@,
    }
}

/// The grammatical class whose canonical token is `s`, or `Unknown` when no
/// token matches (including the token "unknown." itself).
pub open spec fn spec_from_string(s: Seq<char>) -> WordClass {
    if s == "n."@ {
        WordClass::N
    } else if s == "v."@ {
        WordClass::V
    } else if s == "adj."@ {
        WordClass::Adj
    } else if s == "adv."@ {
        WordClass::Adv
    } else if s == "par."@ {
        WordClass::Par
    } else if s == "pron."@ {
        WordClass::Pron
    } else if s == "num."@ {
        WordClass::Num
    } else if s == "art."@ {
        WordClass::Art
    } else if s == "prep."@ {
        WordClass::Prep
    } else if s == "conj."@ {
        WordClass::Conj
    } else if s == "interj."@ {
        WordClass::Interj
    } else {
        WordClass::Unknown
    }
}

/// Decoding state: `cur` is the token text read since the last separator.
/// Each `;` closes the current token; whatever follows the last `;` is
/// dropped, so an empty field decodes to the empty sequence.
pub open spec fn spec_decode_aux(s: Seq<char>, cur: Seq<char>) -> Seq<WordClass>
    decreases s.len(),
{
    if s.len() <= 0 {
        Seq::empty()
    } else if s[0] == ';' {
        seq![spec_from_string(cur)] + spec_decode_aux(s.skip(1), Seq::empty())
    } else {
        spec_decode_aux(s.skip(1), cur.push(s[0]))
    }
}

/// The ordered grammatical classes encoded in a `;`-terminated field.
pub open spec fn spec_decode_list(s: Seq<char>) -> Seq<WordClass> {
    spec_decode_aux(s, Seq::empty())
}

/// The `;`-terminated concatenation of the canonical tokens of `wcs`.
pub open spec fn spec_encode_list(wcs: Seq<WordClass>) -> Seq<char>
    decreases wcs.len(),
{
    if wcs.len() <= 0 {
        Seq::empty()
    } else {
        spec_token(wcs[0]) + seq![';'] + spec_encode_list(wcs.skip(1))
    }
}

fn chars_eq_str(buf: &Vec<char>, tok: &str) -> (r: bool)
    ensures
        r == (buf@ == tok@),
{
    let n: usize = tok.unicode_len();
    if buf.len() != n {
        return false;
    }
    let mut i: usize = 0;
    while i < n
        invariant
            i <= n,
            n == tok@.len(),
            buf@.len() == n,
            forall|j: int| 0 <= j < i ==> buf@[j] == tok@[j],
        decreases n - i,
    {
        if buf[i] != tok.get_char(i) {
            return false;
        }
        i += 1;
    }
    proof {
        assert(buf@ =~= tok@);
    }
    true
}

fn classify(buf: &Vec<char>) -> (wc: WordClass)
    ensures
        wc == spec_from_string(buf@),
{
    if chars_eq_str(buf, "n.") {
        WordClass::N
    } else if chars_eq_str(buf, "v.") {
        WordClass::V
    } else if chars_eq_str(buf, "adj.") {
        WordClass::Adj
    } else if chars_eq_str(buf, "adv.") {
        WordClass::Adv
    } else if chars_eq_str(buf, "par.") {
        WordClass::Par
    } else if chars_eq_str(buf, "pron.") {
        WordClass::Pron
    } else if chars_eq_str(buf, "num.") {
        WordClass::Num
    } else if chars_eq_str(buf, "art.") {
        WordClass::Art
    } else if chars_eq_str(buf, "prep.") {
        WordClass::Prep
    } else if chars_eq_str(buf, "conj.") {
        WordClass::Conj
    } else if chars_eq_str(buf, "interj.") {
        WordClass::Interj
    } else {
        WordClass::Unknown
    }
}

fn str_chars(s: &str) -> (v: Vec<char>)
    ensures
        v@ == s@,
{
    let n: usize = s.unicode_len();
    let mut v: Vec<char> = Vec::new();
    let mut i: usize = 0;
    while i < n
        invariant
            i <= n,
            n == s@.len(),
            v@ == s@.take(i as int),
        decreases n - i,
    {
        v.push(s.get_char(i));
        proof {
            assert(v@ =~= s@.take(i + 1));
        }
        i += 1;
    }
    proof {
        assert(s@.take(n as int) =~= s@);
    }
    v
}

impl WordClass {
    /// The class whose canonical token is `s`; `Unknown` for any other text.
    pub fn from_string(s: &str) -> (wc: WordClass)
        ensures
            wc == spec_from_string(s@),
    {
        let v = str_chars(s);
        classify(&v)
    }

    /// Decodes a `;`-terminated field into its ordered list of classes.
    pub fn from_string_to_list(s: &str) -> (r: Vec<WordClass>)
        ensures
            r@ == spec_decode_list(s@),
    {
        let n: usize = s.unicode_len();
        let mut out: Vec<WordClass> = Vec::new();
        let mut buf: Vec<char> = Vec::new();
        let mut i: usize = 0;
        proof {
            assert(s@.skip(0) =~= s@);
            assert(out@ + spec_decode_aux(s@, buf@) =~= spec_decode_aux(s@, buf@));
        }
        while i < n
            invariant
                i <= n,
                n == s@.len(),
                spec_decode_list(s@) == out@ + spec_decode_aux(s@.skip(i as int), buf@),
            decreases n - i,
        {
            let c = s.get_char(i);
            proof {
                assert(s@.skip(i as int)[0] == c);
                assert(s@.skip(i as int).skip(1) =~= s@.skip(i + 1));
            }
            if c == ';' {
                let wc = classify(&buf);
                out.push(wc);
                buf = Vec::new();
                proof {
                    assert(out@ + spec_decode_aux(s@.skip(i + 1), buf@) =~= spec_decode_list(s@));
                }
            } else {
                buf.push(c);
            }
            i += 1;
        }
        proof {
            assert(s@.skip(n as int) =~= Seq::<char>::empty());
        }
        out
    }

    /// The canonical token of `wc`, as an owned string.
    pub fn wordclass_to_string(wc: &WordClass) -> (r: String)
        ensures
            r@ == spec_token(*wc),
    {
        match wc {
            WordClass::N => "n.".to_owned(),
            WordClass::V => "v.".to_owned(),
            WordClass::Adj => "adj.".to_owned(),
            WordClass::Adv => "adv.".to_owned(),
            WordClass::Par => "par.".to_owned(),
            WordClass::Pron => "pron.".to_owned(),
            WordClass::Num => "num.".to_owned(),
            WordClass::Art => "art.".to_owned(),
            WordClass::Prep => "prep.".to_owned(),
            WordClass::Conj => "conj.".to_owned(),
            WordClass::Interj => "interj.".to_owned(),
            WordClass::Unknown => "unknown.".to_owned(),
        }
    }

    /// Encodes `wcs` as the concatenation of each canonical token followed
    /// by `;`, preserving order; an empty list encodes to the empty string.
    pub fn wordclass_list_to_string(wcs: &Vec<WordClass>) -> (r: String)
        ensures
            r@ == spec_encode_list(wcs@),
    {
        let mut r = String::new();
        let mut i: usize = 0;
        while i < wcs.len()
            invariant
                i <= wcs@.len(),
                r@ == spec_encode_list(wcs@.take(i as int)),
            decreases wcs@.len() - i,
        {
            let t = Self::wordclass_to_string(&wcs[i]);
            r.append(t.as_str());
            r.append(";");
            proof {
                reveal_strlit(";");
                assert(";"@ =~= seq![';']);
                let pre = wcs@.take(i as int);
                let one = seq![wcs@[i as int]];
                assert(pre + one =~= wcs@.take(i + 1));
                lemma_encode_concat(pre, one);
                assert(one.skip(1) =~= Seq::<WordClass>::empty());
                assert(spec_encode_list(one.skip(1)) == Seq::<char>::empty());
                assert(spec_encode_list(one) =~= spec_token(wcs@[i as int]) + seq![';']);
                assert(r@ =~= spec_encode_list(wcs@.take(i + 1)));
            }
            i += 1;
        }
        proof {
            assert(wcs@.take(wcs@.len() as int) =~= wcs@);
        }
        r
    }
}

/// The view of each canonical token literal, as a concrete char sequence.
proof fn lemma_token_concrete()
    ensures
        "n."@ == seq!['n', '.'],
        "v."@ == seq!['v', '.'],
        "adj."@ == seq!['a', 'd', 'j', '.'],
        "adv."@ == seq!['a', 'd', 'v', '.'],
        "par."@ == seq!['p', 'a', 'r', '.'],
        "pron."@ == seq!['p', 'r', 'o', 'n', '.'],
        "num."@ == seq!['n', 'u', 'm', '.'],
        "art."@ == seq!['a', 'r', 't', '.'],
        "prep."@ == seq!['p', 'r', 'e', 'p', '.'],
        "conj."@ == seq!['c', 'o', 'n', 'j', '.'],
        "interj."@ == seq!['i', 'n', 't', 'e', 'r', 'j', '.'],
        "unknown."@ == seq!['u', 'n', 'k', 'n', 'o', 'w', 'n', '.'],
{
    reveal_strlit("n.");
    reveal_strlit("v.");
    reveal_strlit("adj.");
    reveal_strlit("adv.");
    reveal_strlit("par.");
    reveal_strlit("pron.");
    reveal_strlit("num.");
    reveal_strlit("art.");
    reveal_strlit("prep.");
    reveal_strlit("conj.");
    reveal_strlit("interj.");
    reveal_strlit("unknown.");
    assert("n."@ =~= seq!['n', '.']);
    assert("v."@ =~= seq!['v', '.']);
    assert("adj."@ =~= seq!['a', 'd', 'j', '.']);
    assert("adv."@ =~= seq!['a', 'd', 'v', '.']);
    assert("par."@ =~= seq!['p', 'a', 'r', '.']);
    assert("pron."@ =~= seq!['p', 'r', 'o', 'n', '.']);
    assert("num."@ =~= seq!['n', 'u', 'm', '.']);
    assert("art."@ =~= seq!['a', 'r', 't', '.']);
    assert("prep."@ =~= seq!['p', 'r', 'e', 'p', '.']);
    assert("conj."@ =~= seq!['c', 'o', 'n', 'j', '.']);
    assert("interj."@ =~= seq!['i', 'n', 't', 'e', 'r', 'j', '.']);
    assert("unknown."@ =~= seq!['u', 'n', 'k', 'n', 'o', 'w', 'n', '.']);
}

proof fn lemma_reveal_tokens()
    ensures
        forall|wc: WordClass| (#[trigger] spec_token(wc)).len() > 0,
        forall|wc: WordClass, i: int|
            0 <= i < spec_token(wc).len() ==> #[trigger] spec_token(wc)[i] != ';',
        forall|wc: WordClass| #[trigger] spec_from_string(spec_token(wc)) == wc,
{
    lemma_token_concrete();
    assert forall|wc: WordClass| (#[trigger] spec_token(wc)).len() > 0 by {
        lemma_token_concrete();
    }
    assert forall|wc: WordClass, i: int|
        0 <= i < spec_token(wc).len() implies #[trigger] spec_token(wc)[i] != ';' by {
        lemma_token_concrete();
    }
    assert forall|wc: WordClass| #[trigger] spec_from_string(spec_token(wc)) == wc by {
        lemma_token_concrete();
    }
}

/// Decoding a class from its own canonical token gives the class back, for
/// every variant, `Unknown` included.
pub proof fn lemma_from_string_of_token(wc: WordClass)
    ensures
        spec_from_string(spec_token(wc)) == wc,
{
    lemma_reveal_tokens();
}

/// Encoding distributes over concatenation of class lists.
proof fn lemma_encode_concat(a: Seq<WordClass>, b: Seq<WordClass>)
    ensures
        spec_encode_list(a + b) == spec_encode_list(a) + spec_encode_list(b),
    decreases a.len(),
{
    if a.len() == 0 {
        assert(a + b =~= b);
        assert(spec_encode_list(a) + spec_encode_list(b) =~= spec_encode_list(b));
    } else {
        assert((a + b).len() > 0);
        assert((a + b)[0] == a[0]);
        assert((a + b).skip(1) =~= a.skip(1) + b);
        lemma_encode_concat(a.skip(1), b);
        assert(spec_encode_list(a + b) =~= spec_encode_list(a) + spec_encode_list(b));
    }
}

/// While no separator has been read, decoding just accumulates the token.
proof fn lemma_decode_aux_prepend(t: Seq<char>, s: Seq<char>, cur: Seq<char>)
    requires
        forall|i: int| 0 <= i < t.len() ==> t[i] != ';',
    ensures
        spec_decode_aux(t + s, cur) == spec_decode_aux(s, cur + t),
    decreases t.len(),
{
    if t.len() == 0 {
        assert(t + s =~= s);
        assert(cur + t =~= cur);
    } else {
        assert((t + s)[0] == t[0]);
        assert(t[0] != ';');
        assert((t + s).skip(1) =~= t.skip(1) + s);
        assert(forall|i: int| 0 <= i < t.skip(1).len() ==> t.skip(1)[i] != ';');
        lemma_decode_aux_prepend(t.skip(1), s, cur.push(t[0]));
        assert(cur.push(t[0]) + t.skip(1) =~= cur + t);
    }
}

/// Round trip: decoding the encoding of any list of classes gives the list
/// back, order and duplicates preserved.
pub proof fn lemma_decode_of_encode(wcs: Seq<WordClass>)
    ensures
        spec_decode_list(spec_encode_list(wcs)) == wcs,
    decreases wcs.len(),
{
    lemma_reveal_tokens();
    if wcs.len() == 0 {
        assert(spec_decode_list(spec_encode_list(wcs)) =~= wcs);
    } else {
        let t = spec_token(wcs[0]);
        let rest = spec_encode_list(wcs.skip(1));
        assert(spec_encode_list(wcs) =~= t + (seq![';'] + rest));
        lemma_decode_aux_prepend(t, seq![';'] + rest, Seq::empty());
        assert(Seq::<char>::empty() + t =~= t);
        assert((seq![';'] + rest)[0] == ';');
        assert((seq![';'] + rest).skip(1) =~= rest);
        assert(spec_decode_aux(seq![';'] + rest, t) == seq![spec_from_string(t)] + spec_decode_aux(
            rest,
            Seq::empty(),
        ));
        lemma_decode_of_encode(wcs.skip(1));
        assert(seq![wcs[0]] + wcs.skip(1) =~= wcs);
    }
}

/// One vocabulary entry: the headword, its ordered grammatical classes, a
/// meaning, review statistics, and a caller-controlled display order.
/// `correct_count <= review_count` is expected of callers but, as in the
/// stored table, not enforced here.
#[derive(Debug, Clone, PartialEq)]
pub struct Word {
    pub id: i32,
    pub word: String,
    pub word_class: Vec<WordClass>,
    pub meaning: String,
    pub review_count: i32,
    pub correct_count: i32,
    pub last_review_date: String,
    pub display_order: i32,
}

/// Every field holds its type's default value.
pub open spec fn spec_word_is_default(w: Word) -> bool {
    &&& w.id == 0
    &&& w.word@ == Seq::<char>::empty()
    &&& w.word_class@ == Seq::<WordClass>::empty()
    &&& w.meaning@ == Seq::<char>::empty()
    &&& w.review_count == 0
    &&& w.correct_count == 0
    &&& w.last_review_date@ == Seq::<char>::empty()
    &&& w.display_order == 0
}

impl Default for Word {
    fn default() -> (r: Self)
        ensures
            spec_word_is_default(r),
    {
        Word {
            id: 0,
            word: String::new(),
            word_class: Vec::new(),
            meaning: String::new(),
            review_count: 0,
            correct_count: 0,
            last_review_date: String::new(),
            display_order: 0,
        }
    }
}

} // verus!
