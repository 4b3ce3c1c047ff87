use qiancizhan::word_model::WordClass;

#[test]
fn from_string_test0() {
    let wc = WordClass::from_string_to_list("n.;v.;adj.;");
    assert_eq!(wc, vec![WordClass::N, WordClass::V, WordClass::Adj]);
}

#[test]
fn from_string_test1() {
    let wc = WordClass::from_string_to_list("n.;");
    assert_eq!(wc, vec![WordClass::N]);
}

#[test]
fn wordclass_to_string() {
    assert_eq!(
        WordClass::wordclass_to_string(&WordClass::Adv),
        "adv.".to_string()
    );
}

#[test]
fn wordclass_list_to_string() {
    assert_eq!(
        WordClass::wordclass_list_to_string(&vec![
            WordClass::N,
            WordClass::Adv,
            WordClass::V
        ]),
        "n.;adv.;v.;".to_string()
    );
}

#[test]
fn empty_list_encodes_to_empty_string() {
    assert_eq!(WordClass::wordclass_list_to_string(&vec![]), "".to_string());
}

#[test]
fn empty_string_decodes_to_empty_list() {
    assert_eq!(WordClass::from_string_to_list(""), vec![]);
}

#[test]
fn unrecognized_token_decodes_to_unknown() {
    assert_eq!(
        WordClass::from_string("not-a-real-token"),
        WordClass::Unknown
    );
}

#[test]
fn noun_verb_pair_encodes_and_decodes() {
    assert_eq!(
        WordClass::wordclass_list_to_string(&vec![WordClass::N, WordClass::V]),
        "n.;v.;".to_string()
    );
    assert_eq!(
        WordClass::from_string_to_list("n.;v.;"),
        vec![WordClass::N, WordClass::V]
    );
}

#[test]
fn every_variant_round_trips() {
    let all = vec![
        WordClass::N,
        WordClass::V,
        WordClass::Adj,
        WordClass::Adv,
        WordClass::Par,
        WordClass::Pron,
        WordClass::Num,
        WordClass::Art,
        WordClass::Prep,
        WordClass::Conj,
        WordClass::Interj,
        WordClass::Unknown,
    ];
    for wc in &all {
        let token = WordClass::wordclass_to_string(wc);
        assert_eq!(WordClass::from_string(token.as_str()), *wc);
    }
}

#[test]
fn list_with_duplicates_round_trips() {
    let list = vec![
        WordClass::N,
        WordClass::N,
        WordClass::Unknown,
        WordClass::Interj,
        WordClass::V,
    ];
    let encoded = WordClass::wordclass_list_to_string(&list);
    assert_eq!(encoded, "n.;n.;unknown.;interj.;v.;".to_string());
    assert_eq!(WordClass::from_string_to_list(encoded.as_str()), list);
}
