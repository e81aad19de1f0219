use conllu_utils::accuracy::{callback_eval, LayerAccuracy};
use conllu_utils::align::align_pair;
use conllu_utils::attachment::{dependency_eval, is_punct_form, AttachmentScores};
use conllu_utils::error::EvalError;
use conllu_utils::layer::{feature_callback, Layer};
use conllu_utils::token::{Edge, Sentence, Token, Word};

fn word(form: &str, upos: Option<&str>, head: usize, rel: &str) -> Word {
    let mut token = Token::new(form.to_string());
    token.upos = upos.map(|s| s.to_string());
    Word {
        token,
        head: Some(Edge {
            head,
            relation: Some(rel.to_string()),
        }),
    }
}

fn sentence(edges: &[(usize, &str)]) -> Sentence {
    Sentence {
        words: edges
            .iter()
            .enumerate()
            .map(|(i, (h, r))| word(&format!("w{}", i), Some("NOUN"), *h, r))
            .collect(),
    }
}

fn sized(n: usize) -> Sentence {
    Sentence {
        words: (0..n).map(|i| word(&format!("t{}", i), None, 0, "dep")).collect(),
    }
}

#[test]
fn worked_example_head_differs() {
    let gold = sentence(&[(2, "nsubj"), (0, "root"), (2, "obj")]);
    let pred = sentence(&[(2, "nsubj"), (0, "root"), (3, "obj")]);
    let s = dependency_eval(&vec![gold], &vec![pred]).unwrap();
    assert_eq!(s.total, 3);
    assert_eq!(s.labeled_correct, 2);
    assert_eq!(s.unlabeled_correct, 2);
}

#[test]
fn worked_example_label_differs() {
    let gold = sentence(&[(2, "nsubj"), (0, "root"), (2, "obj")]);
    let pred = sentence(&[(2, "nsubj"), (0, "root"), (2, "dobj")]);
    let s = dependency_eval(&vec![gold], &vec![pred]).unwrap();
    assert_eq!(s.total, 3);
    assert_eq!(s.labeled_correct, 2);
    assert_eq!(s.unlabeled_correct, 3);
    assert_eq!(s.nopunct_total, 3);
    assert_eq!(s.nopunct_labeled_correct, 2);
    assert_eq!(s.nopunct_unlabeled_correct, 3);
}

#[test]
fn punctuation_is_left_out_of_nopunct_counts() {
    let mut gold = sentence(&[(2, "nsubj"), (0, "root"), (2, "punct")]);
    gold.words[2].token.form = ".".to_string();
    let mut pred = sentence(&[(2, "nsubj"), (0, "root"), (1, "punct")]);
    pred.words[2].token.form = "x".to_string();
    let s = dependency_eval(&vec![gold], &vec![pred]).unwrap();
    assert_eq!(s.total, 3);
    assert_eq!(s.nopunct_total, 2);
    assert_eq!(s.labeled_correct, 2);
    assert_eq!(s.nopunct_labeled_correct, 2);
    assert_eq!(s.nopunct_unlabeled_correct, 2);
}

#[test]
fn empty_form_counts_as_punctuation() {
    assert!(is_punct_form(""));
    assert!(is_punct_form(".,!"));
    assert!(is_punct_form("«»"));
    assert!(!is_punct_form("a."));
    let mut gold = sentence(&[(0, "root")]);
    gold.words[0].token.form = String::new();
    let pred = sentence(&[(0, "root")]);
    let s = dependency_eval(&vec![gold], &vec![pred]).unwrap();
    assert_eq!(s.total, 1);
    assert_eq!(s.nopunct_total, 0);
}

#[test]
fn score_ordering_on_a_corpus() {
    let gold = vec![
        sentence(&[(2, "nsubj"), (0, "root"), (2, "obj")]),
        sentence(&[(0, "root"), (1, "punct")]),
    ];
    let pred = vec![
        sentence(&[(3, "nsubj"), (0, "root"), (2, "iobj")]),
        sentence(&[(0, "root"), (1, "obj")]),
    ];
    let s = dependency_eval(&gold, &pred).unwrap();
    assert!(s.unlabeled_correct >= s.labeled_correct);
    assert!(s.nopunct_total <= s.total);
    assert!(s.nopunct_labeled_correct <= s.nopunct_total);
    assert_eq!(s.total, 5);
    assert_eq!(s.labeled_correct, 2);
    assert_eq!(s.unlabeled_correct, 4);
}

#[test]
fn missing_head_names_the_token() {
    let gold = sentence(&[(2, "nsubj"), (0, "root"), (2, "obj")]);
    let mut pred = sentence(&[(2, "nsubj"), (0, "root"), (2, "obj")]);
    pred.words[1].head = None;
    let r = dependency_eval(&vec![gold.clone()], &vec![pred.clone()]);
    assert_eq!(r, Err(EvalError::MissingHead { index: 2 }));

    let mut scores = AttachmentScores::new();
    assert_eq!(scores.add_sentences(&gold, &pred), Err(EvalError::MissingHead { index: 2 }));
    assert_eq!(scores, AttachmentScores::new());
}

#[test]
fn mismatched_lengths_abort_with_both_counts() {
    let gold = vec![sized(3)];
    let pred = vec![sized(4)];
    let expected = EvalError::LengthMismatch { first: 3, second: 4 };
    assert_eq!(dependency_eval(&gold, &pred), Err(expected.clone()));
    let layers = vec![Layer::Form];
    assert_eq!(callback_eval(&gold, &pred, &layers, None), Err(expected));
    assert_eq!(
        align_pair(Ok(sized(3)), Ok(sized(4))).map(|_| ()),
        Err(EvalError::LengthMismatch { first: 3, second: 4 })
    );
}

#[test]
fn mismatch_after_good_pairs_still_aborts() {
    let gold = vec![sized(2), sized(3)];
    let pred = vec![sized(2), sized(4)];
    assert_eq!(
        dependency_eval(&gold, &pred),
        Err(EvalError::LengthMismatch { first: 3, second: 4 })
    );
}

#[test]
fn longer_corpus_tail_is_ignored() {
    let gold = vec![sized(2)];
    let pred = vec![sized(2), sized(5)];
    let layers = vec![Layer::Form];
    let s = callback_eval(&gold, &pred, &layers, None).unwrap();
    assert_eq!(s, LayerAccuracy { correct: 2, total: 2 });
}

#[test]
fn self_comparison_is_complete() {
    let corpus = vec![
        sentence(&[(2, "nsubj"), (0, "root"), (2, "obj")]),
        sentence(&[(0, "root")]),
    ];
    let layers = vec![Layer::Form, Layer::Lemma, Layer::Upos, Layer::Xpos, Layer::Features, Layer::Misc];
    let s = callback_eval(&corpus, &corpus, &layers, None).unwrap();
    assert_eq!(s.correct, s.total);
    assert_eq!(s.total, 24);
    let d = dependency_eval(&corpus, &corpus).unwrap();
    assert_eq!(d.labeled_correct, d.total);
    assert_eq!(d.unlabeled_correct, d.total);
}

#[test]
fn absent_values_and_defaults() {
    let mut gold = sized(2);
    let mut pred = sized(2);
    gold.words[0].token.features = vec![("Case".to_string(), "Nom".to_string())];
    pred.words[1].token.features = vec![("Case".to_string(), "Acc".to_string())];
    let layers = vec![feature_callback("Case")];
    // Token 0: present vs absent; token 1: absent vs present.
    let s = callback_eval(&vec![gold.clone()], &vec![pred.clone()], &layers, None).unwrap();
    assert_eq!(s, LayerAccuracy { correct: 0, total: 2 });
    // With default "Nom", token 0 agrees.
    let s = callback_eval(&vec![gold.clone()], &vec![pred.clone()], &layers, Some("Nom")).unwrap();
    assert_eq!(s, LayerAccuracy { correct: 1, total: 2 });
    // Both absent agree, with or without a default.
    let empty = vec![sized(1)];
    let s = callback_eval(&empty, &empty, &layers, None).unwrap();
    assert_eq!(s, LayerAccuracy { correct: 1, total: 1 });
    let s = callback_eval(&empty, &empty, &layers, Some("x")).unwrap();
    assert_eq!(s, LayerAccuracy { correct: 1, total: 1 });
}

#[test]
fn empty_corpora_have_zero_total() {
    let layers = vec![Layer::Form];
    let s = callback_eval(&vec![], &vec![], &layers, None).unwrap();
    assert_eq!(s, LayerAccuracy { correct: 0, total: 0 });
    let s = callback_eval(&vec![sized(2)], &vec![sized(2)], &vec![], None).unwrap();
    assert_eq!(s, LayerAccuracy { correct: 0, total: 0 });
}

#[test]
fn layer_accuracy_accumulates_over_pairs() {
    let mut acc = LayerAccuracy::new();
    let layers = vec![Layer::Form, Layer::Upos];
    let a = sentence(&[(0, "root"), (1, "obj")]);
    let mut b = a.clone();
    b.words[1].token.upos = Some("VERB".to_string());
    acc.add_sentences(&a, &b, &layers, None);
    acc.add_sentences(&a, &a, &layers, None);
    assert_eq!(acc, LayerAccuracy { correct: 7, total: 8 });
}

#[test]
fn read_failures_name_their_side() {
    assert_eq!(
        align_pair(Err("bad gold".to_string()), Err("bad pred".to_string())).map(|_| ()),
        Err(EvalError::ReadFirst("bad gold".to_string()))
    );
    assert_eq!(
        align_pair(Ok(sized(1)), Err("bad pred".to_string())).map(|_| ()),
        Err(EvalError::ReadSecond("bad pred".to_string()))
    );
    let (a, b) = align_pair(Ok(sized(2)), Ok(sized(2))).unwrap();
    assert_eq!(a, sized(2));
    assert_eq!(b, sized(2));
}
