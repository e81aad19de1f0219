use conllu_utils::compare::{compare_sentences, diff_indices, print_diff, DiffCell};
use conllu_utils::convert::{sentence_from_text, sentence_text};
use conllu_utils::error::EvalError;
use conllu_utils::layer::Layer;
use conllu_utils::token::{Sentence, Token, Word};

fn tagged(tokens: &[(&str, Option<&str>)]) -> Sentence {
    Sentence {
        words: tokens
            .iter()
            .map(|(f, p)| {
                let mut token = Token::new(f.to_string());
                token.upos = p.map(|s| s.to_string());
                Word { token, head: None }
            })
            .collect(),
    }
}

#[test]
fn single_differing_token_is_found() {
    let a = tagged(&[("the", Some("DET")), ("dog", Some("NOUN")), ("barks", Some("VERB"))]);
    let b = tagged(&[("the", Some("DET")), ("dog", Some("VERB")), ("barks", Some("VERB"))]);
    assert_eq!(diff_indices(&a, &b, &vec![Layer::Upos]), Ok(vec![1]));
    assert_eq!(diff_indices(&a, &b, &vec![Layer::Form]), Ok(vec![]));
    assert_eq!(diff_indices(&a, &b, &vec![Layer::Form, Layer::Upos]), Ok(vec![1]));
}

#[test]
fn absent_differs_from_present_and_from_placeholder() {
    let a = tagged(&[("x", None), ("y", None)]);
    let b = tagged(&[("x", Some("_")), ("y", None)]);
    assert_eq!(diff_indices(&a, &b, &vec![Layer::Upos]), Ok(vec![0]));
}

#[test]
fn identical_sentences_give_no_output() {
    let a = tagged(&[("the", Some("DET")), ("dog", Some("NOUN"))]);
    assert_eq!(diff_indices(&a, &a, &vec![Layer::Upos, Layer::Form, Layer::Features]), Ok(vec![]));
    assert_eq!(compare_sentences(&a, &a, &vec![Layer::Upos], &vec![Layer::Form]), Ok(vec![]));
}

#[test]
fn diff_length_mismatch() {
    let a = tagged(&[("a", None), ("b", None), ("c", None)]);
    let b = tagged(&[("a", None), ("b", None), ("c", None), ("d", None)]);
    assert_eq!(
        diff_indices(&a, &b, &vec![Layer::Upos]),
        Err(EvalError::LengthMismatch { first: 3, second: 4 })
    );
    assert_eq!(
        compare_sentences(&a, &b, &vec![Layer::Upos], &vec![Layer::Form]),
        Err(EvalError::LengthMismatch { first: 3, second: 4 })
    );
}

#[test]
fn differing_sentence_renders_every_token() {
    let a = tagged(&[("the", Some("DET")), ("dog", None)]);
    let b = tagged(&[("the", Some("DET")), ("dog", Some("NOUN"))]);
    let rows = compare_sentences(&a, &b, &vec![Layer::Upos], &vec![Layer::Form, Layer::Lemma]).unwrap();
    assert_eq!(rows.len(), 2);
    assert_eq!(rows[0].index, 1);
    assert_eq!(rows[0].show, vec!["the".to_string(), "_".to_string()]);
    assert_eq!(
        rows[0].cells,
        vec![DiffCell { first: "DET".to_string(), second: "DET".to_string(), differs: false }]
    );
    assert_eq!(rows[1].index, 2);
    assert_eq!(
        rows[1].cells,
        vec![DiffCell { first: "_".to_string(), second: "NOUN".to_string(), differs: true }]
    );
    assert_eq!(print_diff(&a, &b, &vec![Layer::Upos], &vec![Layer::Form, Layer::Lemma]), rows);
}

#[test]
fn sentence_as_text_line() {
    let a = tagged(&[("the", Some("DET")), ("dog", None)]);
    assert_eq!(sentence_text(&a, &Layer::Form), "the dog");
    assert_eq!(sentence_text(&a, &Layer::Upos), "DET _");
    assert_eq!(sentence_text(&tagged(&[]), &Layer::Form), "");
}

#[test]
fn text_line_as_sentence() {
    let s = sentence_from_text("  the  dog\t\n").unwrap();
    let forms: Vec<String> = s.words.iter().map(|w| w.token.form.clone()).collect();
    assert_eq!(forms, vec!["the", "", "dog"]);
    assert!(s.words.iter().all(|w| w.head.is_none() && w.token.upos.is_none()));
    assert_eq!(sentence_from_text(" \t "), None);
    assert_eq!(sentence_from_text(""), None);
}
