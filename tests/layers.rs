use conllu_utils::accuracy::{AccuracyApp, Evaluation};
use conllu_utils::compare::CompareApp;
use conllu_utils::error::EvalError;
use conllu_utils::layer::{feature_callback, layer_callback, misc_callback, process_layer_callbacks, Layer};
use conllu_utils::text::{join_strings, split_string, strip_prefix};
use conllu_utils::token::Token;

fn token() -> Token {
    let mut t = Token::new("Häuser".to_string());
    t.lemma = Some("Haus".to_string());
    t.upos = Some("NOUN".to_string());
    t.features = vec![
        ("Case".to_string(), "Nom".to_string()),
        ("Number".to_string(), "Plur".to_string()),
    ];
    t.misc = vec![
        ("SpaceAfter".to_string(), Some("No".to_string())),
        ("Flag".to_string(), None),
    ];
    t
}

#[test]
fn plain_layers_read_their_field() {
    let t = token();
    assert_eq!(Layer::Form.value(&t), Some("Häuser".to_string()));
    assert_eq!(Layer::Lemma.value(&t), Some("Haus".to_string()));
    assert_eq!(Layer::Upos.value(&t), Some("NOUN".to_string()));
    assert_eq!(Layer::Xpos.value(&t), None);
}

#[test]
fn feature_and_misc_maps_as_text() {
    let t = token();
    assert_eq!(Layer::Features.value(&t), Some("Case=Nom|Number=Plur".to_string()));
    assert_eq!(Layer::Misc.value(&t), Some("Flag|SpaceAfter=No".to_string()));
    let bare = Token::new("x".to_string());
    assert_eq!(bare.features_string(), "_");
    assert_eq!(bare.misc_string(), "_");
}

#[test]
fn absent_keys_read_as_absent() {
    let t = token();
    assert_eq!(feature_callback("Case").value(&t), Some("Nom".to_string()));
    assert_eq!(feature_callback("Gender").value(&t), None);
    assert_eq!(misc_callback("SpaceAfter").value(&t), Some("No".to_string()));
    assert_eq!(misc_callback("Flag").value(&t), None);
    assert_eq!(misc_callback("Other").value(&t), None);
    assert_eq!(t.feature("Number"), Some("Plur".to_string()));
    assert_eq!(t.misc_value("Flag"), None);
}

#[test]
fn layer_names_resolve() {
    assert_eq!(layer_callback("form"), Some(Layer::Form));
    assert_eq!(layer_callback("lemma"), Some(Layer::Lemma));
    assert_eq!(layer_callback("upos"), Some(Layer::Upos));
    assert_eq!(layer_callback("xpos"), Some(Layer::Xpos));
    assert_eq!(layer_callback("features"), Some(Layer::Features));
    assert_eq!(layer_callback("misc"), Some(Layer::Misc));
    assert_eq!(layer_callback("feature:Case"), Some(Layer::FeatureKey("Case".to_string())));
    assert_eq!(layer_callback("misc:SpaceAfter"), Some(Layer::MiscKey("SpaceAfter".to_string())));
    assert_eq!(layer_callback("Form"), None);
    assert_eq!(layer_callback(""), None);
    assert_eq!(layer_callback("feature"), None);
}

#[test]
fn layer_lists_keep_order_and_fail_on_first_unknown() {
    assert_eq!(
        process_layer_callbacks("upos,form,feature:Case"),
        Ok(vec![Layer::Upos, Layer::Form, Layer::FeatureKey("Case".to_string())])
    );
    assert_eq!(
        process_layer_callbacks("upos,bogus,other"),
        Err(EvalError::UnknownLayer("bogus".to_string()))
    );
    assert_eq!(process_layer_callbacks("upos,"), Err(EvalError::UnknownLayer(String::new())));
}

#[test]
fn splitting_and_joining() {
    assert_eq!(split_string("a,b,,c", ','), vec!["a", "b", "", "c"]);
    assert_eq!(split_string("", ','), vec![""]);
    assert_eq!(join_strings(&vec!["a".to_string(), "b".to_string()], ' '), "a b");
    assert_eq!(join_strings(&vec![], ' '), "");
    assert_eq!(strip_prefix("feature:Case", "feature:"), Some("Case".to_string()));
    assert_eq!(strip_prefix("feat", "feature:"), None);
}

#[test]
fn accuracy_settings() {
    let app = AccuracyApp::parse("g".to_string(), "p".to_string(), false, Some("upos,lemma"), None, None, Some("_"))
        .unwrap();
    assert_eq!(app.evaluation, Evaluation::Callbacks(vec![Layer::Upos, Layer::Lemma]));
    assert_eq!(app.default, Some("_".to_string()));
    let app = AccuracyApp::parse("g".to_string(), "p".to_string(), true, None, None, None, None).unwrap();
    assert_eq!(app.evaluation, Evaluation::AttachmentScore);
    let app = AccuracyApp::parse("g".to_string(), "p".to_string(), false, None, Some("Case"), None, None).unwrap();
    assert_eq!(app.evaluation, Evaluation::Callbacks(vec![Layer::FeatureKey("Case".to_string())]));
    let app = AccuracyApp::parse("g".to_string(), "p".to_string(), false, None, None, Some("Gloss"), None).unwrap();
    assert_eq!(app.evaluation, Evaluation::Callbacks(vec![Layer::MiscKey("Gloss".to_string())]));
    assert_eq!(
        AccuracyApp::parse("g".to_string(), "p".to_string(), false, Some("nope"), None, None, None),
        Err(EvalError::UnknownLayer("nope".to_string()))
    );
}

#[test]
fn compare_settings() {
    let app = CompareApp::parse("a".to_string(), "b".to_string(), "upos", "form,lemma", true).unwrap();
    assert_eq!(app.layer_callbacks, vec![Layer::Upos]);
    assert_eq!(app.show_callbacks, vec![Layer::Form, Layer::Lemma]);
    assert!(app.force_color);
    assert_eq!(
        CompareApp::parse("a".to_string(), "b".to_string(), "x", "y", false),
        Err(EvalError::UnknownLayer("x".to_string()))
    );
    assert_eq!(
        CompareApp::parse("a".to_string(), "b".to_string(), "upos", "y", false),
        Err(EvalError::UnknownLayer("y".to_string()))
    );
}
