use conllu_utils::token::{Sentence, Token, Word};
use conllu_utils::unicode::{
    cleanup, normalization_from, normalization_iter, simplify_unicode, simplify_unicode_lookup, Conversion,
    Normalization,
};

#[test]
fn lookup_table_entries() {
    assert_eq!(simplify_unicode_lookup('«'), Conversion::Char('"'));
    assert_eq!(simplify_unicode_lookup('—'), Conversion::Char('-'));
    assert_eq!(simplify_unicode_lookup('∖'), Conversion::Char('\\'));
    assert_eq!(simplify_unicode_lookup('₃'), Conversion::Char('3'));
    assert_eq!(simplify_unicode_lookup('⁸'), Conversion::Char('8'));
    assert_eq!(simplify_unicode_lookup('…'), Conversion::String("...".to_string()));
    assert_eq!(simplify_unicode_lookup('‽'), Conversion::String("?!".to_string()));
    assert_eq!(simplify_unicode_lookup('⅒'), Conversion::String("1/10".to_string()));
    assert_eq!(simplify_unicode_lookup('‴'), Conversion::String("'''".to_string()));
    assert_eq!(simplify_unicode_lookup('a'), Conversion::Keep('a'));
    assert_eq!(simplify_unicode_lookup('é'), Conversion::Keep('é'));
}

#[test]
fn simplify_replaces_each_character() {
    assert_eq!(simplify_unicode("«Ja» — ½…", Normalization::Identity), "\"Ja\" - 1/2...");
    assert_eq!(simplify_unicode("", Normalization::NFC), "");
    assert_eq!(simplify_unicode("plain", Normalization::NFKD), "plain");
}

#[test]
fn normalization_forms() {
    let composed = "\u{e9}";
    let decomposed = "e\u{301}";
    assert_eq!(normalization_iter(composed, Normalization::NFD), decomposed);
    assert_eq!(normalization_iter(decomposed, Normalization::NFC), composed);
    assert_eq!(normalization_iter(composed, Normalization::Identity), composed);
    assert_eq!(normalization_iter("\u{fb01}", Normalization::NFKC), "fi");
    assert_eq!(normalization_iter("\u{fb01}", Normalization::NFKD), "fi");
    assert_eq!(normalization_iter("\u{fb01}", Normalization::NFC), "\u{fb01}");
}

#[test]
fn normalization_names() {
    assert_eq!(normalization_from("none"), Some(Normalization::Identity));
    assert_eq!(normalization_from("nfd"), Some(Normalization::NFD));
    assert_eq!(normalization_from("nfkd"), Some(Normalization::NFKD));
    assert_eq!(normalization_from("nfc"), Some(Normalization::NFC));
    assert_eq!(normalization_from("nfkc"), Some(Normalization::NFKC));
    assert_eq!(normalization_from("NFC"), None);
    assert_eq!(normalization_from(""), None);
}

#[test]
fn cleanup_rewrites_forms_only() {
    let mut token = Token::new("„Hallo“".to_string());
    token.upos = Some("PUNCT".to_string());
    let mut s = Sentence {
        words: vec![
            Word { token, head: None },
            Word { token: Token::new("\u{fb01}x".to_string()), head: None },
        ],
    };
    cleanup(&mut s, Normalization::NFKC);
    assert_eq!(s.words[0].token.form, "\"Hallo\"");
    assert_eq!(s.words[0].token.upos, Some("PUNCT".to_string()));
    assert_eq!(s.words[1].token.form, "fix");
}
