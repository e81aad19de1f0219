//! Unicode normalization and the punctuation simplification table.

use vstd::prelude::*;

use unicode_normalization::UnicodeNormalization;

use crate::text::str_equals;
use crate::token::{Sentence, Word};

verus! {

/// Types of unicode normalization.
#[derive(Copy, Clone, Debug, PartialEq, Eq, Structural)]
pub enum Normalization {
    /// Leave the text as it is.
    Identity,
    NFD,
    NFKD,
    NFC,
    NFKC,
}

/// The result of looking a character up in the simplification table.
#[derive(Clone, Debug, PartialEq, Eq)]
pub enum Conversion {
    /// Replace by a single character.
    Char(char),
    /// Replace by a string of two or more characters.
    String(String),
    /// The character is not in the table and stays as it is.
    Keep(char),
}

/// Canonical decomposition of a character sequence.
pub uninterp spec fn nfd_of(s: Seq<char>) -> Seq<char>;

/// Compatibility decomposition of a character sequence.
pub uninterp spec fn nfkd_of(s: Seq<char>) -> Seq<char>;

/// Canonical decomposition followed by canonical composition.
pub uninterp spec fn nfc_of(s: Seq<char>) -> Seq<char>;

/// Compatibility decomposition followed by canonical composition.
pub uninterp spec fn nfkc_of(s: Seq<char>) -> Seq<char>;

/// `s` in the normalization form `norm`.
pub open spec fn normalized(s: Seq<char>, norm: Normalization) -> Seq<char> {
    match norm {
        Normalization::Identity => s,
        Normalization::NFD => nfd_of(s),
        Normalization::NFKD => nfkd_of(s),
        Normalization::NFC => nfc_of(s),
        Normalization::NFKC => nfkc_of(s),
    }
}

/// The normalization form that a lower-case name stands for.
pub open spec fn normalization_named(name: Seq<char>) -> Option<Normalization> {
    if name == "none"@ {
        Some(Normalization::Identity)
    } else if name == "nfd"@ {
        Some(Normalization::NFD)
    } else if name == "nfkd"@ {
        Some(Normalization::NFKD)
    } else if name == "nfc"@ {
        Some(Normalization::NFC)
    } else if name == "nfkc"@ {
        Some(Normalization::NFKC)
    } else {
        None
    }
}

/// Relies on `UnicodeNormalization::nfd` of unicode-normalization: the NFD form of `s`.
#[verifier::external_body]
fn to_nfd(s: &str) -> (r: String)
    ensures
        r@ == nfd_of(s@),
{
    s.nfd().collect()
}

/// Relies on `UnicodeNormalization::nfkd` of unicode-normalization: the NFKD form of `s`.
#[verifier::external_body]
fn to_nfkd(s: &str) -> (r: String)
    ensures
        r@ == nfkd_of(s@),
{
    s.nfkd().collect()
}

/// Relies on `UnicodeNormalization::nfc` of unicode-normalization: the NFC form of `s`.
#[verifier::external_body]
fn to_nfc(s: &str) -> (r: String)
    ensures
        r@ == nfc_of(s@),
{
    s.nfc().collect()
}

/// Relies on `UnicodeNormalization::nfkc` of unicode-normalization: the NFKC form of `s`.
#[verifier::external_body]
fn to_nfkc(s: &str) -> (r: String)
    ensures
        r@ == nfkc_of(s@),
{
    s.nfkc().collect()
}

/// Brings `s` into the normalization form `norm`.
pub fn normalization_iter(s: &str, norm: Normalization) -> (r: String)
    ensures
        r@ == normalized(s@, norm),
{
    match norm {
        Normalization::Identity => String::from_str(s),
        Normalization::NFD => to_nfd(s),
        Normalization::NFKD => to_nfkd(s),
        Normalization::NFC => to_nfc(s),
        Normalization::NFKC => to_nfkc(s),
    }
}

/// Parses the name of a normalization form: `none`, `nfd`, `nfkd`, `nfc` or `nfkc`.
pub fn normalization_from(value: &str) -> (r: Option<Normalization>)
    ensures
        r == normalization_named(value@),
{
    if str_equals(value, "none") {
        Some(Normalization::Identity)
    } else if str_equals(value, "nfd") {
        Some(Normalization::NFD)
    } else if str_equals(value, "nfkd") {
        Some(Normalization::NFKD)
    } else if str_equals(value, "nfc") {
        Some(Normalization::NFC)
    } else if str_equals(value, "nfkc") {
        Some(Normalization::NFKC)
    } else {
        None
    }
}

/// The ASCII replacement of a punctuation, symbol or digit character, if
/// the simplification table holds one.
pub open spec fn replacement(c: char) -> Option<Seq<char>> {
    match c {
        '«' => Some(seq!['"']),
        '´' => Some(seq!['\'']),
        '»' => Some(seq!['"']),
        '÷' => Some(seq!['/']),
        'ǀ' => Some(seq!['|']),
        'ǃ' => Some(seq!['!']),
        'ʹ' => Some(seq!['\'']),
        'ʺ' => Some(seq!['"']),
        'ʼ' => Some(seq!['\'']),
        '˄' => Some(seq!['^']),
        'ˆ' => Some(seq!['^']),
        'ˈ' => Some(seq!['\'']),
        'ˋ' => Some(seq!['`']),
        'ˍ' => Some(seq!['_']),
        '˜' => Some(seq!['~']),
        '։' => Some(seq![':']),
        '׀' => Some(seq!['|']),
        '׃' => Some(seq![':']),
        '٪' => Some(seq!['%']),
        '٭' => Some(seq!['*']),
        '‐' => Some(seq!['-']),
        '‑' => Some(seq!['-']),
        '‒' => Some(seq!['-']),
        '–' => Some(seq!['-']),
        '—' => Some(seq!['-']),
        '―' => Some(seq!['-']),
        '‗' => Some(seq!['_']),
        '‘' => Some(seq!['\'']),
        '’' => Some(seq!['\'']),
        '‚' => Some(seq![',']),
        '‛' => Some(seq!['\'']),
        '“' => Some(seq!['"']),
        '”' => Some(seq!['"']),
        '„' => Some(seq!['"']),
        '‟' => Some(seq!['"']),
        '′' => Some(seq!['\'']),
        '″' => Some(seq!['"']),
        '‵' => Some(seq!['`']),
        '‶' => Some(seq!['"']),
        '‸' => Some(seq!['^']),
        '‹' => Some(seq!['<']),
        '›' => Some(seq!['>']),
        '‽' => Some(seq!['?', '!']),
        '⁄' => Some(seq!['/']),
        '⁎' => Some(seq!['*']),
        '⁒' => Some(seq!['%']),
        '⁓' => Some(seq!['~']),
        '−' => Some(seq!['-']),
        '∕' => Some(seq!['/']),
        '∖' => Some(seq!['\\']),
        '∗' => Some(seq!['*']),
        '∣' => Some(seq!['|']),
        '∶' => Some(seq![':']),
        '∼' => Some(seq!['~']),
        '⌃' => Some(seq!['^']),
        '♯' => Some(seq!['#']),
        '✱' => Some(seq!['*']),
        '❘' => Some(seq!['|']),
        '❢' => Some(seq!['!']),
        '⟦' => Some(seq!['[']),
        '⟨' => Some(seq!['<']),
        '⟩' => Some(seq!['>']),
        '⦃' => Some(seq!['{']),
        '⦄' => Some(seq!['}']),
        '〃' => Some(seq!['"']),
        '〈' => Some(seq!['<']),
        '〉' => Some(seq!['>']),
        '〛' => Some(seq![']']),
        '〜' => Some(seq!['~']),
        '〝' => Some(seq!['"']),
        '〞' => Some(seq!['"']),
        '‖' => Some(seq!['|', '|']),
        '‴' => Some(seq!['\'', '\'', '\'']),
        '‷' => Some(seq!['\'', '\'', '\'']),
        '≤' => Some(seq!['<', '=']),
        '≥' => Some(seq!['>', '=']),
        '≦' => Some(seq!['<', '=']),
        '≧' => Some(seq!['>', '=']),
        '…' => Some(seq!['.', '.', '.']),
        '¼' => Some(seq!['1', '/', '4']),
        '½' => Some(seq!['1', '/', '2']),
        '¾' => Some(seq!['3', '/', '4']),
        '⅐' => Some(seq!['1', '/', '7']),
        '⅑' => Some(seq!['1', '/', '9']),
        '⅒' => Some(seq!['1', '/', '1', '0']),
        '⅓' => Some(seq!['1', '/', '3']),
        '⅔' => Some(seq!['2', '/', '3']),
        '⅕' => Some(seq!['1', '/', '5']),
        '⅖' => Some(seq!['2', '/', '5']),
        '⅗' => Some(seq!['3', '/', '5']),
        '⅘' => Some(seq!['4', '/', '5']),
        '⅙' => Some(seq!['1', '/', '6']),
        '⅚' => Some(seq!['5', '/', '6']),
        '⅛' => Some(seq!['1', '/', '8']),
        '⅜' => Some(seq!['3', '/', '8']),
        '⅝' => Some(seq!['5', '/', '8']),
        '⅞' => Some(seq!['7', '/', '8']),
        '⅟' => Some(seq!['1', '/']),
        '↉' => Some(seq!['0', '/', '3']),
        '⁻' => Some(seq!['-']),
        '⁰' => Some(seq!['0']),
        '¹' => Some(seq!['1']),
        '²' => Some(seq!['2']),
        '³' => Some(seq!['3']),
        '⁴' => Some(seq!['4']),
        '⁵' => Some(seq!['5']),
        '⁶' => Some(seq!['6']),
        '⁷' => Some(seq!['7']),
        '⁸' => Some(seq!['8']),
        '⁹' => Some(seq!['9']),
        '₋' => Some(seq!['-']),
        '₀' => Some(seq!['0']),
        '₁' => Some(seq!['1']),
        '₂' => Some(seq!['2']),
        '₃' => Some(seq!['3']),
        '₄' => Some(seq!['4']),
        '₅' => Some(seq!['5']),
        '₆' => Some(seq!['6']),
        '₇' => Some(seq!['7']),
        '₈' => Some(seq!['8']),
        '₉' => Some(seq!['9']),        _ => None,
    }
}

/// What `c` becomes in simplified text.
pub open spec fn simplified_char(c: char) -> Seq<char> {
    match replacement(c) {
        Some(r) => r,
        None => seq![c],
    }
}

/// `s` with each character replaced as the simplification table says.
pub open spec fn simplified(s: Seq<char>) -> Seq<char>
    decreases s.len(),
{
    if s.len() == 0 {
        Seq::empty()
    } else {
        simplified(s.drop_last()) + simplified_char(s.last())
    }
}

/// Looks a character up in the simplification table.
pub fn simplify_unicode_lookup(c: char) -> (r: Conversion)
    ensures
        match r {
            Conversion::Char(d) => replacement(c) == Some(seq![d]),
            Conversion::String(t) => replacement(c) == Some(t@) && t@.len() >= 2,
            Conversion::Keep(d) => d == c && replacement(c) is None,
        },
{
    match c {
        '«' => Conversion::Char('"'),
        '´' => Conversion::Char('\''),
        '»' => Conversion::Char('"'),
        '÷' => Conversion::Char('/'),
        'ǀ' => Conversion::Char('|'),
        'ǃ' => Conversion::Char('!'),
        'ʹ' => Conversion::Char('\''),
        'ʺ' => Conversion::Char('"'),
        'ʼ' => Conversion::Char('\''),
        '˄' => Conversion::Char('^'),
        'ˆ' => Conversion::Char('^'),
        'ˈ' => Conversion::Char('\''),
        'ˋ' => Conversion::Char('`'),
        'ˍ' => Conversion::Char('_'),
        '˜' => Conversion::Char('~'),
        '։' => Conversion::Char(':'),
        '׀' => Conversion::Char('|'),
        '׃' => Conversion::Char(':'),
        '٪' => Conversion::Char('%'),
        '٭' => Conversion::Char('*'),
        '‐' => Conversion::Char('-'),
        '‑' => Conversion::Char('-'),
        '‒' => Conversion::Char('-'),
        '–' => Conversion::Char('-'),
        '—' => Conversion::Char('-'),
        '―' => Conversion::Char('-'),
        '‗' => Conversion::Char('_'),
        '‘' => Conversion::Char('\''),
        '’' => Conversion::Char('\''),
        '‚' => Conversion::Char(','),
        '‛' => Conversion::Char('\''),
        '“' => Conversion::Char('"'),
        '”' => Conversion::Char('"'),
        '„' => Conversion::Char('"'),
        '‟' => Conversion::Char('"'),
        '′' => Conversion::Char('\''),
        '″' => Conversion::Char('"'),
        '‵' => Conversion::Char('`'),
        '‶' => Conversion::Char('"'),
        '‸' => Conversion::Char('^'),
        '‹' => Conversion::Char('<'),
        '›' => Conversion::Char('>'),
        '‽' => {
            proof {
                reveal_strlit("?!");
            }
            assert("?!"@ =~= seq!['?', '!']);
            Conversion::String(String::from_str("?!"))
        },
        '⁄' => Conversion::Char('/'),
        '⁎' => Conversion::Char('*'),
        '⁒' => Conversion::Char('%'),
        '⁓' => Conversion::Char('~'),
        '−' => Conversion::Char('-'),
        '∕' => Conversion::Char('/'),
        '∖' => Conversion::Char('\\'),
        '∗' => Conversion::Char('*'),
        '∣' => Conversion::Char('|'),
        '∶' => Conversion::Char(':'),
        '∼' => Conversion::Char('~'),
        '⌃' => Conversion::Char('^'),
        '♯' => Conversion::Char('#'),
        '✱' => Conversion::Char('*'),
        '❘' => Conversion::Char('|'),
        '❢' => Conversion::Char('!'),
        '⟦' => Conversion::Char('['),
        '⟨' => Conversion::Char('<'),
        '⟩' => Conversion::Char('>'),
        '⦃' => Conversion::Char('{'),
        '⦄' => Conversion::Char('}'),
        '〃' => Conversion::Char('"'),
        '〈' => Conversion::Char('<'),
        '〉' => Conversion::Char('>'),
        '〛' => Conversion::Char(']'),
        '〜' => Conversion::Char('~'),
        '〝' => Conversion::Char('"'),
        '〞' => Conversion::Char('"'),
        '‖' => {
            proof {
                reveal_strlit("||");
            }
            assert("||"@ =~= seq!['|', '|']);
            Conversion::String(String::from_str("||"))
        },
        '‴' => {
            proof {
                reveal_strlit("'''");
            }
            assert("'''"@ =~= seq!['\'', '\'', '\'']);
            Conversion::String(String::from_str("'''"))
        },
        '‷' => {
            proof {
                reveal_strlit("'''");
            }
            assert("'''"@ =~= seq!['\'', '\'', '\'']);
            Conversion::String(String::from_str("'''"))
        },
        '≤' => {
            proof {
                reveal_strlit("<=");
            }
            assert("<="@ =~= seq!['<', '=']);
            Conversion::String(String::from_str("<="))
        },
        '≥' => {
            proof {
                reveal_strlit(">=");
            }
            assert(">="@ =~= seq!['>', '=']);
            Conversion::String(String::from_str(">="))
        },
        '≦' => {
            proof {
                reveal_strlit("<=");
            }
            assert("<="@ =~= seq!['<', '=']);
            Conversion::String(String::from_str("<="))
        },
        '≧' => {
            proof {
                reveal_strlit(">=");
            }
            assert(">="@ =~= seq!['>', '=']);
            Conversion::String(String::from_str(">="))
        },
        '…' => {
            proof {
                reveal_strlit("...");
            }
            assert("..."@ =~= seq!['.', '.', '.']);
            Conversion::String(String::from_str("..."))
        },
        '¼' => {
            proof {
                reveal_strlit("1/4");
            }
            assert("1/4"@ =~= seq!['1', '/', '4']);
            Conversion::String(String::from_str("1/4"))
        },
        '½' => {
            proof {
                reveal_strlit("1/2");
            }
            assert("1/2"@ =~= seq!['1', '/', '2']);
            Conversion::String(String::from_str("1/2"))
        },
        '¾' => {
            proof {
                reveal_strlit("3/4");
            }
            assert("3/4"@ =~= seq!['3', '/', '4']);
            Conversion::String(String::from_str("3/4"))
        },
        '⅐' => {
            proof {
                reveal_strlit("1/7");
            }
            assert("1/7"@ =~= seq!['1', '/', '7']);
            Conversion::String(String::from_str("1/7"))
        },
        '⅑' => {
            proof {
                reveal_strlit("1/9");
            }
            assert("1/9"@ =~= seq!['1', '/', '9']);
            Conversion::String(String::from_str("1/9"))
        },
        '⅒' => {
            proof {
                reveal_strlit("1/10");
            }
            assert("1/10"@ =~= seq!['1', '/', '1', '0']);
            Conversion::String(String::from_str("1/10"))
        },
        '⅓' => {
            proof {
                reveal_strlit("1/3");
            }
            assert("1/3"@ =~= seq!['1', '/', '3']);
            Conversion::String(String::from_str("1/3"))
        },
        '⅔' => {
            proof {
                reveal_strlit("2/3");
            }
            assert("2/3"@ =~= seq!['2', '/', '3']);
            Conversion::String(String::from_str("2/3"))
        },
        '⅕' => {
            proof {
                reveal_strlit("1/5");
            }
            assert("1/5"@ =~= seq!['1', '/', '5']);
            Conversion::String(String::from_str("1/5"))
        },
        '⅖' => {
            proof {
                reveal_strlit("2/5");
            }
            assert("2/5"@ =~= seq!['2', '/', '5']);
            Conversion::String(String::from_str("2/5"))
        },
        '⅗' => {
            proof {
                reveal_strlit("3/5");
            }
            assert("3/5"@ =~= seq!['3', '/', '5']);
            Conversion::String(String::from_str("3/5"))
        },
        '⅘' => {
            proof {
                reveal_strlit("4/5");
            }
            assert("4/5"@ =~= seq!['4', '/', '5']);
            Conversion::String(String::from_str("4/5"))
        },
        '⅙' => {
            proof {
                reveal_strlit("1/6");
            }
            assert("1/6"@ =~= seq!['1', '/', '6']);
            Conversion::String(String::from_str("1/6"))
        },
        '⅚' => {
            proof {
                reveal_strlit("5/6");
            }
            assert("5/6"@ =~= seq!['5', '/', '6']);
            Conversion::String(String::from_str("5/6"))
        },
        '⅛' => {
            proof {
                reveal_strlit("1/8");
            }
            assert("1/8"@ =~= seq!['1', '/', '8']);
            Conversion::String(String::from_str("1/8"))
        },
        '⅜' => {
            proof {
                reveal_strlit("3/8");
            }
            assert("3/8"@ =~= seq!['3', '/', '8']);
            Conversion::String(String::from_str("3/8"))
        },
        '⅝' => {
            proof {
                reveal_strlit("5/8");
            }
            assert("5/8"@ =~= seq!['5', '/', '8']);
            Conversion::String(String::from_str("5/8"))
        },
        '⅞' => {
            proof {
                reveal_strlit("7/8");
            }
            assert("7/8"@ =~= seq!['7', '/', '8']);
            Conversion::String(String::from_str("7/8"))
        },
        '⅟' => {
            proof {
                reveal_strlit("1/");
            }
            assert("1/"@ =~= seq!['1', '/']);
            Conversion::String(String::from_str("1/"))
        },
        '↉' => {
            proof {
                reveal_strlit("0/3");
            }
            assert("0/3"@ =~= seq!['0', '/', '3']);
            Conversion::String(String::from_str("0/3"))
        },
        '⁻' => Conversion::Char('-'),
        '⁰' => Conversion::Char('0'),
        '¹' => Conversion::Char('1'),
        '²' => Conversion::Char('2'),
        '³' => Conversion::Char('3'),
        '⁴' => Conversion::Char('4'),
        '⁵' => Conversion::Char('5'),
        '⁶' => Conversion::Char('6'),
        '⁷' => Conversion::Char('7'),
        '⁸' => Conversion::Char('8'),
        '⁹' => Conversion::Char('9'),
        '₋' => Conversion::Char('-'),
        '₀' => Conversion::Char('0'),
        '₁' => Conversion::Char('1'),
        '₂' => Conversion::Char('2'),
        '₃' => Conversion::Char('3'),
        '₄' => Conversion::Char('4'),
        '₅' => Conversion::Char('5'),
        '₆' => Conversion::Char('6'),
        '₇' => Conversion::Char('7'),
        '₈' => Conversion::Char('8'),
        '₉' => Conversion::Char('9'),
        _ => Conversion::Keep(c),
    }
}

/// Normalizes `s` and then replaces each character as the simplification
/// table says.
pub fn simplify_unicode(s: &str, norm: Normalization) -> (r: String)
    ensures
        r@ == simplified(normalized(s@, norm)),
{
    let normal = normalization_iter(s, norm);
    let chars = normal.as_str();
    let n = chars.unicode_len();
    let mut out = String::new();
    let mut i: usize = 0;
    while i < n
        invariant
            n == chars@.len(),
            chars@ == normalized(s@, norm),
            i <= n,
            out@ == simplified(chars@.subrange(0, i as int)),
        decreases n - i,
    {
        let c = chars.get_char(i);
        assert(chars@.subrange(0, i + 1).drop_last() =~= chars@.subrange(0, i as int));
        match simplify_unicode_lookup(c) {
            Conversion::Char(d) => out.push(d),
            Conversion::String(t) => out.append(t.as_str()),
            Conversion::Keep(d) => out.push(d),
        }
        i = i + 1;
    }
    assert(chars@.subrange(0, n as int) =~= chars@);
    out
}

/// Whether `after` is `before` with its form replaced by `form`.
pub open spec fn form_replaced(before: Word, after: Word, form: Seq<char>) -> bool {
    &&& after.token.form@ == form
    &&& after.token.lemma == before.token.lemma
    &&& after.token.upos == before.token.upos
    &&& after.token.xpos == before.token.xpos
    &&& after.token.features == before.token.features
    &&& after.token.misc == before.token.misc
    &&& after.head == before.head
}

/// Normalizes and simplifies the form of every token of a sentence; all
/// else stays.
pub fn cleanup(sentence: &mut Sentence, norm: Normalization)
    ensures
        final(sentence).words@.len() == old(sentence).words@.len(),
        forall|i: int|
            0 <= i < old(sentence).words@.len() ==> form_replaced(
                #[trigger] old(sentence).words@[i],
                final(sentence).words@[i],
                simplified(normalized(old(sentence).words@[i].token.form@, norm)),
            ),
{
    let n = sentence.words.len();
    let mut i: usize = 0;
    while i < n
        invariant
            n == sentence.words@.len(),
            n == old(sentence).words@.len(),
            i <= n,
            forall|j: int|
                0 <= j < i ==> form_replaced(
                    #[trigger] old(sentence).words@[j],
                    sentence.words@[j],
                    simplified(normalized(old(sentence).words@[j].token.form@, norm)),
                ),
            forall|j: int| i <= j < n ==> #[trigger] sentence.words@[j] == old(sentence).words@[j],
        decreases n - i,
    {
        let clean_form = simplify_unicode(sentence.words[i].token.form.as_str(), norm);
        sentence.words[i].token.form = clean_form;
        i = i + 1;
    }
}

} // verus!
