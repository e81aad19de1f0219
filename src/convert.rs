//! Conversion between sentences and plain text lines.

use vstd::prelude::*;

use crate::compare::{shown, shown_value};
use crate::layer::{layer_value, Layer};
use crate::text::{join_strings, join_with, split_on, split_string};
use crate::token::{Sentence, Token, Word};

verus! {

/// The display values of layer `l` on the words of a sentence.
pub open spec fn layer_column(l: Layer, s: Sentence) -> Seq<Seq<char>> {
    Seq::new(s.words@.len(), |i: int| shown(layer_value(l, s.words@[i].token)))
}

/// A sentence as one line of text: the value of `layer` on each token,
/// `_` where it is absent, separated by single spaces.
pub fn sentence_text(sentence: &Sentence, layer: &Layer) -> (r: String)
    ensures
        r@ == join_with(layer_column(*layer, *sentence), ' '),
{
    let mut values: Vec<String> = Vec::new();
    let mut i: usize = 0;
    while i < sentence.words.len()
        invariant
            i <= sentence.words@.len(),
            values@.len() == i,
            forall|j: int| 0 <= j < i ==> (#[trigger] values@[j])@ == shown(layer_value(*layer, sentence.words@[j].token)),
        decreases sentence.words@.len() - i,
    {
        values.push(shown_value(layer.value(&sentence.words[i].token)));
        i = i + 1;
    }
    assert(values@.map_values(|t: String| t@) =~= layer_column(*layer, *sentence));
    join_strings(&values, ' ')
}

/// Whether a character has the Unicode `White_Space` property.
pub uninterp spec fn white_space(c: char) -> bool;

/// Whether `r` is `s` without its leading and trailing white space.
pub open spec fn trimmed(s: Seq<char>, r: Seq<char>) -> bool {
    exists|a: int, b: int|
        #![trigger s.subrange(a, b)]
        0 <= a <= b <= s.len() && r == s.subrange(a, b) && (forall|i: int|
            0 <= i < a ==> white_space(#[trigger] s[i])) && (forall|i: int|
            b <= i < s.len() ==> white_space(#[trigger] s[i])) && (a < b ==> !white_space(s[a])
            && !white_space(s[b - 1])) && (a == b ==> forall|i: int|
            0 <= i < s.len() ==> white_space(#[trigger] s[i]))
}

/// Relies on `str::trim`: the string without leading and trailing
/// characters that have the Unicode `White_Space` property.
#[verifier::external_body]
fn trim(s: &str) -> (r: &str)
    ensures
        trimmed(s@, r@),
        r@.len() == 0 <==> forall|i: int| 0 <= i < s@.len() ==> white_space(#[trigger] s@[i]),
{
    s.trim()
}

/// Whether `s` is the sentence whose token forms are `forms`, in order,
/// with no other annotation and no edges.
pub open spec fn sentence_of_forms(s: Sentence, forms: Seq<Seq<char>>) -> bool {
    &&& s.words@.len() == forms.len()
    &&& forall|i: int|
        0 <= i < forms.len() ==> {
            let w = #[trigger] s.words@[i];
            &&& w.token.form@ == forms[i]
            &&& w.token.lemma is None
            &&& w.token.upos is None
            &&& w.token.xpos is None
            &&& w.token.features@.len() == 0
            &&& w.token.misc@.len() == 0
            &&& w.head is None
        }
}

/// A line of tokenized text as a sentence: the line without surrounding
/// white space, split at each space. A line of white space alone gives no
/// sentence.
pub fn sentence_from_text(line: &str) -> (r: Option<Sentence>)
    ensures
        match r {
            Some(s) => exists|t: Seq<char>|
                #[trigger] trimmed(line@, t) && t.len() > 0 && sentence_of_forms(s, split_on(t, ' ')),
            None => trimmed(line@, Seq::empty()),
        },
{
    let t = trim(line);
    if t.unicode_len() == 0 {
        assert(t@ =~= Seq::<char>::empty());
        return None;
    }
    let pieces = split_string(t, ' ');
    let ghost forms = split_on(t@, ' ');
    let mut words: Vec<Word> = Vec::new();
    let mut i: usize = 0;
    while i < pieces.len()
        invariant
            pieces@.map_values(|p: String| p@) == forms,
            i <= pieces@.len(),
            words@.len() == i,
            forall|j: int|
                0 <= j < i ==> {
                    let w = #[trigger] words@[j];
                    &&& w.token.form@ == forms[j]
                    &&& w.token.lemma is None
                    &&& w.token.upos is None
                    &&& w.token.xpos is None
                    &&& w.token.features@.len() == 0
                    &&& w.token.misc@.len() == 0
                    &&& w.head is None
                },
        decreases pieces@.len() - i,
    {
        assert(pieces@[i as int]@ == forms[i as int]);
        let form = String::from_str(pieces[i].as_str());
        words.push(Word { token: Token::new(form), head: None });
        i = i + 1;
    }
    let s = Sentence { words };
    assert(sentence_of_forms(s, forms));
    Some(s)
}

} // verus!
