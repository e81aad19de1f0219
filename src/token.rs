//! Tokens, dependency edges and sentences.

use vstd::prelude::*;

use crate::text::{join_with, str_equals};

verus! {

/// One token with its annotations.
///
/// `features` and `misc` are key-value annotations; a misc key may come
/// without a value.
#[derive(Clone, Debug, PartialEq, Eq)]
pub struct Token {
    pub form: String,
    pub lemma: Option<String>,
    pub upos: Option<String>,
    pub xpos: Option<String>,
    pub features: Vec<(String, String)>,
    pub misc: Vec<(String, Option<String>)>,
}

/// The edge from a token to its head: node 0 is the root, node `i` the
/// token at position `i - 1`.
#[derive(Clone, Debug, PartialEq, Eq)]
pub struct Edge {
    pub head: usize,
    pub relation: Option<String>,
}

/// A token together with its dependency edge, if one was recorded.
#[derive(Clone, Debug, PartialEq, Eq)]
pub struct Word {
    pub token: Token,
    pub head: Option<Edge>,
}

/// A sentence: its words in order. The synthetic root node is not stored.
#[derive(Clone, Debug, PartialEq, Eq)]
pub struct Sentence {
    pub words: Vec<Word>,
}

/// The characters of an optional string.
pub open spec fn opt_view(o: Option<String>) -> Option<Seq<char>> {
    match o {
        Some(s) => Some(s@),
        None => None,
    }
}

/// The features as pairs of character sequences.
pub open spec fn features_view(f: Seq<(String, String)>) -> Seq<(Seq<char>, Seq<char>)> {
    f.map_values(|p: (String, String)| (p.0@, p.1@))
}

/// The misc annotations as pairs of character sequences.
pub open spec fn misc_view(m: Seq<(String, Option<String>)>) -> Seq<(Seq<char>, Option<Seq<char>>)> {
    m.map_values(|p: (String, Option<String>)| (p.0@, opt_view(p.1)))
}

/// The CoNLL-U text of a feature map.
pub uninterp spec fn features_text(f: Seq<(Seq<char>, Seq<char>)>) -> Seq<char>;

/// The CoNLL-U text of a misc map.
pub uninterp spec fn misc_text(m: Seq<(Seq<char>, Option<Seq<char>>)>) -> Seq<char>;

/// Whether `a` comes before `b` in the order of `String`, which is
/// lexicographic by code point.
pub open spec fn chars_less(a: Seq<char>, b: Seq<char>) -> bool
    decreases a.len(),
{
    if b.len() == 0 {
        false
    } else if a.len() == 0 {
        true
    } else if a[0] != b[0] {
        (a[0] as u32) < (b[0] as u32)
    } else {
        chars_less(a.drop_first(), b.drop_first())
    }
}

/// Whether the keys are strictly ascending, as a sorted map holds them.
pub open spec fn keys_ascending<V>(s: Seq<(Seq<char>, V)>) -> bool {
    forall|i: int| 0 <= i < s.len() - 1 ==> chars_less(#[trigger] s[i].0, s[i + 1].0)
}

/// Each feature as `key=value`.
pub open spec fn feature_entries(f: Seq<(Seq<char>, Seq<char>)>) -> Seq<Seq<char>> {
    f.map_values(|p: (Seq<char>, Seq<char>)| p.0 + seq!['='] + p.1)
}

/// Each misc entry as `key=value`, or `key` alone where it has no value.
pub open spec fn misc_entries(m: Seq<(Seq<char>, Option<Seq<char>>)>) -> Seq<Seq<char>> {
    m.map_values(
        |p: (Seq<char>, Option<Seq<char>>)|
            match p.1 {
                Some(v) => p.0 + seq!['='] + v,
                None => p.0,
            },
    )
}

/// The value of the first feature named `key`.
pub open spec fn feature_lookup(f: Seq<(String, String)>, key: Seq<char>) -> Option<Seq<char>>
    decreases f.len(),
{
    if f.len() == 0 {
        None
    } else if f[0].0@ == key {
        Some(f[0].1@)
    } else {
        feature_lookup(f.drop_first(), key)
    }
}

/// The value of the first misc entry named `key`; an entry without a
/// value counts as absent.
pub open spec fn misc_lookup(m: Seq<(String, Option<String>)>, key: Seq<char>) -> Option<Seq<char>>
    decreases m.len(),
{
    if m.len() == 0 {
        None
    } else if m[0].0@ == key {
        opt_view(m[0].1)
    } else {
        misc_lookup(m.drop_first(), key)
    }
}

/// A feature key that no entry holds reads as absent.
pub proof fn lemma_feature_absent(f: Seq<(String, String)>, key: Seq<char>)
    requires
        forall|i: int| 0 <= i < f.len() ==> (#[trigger] f[i]).0@ != key,
    ensures
        feature_lookup(f, key) is None,
    decreases f.len(),
{
    if f.len() > 0 {
        assert(f[0].0@ != key);
        assert forall|i: int| 0 <= i < f.drop_first().len() implies (#[trigger] f.drop_first()[i]).0@ != key by {
            assert(f.drop_first()[i] == f[i + 1]);
        }
        lemma_feature_absent(f.drop_first(), key);
    }
}

/// A misc key reads as absent where no entry holds it, and where the first
/// entry that holds it has no value.
pub proof fn lemma_misc_absent(m: Seq<(String, Option<String>)>, key: Seq<char>, j: int)
    requires
        forall|i: int| 0 <= i < m.len() && i < j ==> (#[trigger] m[i]).0@ != key,
        j >= m.len() || (0 <= j && m[j].0@ == key && m[j].1 is None),
    ensures
        misc_lookup(m, key) is None,
    decreases m.len(),
{
    if m.len() > 0 {
        if j == 0 {
        } else {
            assert(m[0].0@ != key);
            assert forall|i: int| 0 <= i < m.drop_first().len() && i < j - 1 implies (#[trigger] m.drop_first()[i]).0@ != key by {
                assert(m.drop_first()[i] == m[i + 1]);
            }
            if j < m.len() {
                assert(m.drop_first()[j - 1] == m[j]);
            }
            lemma_misc_absent(m.drop_first(), key, j - 1);
        }
    }
}

/// Relies on the `Display` impl of conllu's `ConlluFeatures` over udgraph's
/// `Features` map: the CoNLL-U text of a feature map, `_` when it is empty,
/// else `key=value` for each entry in key order, separated by `|`.
#[verifier::external_body]
fn conllu_features(f: &Vec<(String, String)>) -> (r: String)
    ensures
        r@ == features_text(features_view(f@)),
        f@.len() == 0 ==> r@ == seq!['_'],
        f@.len() > 0 && keys_ascending(features_view(f@)) ==> r@ == join_with(
            feature_entries(features_view(f@)),
            '|',
        ),
{
    let features: udgraph::token::Features = f.iter().cloned().collect();
    conllu::display::ConlluFeatures::borrowed(&features).to_string()
}

/// Relies on the `Display` impl of conllu's `ConlluMisc` over udgraph's
/// `Misc` map: the CoNLL-U text of a misc map, `_` when it is empty, else
/// each entry in key order, separated by `|`.
#[verifier::external_body]
fn conllu_misc(m: &Vec<(String, Option<String>)>) -> (r: String)
    ensures
        r@ == misc_text(misc_view(m@)),
        m@.len() == 0 ==> r@ == seq!['_'],
        m@.len() > 0 && keys_ascending(misc_view(m@)) ==> r@ == join_with(misc_entries(misc_view(m@)), '|'),
{
    let misc: udgraph::token::Misc = m.iter().cloned().collect();
    conllu::display::ConlluMisc::borrowed(&misc).to_string()
}

/// A copy of an optional string.
pub fn copy_opt(o: &Option<String>) -> (r: Option<String>)
    ensures
        opt_view(r) == opt_view(*o),
{
    match o {
        Some(s) => Some(s.clone()),
        None => None,
    }
}

/// Whether two optional strings are equal: both absent, or both present
/// with the same characters.
pub fn opt_equals(a: &Option<String>, b: &Option<String>) -> (r: bool)
    ensures
        r == (opt_view(*a) == opt_view(*b)),
{
    match (a, b) {
        (Some(x), Some(y)) => str_equals(x.as_str(), y.as_str()),
        (None, None) => true,
        _ => false,
    }
}

impl Token {
    /// A token with the given form and no other annotation.
    pub fn new(form: String) -> (r: Token)
        ensures
            r.form@ == form@,
            r.lemma is None,
            r.upos is None,
            r.xpos is None,
            r.features@.len() == 0,
            r.misc@.len() == 0,
    {
        Token {
            form,
            lemma: None,
            upos: None,
            xpos: None,
            features: Vec::new(),
            misc: Vec::new(),
        }
    }

    /// The CoNLL-U text of the token's features.
    pub fn features_string(&self) -> (r: String)
        ensures
            r@ == features_text(features_view(self.features@)),
            self.features@.len() == 0 ==> r@ == seq!['_'],
            self.features@.len() > 0 && keys_ascending(features_view(self.features@)) ==> r@
                == join_with(feature_entries(features_view(self.features@)), '|'),
    {
        conllu_features(&self.features)
    }

    /// The CoNLL-U text of the token's misc annotations.
    pub fn misc_string(&self) -> (r: String)
        ensures
            r@ == misc_text(misc_view(self.misc@)),
            self.misc@.len() == 0 ==> r@ == seq!['_'],
            self.misc@.len() > 0 && keys_ascending(misc_view(self.misc@)) ==> r@ == join_with(
                misc_entries(misc_view(self.misc@)),
                '|',
            ),
    {
        conllu_misc(&self.misc)
    }

    /// The value of the feature `key`, absent when there is no such feature.
    pub fn feature(&self, key: &str) -> (r: Option<String>)
        ensures
            opt_view(r) == feature_lookup(self.features@, key@),
    {
        let f = &self.features;
        let n = f.len();
        let mut i: usize = 0;
        assert(f@.subrange(0, n as int) =~= f@);
        while i < n
            invariant
                f@ == self.features@,
                n == f@.len(),
                i <= n,
                feature_lookup(f@, key@) == feature_lookup(f@.subrange(i as int, n as int), key@),
            decreases n - i,
        {
            assert(f@.subrange(i as int, n as int).drop_first() =~= f@.subrange(i + 1, n as int));
            assert(f@.subrange(i as int, n as int)[0] == f@[i as int]);
            if str_equals(f[i].0.as_str(), key) {
                let v = f[i].1.clone();
                assert(f@[i as int].0@ == key@);
                assert(v@ == f@[i as int].1@);
                assert(feature_lookup(f@, key@) == Some(v@));
                assert(self.features@ == f@);
                assert(opt_view(Some(v)) == Some(v@));
                assert(feature_lookup(f@.subrange(i as int, n as int), key@) == Some(f@[i as int].1@));
                return Some(v);
            }
            i = i + 1;
        }
        None
    }

    /// The value of the misc entry `key`, absent when there is no such entry
    /// or the entry has no value.
    pub fn misc_value(&self, key: &str) -> (r: Option<String>)
        ensures
            opt_view(r) == misc_lookup(self.misc@, key@),
    {
        let m = &self.misc;
        let n = m.len();
        let mut i: usize = 0;
        assert(m@.subrange(0, n as int) =~= m@);
        while i < n
            invariant
                m@ == self.misc@,
                n == m@.len(),
                i <= n,
                misc_lookup(m@, key@) == misc_lookup(m@.subrange(i as int, n as int), key@),
            decreases n - i,
        {
            assert(m@.subrange(i as int, n as int).drop_first() =~= m@.subrange(i + 1, n as int));
            assert(m@.subrange(i as int, n as int)[0] == m@[i as int]);
            if str_equals(m[i].0.as_str(), key) {
                return copy_opt(&m[i].1);
            }
            i = i + 1;
        }
        None
    }
}

impl Sentence {
    /// The number of tokens, the root not counted.
    pub fn len(&self) -> (r: usize)
        ensures
            r == self.words@.len(),
    {
        self.words.len()
    }
}

} // verus!
