//! Named annotation layers and how they are read from a token.

use vstd::prelude::*;

use crate::error::EvalError;
use crate::text::{has_prefix, split_on, split_string, str_equals, strip_prefix};
use crate::token::{
    copy_opt, feature_lookup, lemma_feature_absent, lemma_misc_absent, features_text, features_view, misc_lookup, misc_text, misc_view,
    opt_view, Token,
};

verus! {

/// An annotation layer of a token.
#[derive(Clone, Debug, PartialEq, Eq)]
pub enum Layer {
    Form,
    Lemma,
    Upos,
    Xpos,
    /// The whole feature map as CoNLL-U text.
    Features,
    /// The whole misc map as CoNLL-U text.
    Misc,
    /// One feature, by key.
    FeatureKey(String),
    /// One misc entry, by key.
    MiscKey(String),
}

/// The value of layer `l` on token `t`; `None` when the token has no such
/// annotation.
pub open spec fn layer_value(l: Layer, t: Token) -> Option<Seq<char>> {
    match l {
        Layer::Form => Some(t.form@),
        Layer::Lemma => opt_view(t.lemma),
        Layer::Upos => opt_view(t.upos),
        Layer::Xpos => opt_view(t.xpos),
        Layer::Features => Some(features_text(features_view(t.features@))),
        Layer::Misc => Some(misc_text(misc_view(t.misc@))),
        Layer::FeatureKey(k) => feature_lookup(t.features@, k@),
        Layer::MiscKey(k) => misc_lookup(t.misc@, k@),
    }
}

/// Whether `name` is the name of layer `l`.
pub open spec fn resolves_to(name: Seq<char>, l: Layer) -> bool {
    match l {
        Layer::Form => name == "form"@,
        Layer::Lemma => name == "lemma"@,
        Layer::Upos => name == "upos"@,
        Layer::Xpos => name == "xpos"@,
        Layer::Features => name == "features"@,
        Layer::Misc => name == "misc"@,
        Layer::FeatureKey(k) => name == "feature:"@ + k@,
        Layer::MiscKey(k) => name == "misc:"@ + k@,
    }
}

/// Whether `name` names a layer.
pub open spec fn recognized(name: Seq<char>) -> bool {
    ||| name == "form"@
    ||| name == "lemma"@
    ||| name == "upos"@
    ||| name == "xpos"@
    ||| name == "features"@
    ||| name == "misc"@
    ||| has_prefix(name, "feature:"@)
    ||| has_prefix(name, "misc:"@)
}

impl Layer {
    /// The value of this layer on `token`.
    pub fn value(&self, token: &Token) -> (r: Option<String>)
        ensures
            opt_view(r) == layer_value(*self, *token),
    {
        match self {
            Layer::Form => Some(token.form.clone()),
            Layer::Lemma => copy_opt(&token.lemma),
            Layer::Upos => copy_opt(&token.upos),
            Layer::Xpos => copy_opt(&token.xpos),
            Layer::Features => Some(token.features_string()),
            Layer::Misc => Some(token.misc_string()),
            Layer::FeatureKey(k) => token.feature(k.as_str()),
            Layer::MiscKey(k) => token.misc_value(k.as_str()),
        }
    }
}

/// The layer that reads the feature `feature`.
pub fn feature_callback(feature: &str) -> (r: Layer)
    ensures
        r matches Layer::FeatureKey(k) && k@ == feature@,
{
    Layer::FeatureKey(String::from_str(feature))
}

/// The layer that reads the misc entry `misc`.
pub fn misc_callback(misc: &str) -> (r: Layer)
    ensures
        r matches Layer::MiscKey(k) && k@ == misc@,
{
    Layer::MiscKey(String::from_str(misc))
}

/// Resolves a layer name: `form`, `lemma`, `upos`, `xpos`, `features`,
/// `misc`, `feature:<key>` or `misc:<key>`.
pub fn layer_callback(layer: &str) -> (r: Option<Layer>)
    ensures
        r is Some <==> recognized(layer@),
        r matches Some(l) ==> resolves_to(layer@, l),
{
    if str_equals(layer, "form") {
        Some(Layer::Form)
    } else if str_equals(layer, "lemma") {
        Some(Layer::Lemma)
    } else if str_equals(layer, "upos") {
        Some(Layer::Upos)
    } else if str_equals(layer, "xpos") {
        Some(Layer::Xpos)
    } else if str_equals(layer, "features") {
        Some(Layer::Features)
    } else if str_equals(layer, "misc") {
        Some(Layer::Misc)
    } else {
        match strip_prefix(layer, "feature:") {
            Some(k) => Some(Layer::FeatureKey(k)),
            None => match strip_prefix(layer, "misc:") {
                Some(k) => Some(Layer::MiscKey(k)),
                None => None,
            },
        }
    }
}

/// The pieces of a comma-separated list of layer names.
pub open spec fn layer_names(layers: Seq<char>) -> Seq<Seq<char>> {
    split_on(layers, ',')
}

/// Whether `names[j]` is the first name in `names` that is not recognized.
pub open spec fn first_unknown(names: Seq<Seq<char>>, j: int) -> bool {
    &&& 0 <= j < names.len()
    &&& !recognized(names[j])
    &&& forall|i: int| 0 <= i < j ==> recognized(#[trigger] names[i])
}

/// Whether `v` holds, in order, the layers that the comma-separated list
/// `names` names.
pub open spec fn layers_named(names: Seq<char>, v: Seq<Layer>) -> bool {
    &&& v.len() == layer_names(names).len()
    &&& forall|i: int| 0 <= i < v.len() ==> #[trigger] resolves_to(layer_names(names)[i], v[i])
    &&& all_recognized(names)
}

/// Whether every name of the comma-separated list `names` names a layer.
pub open spec fn all_recognized(names: Seq<char>) -> bool {
    forall|i: int| 0 <= i < layer_names(names).len() ==> #[trigger] recognized(layer_names(names)[i])
}

/// Whether `e` reports the first unrecognized name of the comma-separated
/// list `names`.
pub open spec fn unknown_in(names: Seq<char>, e: EvalError) -> bool {
    e matches EvalError::UnknownLayer(n) && exists|j: int|
        #[trigger] first_unknown(layer_names(names), j) && n@ == layer_names(names)[j]
}

/// Resolves a comma-separated list of layer names, in order. Fails on the
/// first name that is not recognized, with that name.
pub fn process_layer_callbacks(layers: &str) -> (r: Result<Vec<Layer>, EvalError>)
    ensures
        match r {
            Ok(v) => layers_named(layers@, v@),
            Err(e) => unknown_in(layers@, e),
        },
{
    let names = split_string(layers, ',');
    let ghost pieces = layer_names(layers@);
    assert(names@.map_values(|t: String| t@) == pieces);
    assert(names@.len() == pieces.len());
    let mut callbacks: Vec<Layer> = Vec::new();
    let mut i: usize = 0;
    while i < names.len()
        invariant
            pieces == layer_names(layers@),
            names@.map_values(|t: String| t@) == pieces,
            names@.len() == pieces.len(),
            i <= names@.len(),
            callbacks@.len() == i,
            forall|j: int| 0 <= j < i ==> #[trigger] resolves_to(pieces[j], callbacks@[j]),
            forall|j: int| 0 <= j < i ==> recognized(pieces[j]),
        decreases names@.len() - i,
    {
        assert(names@[i as int]@ == pieces[i as int]);
        match layer_callback(names[i].as_str()) {
            Some(c) => callbacks.push(c),
            None => {
                assert(first_unknown(pieces, i as int));
                return Err(EvalError::UnknownLayer(names[i].clone()));
            },
        }
        i = i + 1;
    }
    Ok(callbacks)
}

/// Reading a feature by a key that the token does not hold gives an absent
/// value, not an error or an empty string; so does reading a misc entry by
/// a key that the token does not hold, or whose first entry has no value.
pub proof fn absent_keys_read_absent(t: Token, key: String, j: int)
    ensures
        (forall|i: int| 0 <= i < t.features@.len() ==> (#[trigger] t.features@[i]).0@ != key@)
            ==> layer_value(Layer::FeatureKey(key), t) is None,
        (forall|i: int| 0 <= i < t.misc@.len() ==> (#[trigger] t.misc@[i]).0@ != key@)
            ==> layer_value(Layer::MiscKey(key), t) is None,
        (0 <= j < t.misc@.len() && t.misc@[j].0@ == key@ && t.misc@[j].1 is None && forall|i: int|
            0 <= i < j ==> (#[trigger] t.misc@[i]).0@ != key@) ==> layer_value(
            Layer::MiscKey(key),
            t,
        ) is None,
{
    if forall|i: int| 0 <= i < t.features@.len() ==> (#[trigger] t.features@[i]).0@ != key@ {
        lemma_feature_absent(t.features@, key@);
    }
    if forall|i: int| 0 <= i < t.misc@.len() ==> (#[trigger] t.misc@[i]).0@ != key@ {
        lemma_misc_absent(t.misc@, key@, t.misc@.len() as int);
    }
    if 0 <= j < t.misc@.len() && t.misc@[j].0@ == key@ && t.misc@[j].1 is None && forall|i: int|
        0 <= i < j ==> (#[trigger] t.misc@[i]).0@ != key@ {
        lemma_misc_absent(t.misc@, key@, j);
    }
}

} // verus!
