//! Agreement of two treebanks on annotation layers.

use vstd::prelude::*;

use crate::align::{aligned, length_error, paired};
use crate::error::EvalError;
use crate::layer::{
    feature_callback, layer_value, layers_named, misc_callback, process_layer_callbacks, resolves_to, unknown_in,
    Layer,
};
use crate::sums::{indicator, lemma_sum_constant, lemma_sum_equal, lemma_sum_prefix, sum_to};
use crate::token::{opt_equals, opt_view, Sentence, Token, Word};

verus! {

/// The default value as characters.
pub open spec fn default_view(default: Option<&str>) -> Option<Seq<char>> {
    match default {
        Some(d) => Some(d@),
        None => None,
    }
}

/// A layer value with an absent value replaced by the default, if there is one.
pub open spec fn with_default(v: Option<Seq<char>>, default: Option<Seq<char>>) -> Option<Seq<char>> {
    match v {
        Some(s) => Some(s),
        None => default,
    }
}

/// Whether `t1` and `t2` agree on layer `l` once absent values are replaced
/// by the default.
pub open spec fn layer_agrees(l: Layer, default: Option<Seq<char>>, t1: Token, t2: Token) -> bool {
    with_default(layer_value(l, t1), default) == with_default(layer_value(l, t2), default)
}

/// The number of `layers` on which `t1` and `t2` agree.
pub open spec fn token_correct(layers: Seq<Layer>, default: Option<Seq<char>>, t1: Token, t2: Token) -> nat {
    sum_to(layers.len() as int, |k: int| indicator(layer_agrees(layers[k], default, t1, t2)))
}

/// The number of agreeing (token, layer) pairs of two aligned sentences.
pub open spec fn sentence_correct(layers: Seq<Layer>, default: Option<Seq<char>>, w1: Seq<Word>, w2: Seq<Word>) -> nat {
    sum_to(w1.len() as int, |i: int| token_correct(layers, default, w1[i].token, w2[i].token))
}

/// The number of agreeing (token, layer) pairs in the first `n` sentence
/// pairs of two corpora.
pub open spec fn corpus_correct(
    layers: Seq<Layer>,
    default: Option<Seq<char>>,
    c1: Seq<Sentence>,
    c2: Seq<Sentence>,
    n: int,
) -> nat {
    sum_to(n, |j: int| sentence_correct(layers, default, c1[j].words@, c2[j].words@))
}

/// The number of (token, layer) pairs in the first `n` sentences.
pub open spec fn corpus_total(layers: Seq<Layer>, c1: Seq<Sentence>, n: int) -> nat {
    sum_to(n, |j: int| c1[j].words@.len() * layers.len())
}

/// Whether sentence pair `j` is the first whose lengths differ.
pub open spec fn first_misaligned(c1: Seq<Sentence>, c2: Seq<Sentence>, j: int) -> bool {
    &&& aligned(c1, c2, j)
    &&& c1[j].words@.len() != c2[j].words@.len()
}

/// Counts of agreeing values, and of compared values, over (token, layer)
/// pairs.
#[derive(Clone, Copy, Debug, PartialEq, Eq, Structural)]
pub struct LayerAccuracy {
    pub correct: u64,
    pub total: u64,
}

/// The value of a layer with the default in place of an absent value.
fn value_or_default(l: &Layer, t: &Token, default: Option<&str>) -> (r: Option<String>)
    ensures
        opt_view(r) == with_default(layer_value(*l, *t), default_view(default)),
{
    match l.value(t) {
        Some(v) => Some(v),
        None => match default {
            Some(d) => Some(String::from_str(d)),
            None => None,
        },
    }
}

/// The number of `layers` on which two tokens agree.
fn count_agreeing(layers: &Vec<Layer>, t1: &Token, t2: &Token, default: Option<&str>) -> (r: u64)
    requires
        layers@.len() <= u64::MAX,
    ensures
        r == token_correct(layers@, default_view(default), *t1, *t2),
        r <= layers@.len(),
{
    let ghost f = |k: int| indicator(layer_agrees(layers@[k], default_view(default), *t1, *t2));
    let mut count: u64 = 0;
    let mut k: usize = 0;
    while k < layers.len()
        invariant
            k <= layers@.len(),
            layers@.len() <= u64::MAX,
            f == (|k: int| indicator(layer_agrees(layers@[k], default_view(default), *t1, *t2))),
            count == sum_to(k as int, f),
            count <= k,
        decreases layers@.len() - k,
    {
        let v1 = value_or_default(&layers[k], t1, default);
        let v2 = value_or_default(&layers[k], t2, default);
        if opt_equals(&v1, &v2) {
            count = count + 1;
        }
        k = k + 1;
    }
    count
}

impl LayerAccuracy {
    /// No value compared yet.
    pub fn new() -> (r: LayerAccuracy)
        ensures
            r.correct == 0,
            r.total == 0,
    {
        LayerAccuracy { correct: 0, total: 0 }
    }

    /// Adds the agreement of two aligned sentences on `layers`.
    pub fn add_sentences(&mut self, gold: &Sentence, predicted: &Sentence, layers: &Vec<Layer>, default: Option<&str>)
        requires
            old(self).correct <= old(self).total,
            gold.words@.len() == predicted.words@.len(),
            old(self).total + gold.words@.len() * layers@.len() <= u64::MAX,
        ensures
            final(self).correct == old(self).correct + sentence_correct(
                layers@,
                default_view(default),
                gold.words@,
                predicted.words@,
            ),
            final(self).total == old(self).total + gold.words@.len() * layers@.len(),
            final(self).correct <= final(self).total,
    {
        let ghost d = default_view(default);
        let ghost f = |i: int| token_correct(layers@, d, gold.words@[i].token, predicted.words@[i].token);
        let ghost start = *self;
        let n = gold.len();
        let k = layers.len();
        proof {
            assert(0 <= n * k) by (nonlinear_arith);
        }
        let mut i: usize = 0;
        while i < n
            invariant
                n == gold.words@.len(),
                n == predicted.words@.len(),
                k == layers@.len(),
                i <= n,
                d == default_view(default),
                f == (|i: int| token_correct(layers@, d, gold.words@[i].token, predicted.words@[i].token)),
                start.total + n * k <= u64::MAX,
                self.correct == start.correct + sum_to(i as int, f),
                self.total == start.total + i * k,
                self.correct <= self.total,
            decreases n - i,
        {
            proof {
                assert((i + 1) * k <= n * k) by (nonlinear_arith) requires i < n;
                assert((i + 1) * k == i * k + k) by (nonlinear_arith);
            }
            let c = count_agreeing(layers, &gold.words[i].token, &predicted.words[i].token, default);
            self.correct = self.correct + c;
            self.total = self.total + k as u64;
            i = i + 1;
        }
    }
}

/// The agreement of two treebanks on `layers`, over the sentence pairs that
/// both hold. An absent value compares equal to an absent value, or, with a
/// default, as the default. Stops at the first pair whose lengths differ.
pub fn callback_eval(
    gold: &Vec<Sentence>,
    predicted: &Vec<Sentence>,
    layers: &Vec<Layer>,
    default: Option<&str>,
) -> (r: Result<LayerAccuracy, EvalError>)
    requires
        corpus_total(layers@, gold@, paired(gold@, predicted@)) <= u64::MAX,
    ensures
        match r {
            Ok(s) => {
                &&& aligned(gold@, predicted@, paired(gold@, predicted@))
                &&& s.correct == corpus_correct(
                    layers@,
                    default_view(default),
                    gold@,
                    predicted@,
                    paired(gold@, predicted@),
                )
                &&& s.total == corpus_total(layers@, gold@, paired(gold@, predicted@))
            },
            Err(e) => exists|j: int|
                0 <= j < paired(gold@, predicted@) && #[trigger] first_misaligned(gold@, predicted@, j)
                    && length_error(gold@[j], predicted@[j]) == Some(e),
        },
{
    let ghost m = paired(gold@, predicted@);
    let ghost d = default_view(default);
    let ghost fc = |j: int| sentence_correct(layers@, d, gold@[j].words@, predicted@[j].words@);
    let ghost ft = |j: int| gold@[j].words@.len() * layers@.len();
    let n = if gold.len() <= predicted.len() { gold.len() } else { predicted.len() };
    let mut score = LayerAccuracy::new();
    let mut j: usize = 0;
    while j < n
        invariant
            n == m,
            m == paired(gold@, predicted@),
            m <= gold@.len(),
            m <= predicted@.len(),
            j <= n,
            d == default_view(default),
            fc == (|j: int| sentence_correct(layers@, d, gold@[j].words@, predicted@[j].words@)),
            ft == (|j: int| gold@[j].words@.len() * layers@.len()),
            corpus_total(layers@, gold@, m) == sum_to(m, ft),
            sum_to(m, ft) <= u64::MAX,
            aligned(gold@, predicted@, j as int),
            score.correct == sum_to(j as int, fc),
            score.total == sum_to(j as int, ft),
            score.correct <= score.total,
        decreases n - j,
    {
        if gold[j].len() != predicted[j].len() {
            assert(first_misaligned(gold@, predicted@, j as int));
            let n1 = gold[j].len();
            let n2 = predicted[j].len();
            return Err(EvalError::LengthMismatch { first: n1, second: n2 });
        }
        proof {
            lemma_sum_prefix(j + 1, m, ft);
        }
        score.add_sentences(&gold[j], &predicted[j], layers, default);
        j = j + 1;
    }
    Ok(score)
}

/// A corpus compared with itself agrees on every (token, layer) pair,
/// whatever the layers and the default: its accuracy is complete.
pub proof fn self_comparison_is_exact(
    layers: Seq<Layer>,
    default: Option<Seq<char>>,
    corpus: Seq<Sentence>,
    n: int,
)
    ensures
        corpus_correct(layers, default, corpus, corpus, n) == corpus_total(layers, corpus, n),
{
    let k = layers.len();
    let fc = |j: int| sentence_correct(layers, default, corpus[j].words@, corpus[j].words@);
    let ft = |j: int| corpus[j].words@.len() * k;
    assert forall|j: int| 0 <= j < n implies #[trigger] fc(j) == ft(j) by {
        let w = corpus[j].words@;
        let g = |i: int| token_correct(layers, default, w[i].token, w[i].token);
        assert forall|i: int| 0 <= i < w.len() implies #[trigger] g(i) == k by {
            let h = |l: int| indicator(layer_agrees(layers[l], default, w[i].token, w[i].token));
            lemma_sum_constant(k as int, h, 1);
        }
        lemma_sum_constant(w.len() as int, g, k);
    }
    lemma_sum_equal(n, fc, ft);
}

/// What an accuracy run measures.
#[derive(Clone, Debug, PartialEq, Eq)]
pub enum Evaluation {
    /// Agreement on each of these layers.
    Callbacks(Vec<Layer>),
    /// Labeled and unlabeled attachment scores.
    AttachmentScore,
}

/// The settings of an accuracy run.
#[derive(Clone, Debug, PartialEq, Eq)]
pub struct AccuracyApp {
    pub default: Option<String>,
    pub evaluation: Evaluation,
    pub gold_treebank: String,
    pub predicted_treebank: String,
}

/// Whether exactly one way of evaluating is asked for.
pub open spec fn one_mode(attachment: bool, layer: bool, feature: bool, misc: bool) -> bool {
    indicator(attachment) + indicator(layer) + indicator(feature) + indicator(misc) == 1
}

impl AccuracyApp {
    /// Settings from the command line: the treebanks, and either attachment
    /// scores, a comma-separated list of layers, one feature or one misc
    /// key; a default value for absent values goes with the last three.
    pub fn parse(
        gold_treebank: String,
        predicted_treebank: String,
        attachment: bool,
        layer: Option<&str>,
        feature: Option<&str>,
        misc: Option<&str>,
        default: Option<&str>,
    ) -> (r: Result<AccuracyApp, EvalError>)
        requires
            one_mode(attachment, layer is Some, feature is Some, misc is Some),
            attachment ==> default is None,
        ensures
            match r {
                Ok(app) => {
                    &&& app.gold_treebank@ == gold_treebank@
                    &&& app.predicted_treebank@ == predicted_treebank@
                    &&& opt_view(app.default) == default_view(default)
                    &&& attachment ==> app.evaluation is AttachmentScore
                    &&& layer matches Some(l) ==> app.evaluation matches Evaluation::Callbacks(v)
                        && layers_named(l@, v@)
                    &&& feature matches Some(f) ==> app.evaluation matches Evaluation::Callbacks(v)
                        && v@.len() == 1 && resolves_to("feature:"@ + f@, v@[0])
                    &&& misc matches Some(m) ==> app.evaluation matches Evaluation::Callbacks(v)
                        && v@.len() == 1 && resolves_to("misc:"@ + m@, v@[0])
                },
                Err(e) => layer matches Some(l) && unknown_in(l@, e),
            },
    {
        let evaluation = if attachment {
            Evaluation::AttachmentScore
        } else {
            match layer {
                Some(l) => Evaluation::Callbacks(process_layer_callbacks(l)?),
                None => match feature {
                    Some(f) => Evaluation::Callbacks(vec![feature_callback(f)]),
                    None => match misc {
                        Some(m) => Evaluation::Callbacks(vec![misc_callback(m)]),
                        None => Evaluation::AttachmentScore,
                    },
                },
            }
        };
        let default = match default {
            Some(d) => Some(String::from_str(d)),
            None => None,
        };
        Ok(AccuracyApp { default, evaluation, gold_treebank, predicted_treebank })
    }
}

} // verus!
