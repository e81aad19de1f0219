//! Finding and rendering the tokens on which two sentences differ.

use vstd::prelude::*;

use crate::error::EvalError;
use crate::layer::{all_recognized, layer_value, layers_named, process_layer_callbacks, unknown_in, Layer};
use crate::token::{opt_equals, opt_view, Sentence, Token, Word};

verus! {

/// Whether `t1` and `t2` disagree on at least one of `layers`.
pub open spec fn layers_differ(layers: Seq<Layer>, t1: Token, t2: Token) -> bool {
    exists|k: int| 0 <= k < layers.len() && #[trigger] layer_value(layers[k], t1) != layer_value(layers[k], t2)
}

/// The positions among the first `n` at which the words of `w1` and `w2`
/// disagree on `layers`, in increasing order.
pub open spec fn diff_positions(layers: Seq<Layer>, w1: Seq<Word>, w2: Seq<Word>, n: int) -> Seq<usize>
    decreases n,
{
    if n <= 0 {
        Seq::empty()
    } else {
        let prev = diff_positions(layers, w1, w2, n - 1);
        if layers_differ(layers, w1[n - 1].token, w2[n - 1].token) {
            prev.push((n - 1) as usize)
        } else {
            prev
        }
    }
}

/// The display text of a layer value: the value, or `_` when it is absent.
pub open spec fn shown(v: Option<Seq<char>>) -> Seq<char> {
    match v {
        Some(s) => s,
        None => seq!['_'],
    }
}

/// One pair of values of a compared layer; `differs` asks for emphasis.
#[derive(Clone, Debug, PartialEq, Eq)]
pub struct DiffCell {
    pub first: String,
    pub second: String,
    pub differs: bool,
}

/// One rendered token: its position counted from 1, the values of the
/// shown layers, and the pairs of values of the compared layers.
#[derive(Clone, Debug, PartialEq, Eq)]
pub struct DiffRow {
    pub index: usize,
    pub show: Vec<String>,
    pub cells: Vec<DiffCell>,
}

/// Whether `row` renders the token pair `t1`, `t2` at position `i`.
pub open spec fn row_renders(
    row: DiffRow,
    diff: Seq<Layer>,
    show: Seq<Layer>,
    i: int,
    t1: Token,
    t2: Token,
) -> bool {
    &&& row.index == i + 1
    &&& row.show@.len() == show.len()
    &&& forall|k: int|
        0 <= k < show.len() ==> (#[trigger] row.show@[k])@ == shown(layer_value(show[k], t1))
    &&& row.cells@.len() == diff.len()
    &&& forall|k: int|
        0 <= k < diff.len() ==> {
            let c = #[trigger] row.cells@[k];
            &&& c.first@ == shown(layer_value(diff[k], t1))
            &&& c.second@ == shown(layer_value(diff[k], t2))
            &&& c.differs == (c.first@ != c.second@)
        }
}

/// Whether two tokens disagree on at least one of `layers`; stops at the
/// first layer that differs.
pub fn tokens_differ(layers: &Vec<Layer>, t1: &Token, t2: &Token) -> (r: bool)
    ensures
        r == layers_differ(layers@, *t1, *t2),
{
    let mut k: usize = 0;
    while k < layers.len()
        invariant
            k <= layers@.len(),
            forall|j: int| 0 <= j < k ==> #[trigger] layer_value(layers@[j], *t1) == layer_value(layers@[j], *t2),
        decreases layers@.len() - k,
    {
        let v1 = layers[k].value(t1);
        let v2 = layers[k].value(t2);
        if !opt_equals(&v1, &v2) {
            return true;
        }
        k = k + 1;
    }
    false
}

/// The zero-based positions of the tokens on which two sentences of the
/// same length disagree on at least one of `layers`, in increasing order.
pub fn diff_indices(sentence1: &Sentence, sentence2: &Sentence, layers: &Vec<Layer>) -> (r: Result<Vec<usize>, EvalError>)
    ensures
        match r {
            Ok(v) => sentence1.words@.len() == sentence2.words@.len() && v@ == diff_positions(
                layers@,
                sentence1.words@,
                sentence2.words@,
                sentence1.words@.len() as int,
            ),
            Err(e) => sentence1.words@.len() != sentence2.words@.len() && e == (EvalError::LengthMismatch {
                first: sentence1.words@.len() as usize,
                second: sentence2.words@.len() as usize,
            }),
        },
{
    let n = sentence1.len();
    if n != sentence2.len() {
        return Err(EvalError::LengthMismatch { first: n, second: sentence2.len() });
    }
    let mut indices: Vec<usize> = Vec::new();
    let mut i: usize = 0;
    while i < n
        invariant
            n == sentence1.words@.len(),
            n == sentence2.words@.len(),
            i <= n,
            indices@ == diff_positions(layers@, sentence1.words@, sentence2.words@, i as int),
        decreases n - i,
    {
        if tokens_differ(layers, &sentence1.words[i].token, &sentence2.words[i].token) {
            indices.push(i);
        }
        i = i + 1;
    }
    Ok(indices)
}

/// The placeholder `_` shown for an absent value.
pub fn placeholder() -> (r: String)
    ensures
        r@ == seq!['_'],
{
    proof {
        reveal_strlit("_");
    }
    let r = String::from_str("_");
    assert(r@ =~= seq!['_']);
    r
}

/// The display text of a layer value.
pub fn shown_value(v: Option<String>) -> (r: String)
    ensures
        r@ == shown(opt_view(v)),
{
    match v {
        Some(s) => s,
        None => placeholder(),
    }
}

/// Renders the token pair at position `i`.
fn render_row(i: usize, t1: &Token, t2: &Token, diff: &Vec<Layer>, show: &Vec<Layer>) -> (r: DiffRow)
    requires
        i < usize::MAX,
    ensures
        row_renders(r, diff@, show@, i as int, *t1, *t2),
{
    let mut columns: Vec<String> = Vec::new();
    let mut k: usize = 0;
    while k < show.len()
        invariant
            k <= show@.len(),
            columns@.len() == k,
            forall|j: int| 0 <= j < k ==> (#[trigger] columns@[j])@ == shown(layer_value(show@[j], *t1)),
        decreases show@.len() - k,
    {
        columns.push(shown_value(show[k].value(t1)));
        k = k + 1;
    }
    let mut cells: Vec<DiffCell> = Vec::new();
    let mut k: usize = 0;
    while k < diff.len()
        invariant
            k <= diff@.len(),
            cells@.len() == k,
            forall|j: int|
                0 <= j < k ==> {
                    let c = #[trigger] cells@[j];
                    &&& c.first@ == shown(layer_value(diff@[j], *t1))
                    &&& c.second@ == shown(layer_value(diff@[j], *t2))
                    &&& c.differs == (c.first@ != c.second@)
                },
        decreases diff@.len() - k,
    {
        let first = shown_value(diff[k].value(t1));
        let second = shown_value(diff[k].value(t2));
        let differs = !(first == second);
        cells.push(DiffCell { first, second, differs });
        k = k + 1;
    }
    DiffRow { index: i + 1, show: columns, cells }
}

/// Renders every token pair of two sentences of the same length.
pub fn print_diff(sentence1: &Sentence, sentence2: &Sentence, diff: &Vec<Layer>, show: &Vec<Layer>) -> (r: Vec<DiffRow>)
    requires
        sentence1.words@.len() == sentence2.words@.len(),
    ensures
        r@.len() == sentence1.words@.len(),
        forall|i: int|
            0 <= i < r@.len() ==> row_renders(
                #[trigger] r@[i],
                diff@,
                show@,
                i,
                sentence1.words@[i].token,
                sentence2.words@[i].token,
            ),
{
    let n = sentence1.len();
    let mut rows: Vec<DiffRow> = Vec::new();
    let mut i: usize = 0;
    while i < n
        invariant
            n == sentence1.words@.len(),
            n == sentence2.words@.len(),
            i <= n,
            rows@.len() == i,
            forall|j: int|
                0 <= j < i ==> row_renders(
                    #[trigger] rows@[j],
                    diff@,
                    show@,
                    j,
                    sentence1.words@[j].token,
                    sentence2.words@[j].token,
                ),
        decreases n - i,
    {
        rows.push(render_row(i, &sentence1.words[i].token, &sentence2.words[i].token, diff, show));
        i = i + 1;
    }
    rows
}

/// Compares two sentences on `diff`. Where they differ somewhere, every
/// token pair is rendered; where they do not, nothing is.
pub fn compare_sentences(sentence1: &Sentence, sentence2: &Sentence, diff: &Vec<Layer>, show: &Vec<Layer>) -> (r: Result<Vec<DiffRow>, EvalError>)
    ensures
        match r {
            Ok(rows) => {
                &&& sentence1.words@.len() == sentence2.words@.len()
                &&& diff_positions(diff@, sentence1.words@, sentence2.words@, sentence1.words@.len() as int).len() == 0
                    ==> rows@.len() == 0
                &&& diff_positions(diff@, sentence1.words@, sentence2.words@, sentence1.words@.len() as int).len() != 0
                    ==> rows@.len() == sentence1.words@.len() && forall|i: int|
                    0 <= i < rows@.len() ==> row_renders(
                        #[trigger] rows@[i],
                        diff@,
                        show@,
                        i,
                        sentence1.words@[i].token,
                        sentence2.words@[i].token,
                    )
            },
            Err(e) => sentence1.words@.len() != sentence2.words@.len() && e == (EvalError::LengthMismatch {
                first: sentence1.words@.len() as usize,
                second: sentence2.words@.len() as usize,
            }),
        },
{
    let indices = diff_indices(sentence1, sentence2, diff)?;
    if indices.len() == 0 {
        Ok(Vec::new())
    } else {
        Ok(print_diff(sentence1, sentence2, diff, show))
    }
}

/// A sentence compared with itself differs nowhere, whatever the layers.
pub proof fn identical_sentences_do_not_differ(layers: Seq<Layer>, words: Seq<Word>, n: int)
    ensures
        diff_positions(layers, words, words, n).len() == 0,
    decreases n,
{
    if n > 0 {
        identical_sentences_do_not_differ(layers, words, n - 1);
    }
}

/// When the words of two sentences agree on every layer at every position
/// but `p`, and disagree on some layer at `p`, the differing positions are
/// exactly `p`.
pub proof fn single_difference_is_found(layers: Seq<Layer>, w1: Seq<Word>, w2: Seq<Word>, p: int)
    requires
        w1.len() == w2.len(),
        0 <= p < w1.len(),
        layers_differ(layers, w1[p].token, w2[p].token),
        forall|i: int, k: int|
            0 <= i < w1.len() && i != p && 0 <= k < layers.len() ==> #[trigger] layer_value(
                layers[k],
                w1[i].token,
            ) == layer_value(layers[k], w2[i].token),
    ensures
        diff_positions(layers, w1, w2, w1.len() as int) == seq![p as usize],
{
    lemma_positions_around(layers, w1, w2, p, w1.len() as int);
}

proof fn lemma_positions_around(layers: Seq<Layer>, w1: Seq<Word>, w2: Seq<Word>, p: int, n: int)
    requires
        w1.len() == w2.len(),
        0 <= p < w1.len(),
        n <= w1.len(),
        layers_differ(layers, w1[p].token, w2[p].token),
        forall|i: int, k: int|
            0 <= i < w1.len() && i != p && 0 <= k < layers.len() ==> #[trigger] layer_value(
                layers[k],
                w1[i].token,
            ) == layer_value(layers[k], w2[i].token),
    ensures
        n <= p ==> diff_positions(layers, w1, w2, n).len() == 0,
        n > p ==> diff_positions(layers, w1, w2, n) == seq![p as usize],
    decreases n,
{
    if n > 0 {
        lemma_positions_around(layers, w1, w2, p, n - 1);
        if n - 1 != p {
            assert(!layers_differ(layers, w1[n - 1].token, w2[n - 1].token));
        } else {
            assert(diff_positions(layers, w1, w2, n) =~= seq![p as usize]);
        }
    }
}

/// The settings of a comparison run.
#[derive(Clone, Debug, PartialEq, Eq)]
pub struct CompareApp {
    pub force_color: bool,
    pub layer_callbacks: Vec<Layer>,
    pub show_callbacks: Vec<Layer>,
    pub treebank_1: String,
    pub treebank_2: String,
}

impl CompareApp {
    /// Settings from the command line: the treebanks, the comma-separated
    /// layers to compare and to show, and whether to force colors.
    pub fn parse(treebank_1: String, treebank_2: String, layer: &str, show: &str, force_color: bool) -> (r: Result<CompareApp, EvalError>)
        ensures
            match r {
                Ok(app) => {
                    &&& app.treebank_1@ == treebank_1@
                    &&& app.treebank_2@ == treebank_2@
                    &&& app.force_color == force_color
                    &&& layers_named(layer@, app.layer_callbacks@)
                    &&& layers_named(show@, app.show_callbacks@)
                },
                Err(e) => unknown_in(layer@, e) || (all_recognized(layer@) && unknown_in(show@, e)),
            },
    {
        let layer_callbacks = process_layer_callbacks(layer)?;
        let show_callbacks = process_layer_callbacks(show)?;
        Ok(CompareApp { force_color, layer_callbacks, show_callbacks, treebank_1, treebank_2 })
    }
}

} // verus!
