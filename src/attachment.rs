//! Labeled and unlabeled attachment scores, with and without punctuation.

use vstd::prelude::*;

use crate::align::{corpus_tokens, length_error, paired};
use crate::error::EvalError;
use crate::sums::{indicator, lemma_sum_constant, lemma_sum_monotone, lemma_sum_prefix, sum_to};
use crate::token::{opt_view, Sentence, Word};

verus! {

/// Whether a character belongs to a Unicode punctuation category.
pub uninterp spec fn punctuation_char(c: char) -> bool;

/// Relies on unicode_categories' `UnicodeCategories::is_punctuation` for
/// `char`: membership in one of the categories Pc, Pd, Pe, Pf, Pi, Po, Ps.
#[verifier::external_body]
fn is_punctuation(c: char) -> (r: bool)
    ensures
        r == punctuation_char(c),
{
    unicode_categories::UnicodeCategories::is_punctuation(c)
}

/// Whether every character of a form is punctuation; an empty form is.
pub open spec fn punct_form(form: Seq<char>) -> bool {
    forall|i: int| 0 <= i < form.len() ==> punctuation_char(#[trigger] form[i])
}

/// Whether every character of `form` is punctuation.
pub fn is_punct_form(form: &str) -> (r: bool)
    ensures
        r == punct_form(form@),
{
    let n = form.unicode_len();
    let mut i: usize = 0;
    while i < n
        invariant
            n == form@.len(),
            i <= n,
            forall|j: int| 0 <= j < i ==> punctuation_char(#[trigger] form@[j]),
        decreases n - i,
    {
        if !is_punctuation(form.get_char(i)) {
            return false;
        }
        i = i + 1;
    }
    true
}

/// The six counters of attachment scoring.
#[derive(Clone, Copy, Debug, PartialEq, Eq, Structural)]
pub enum Counter {
    Labeled,
    Unlabeled,
    Total,
    NopunctLabeled,
    NopunctUnlabeled,
    NopunctTotal,
}

/// Whether the two words have the same head and the same relation.
pub open spec fn labeled_hit(g: Word, p: Word) -> bool {
    &&& g.head matches Some(ge)
    &&& p.head matches Some(pe)
    &&& ge.head == pe.head
    &&& opt_view(ge.relation) == opt_view(pe.relation)
}

/// Whether the two words have the same head.
pub open spec fn unlabeled_hit(g: Word, p: Word) -> bool {
    &&& g.head matches Some(ge)
    &&& p.head matches Some(pe)
    &&& ge.head == pe.head
}

/// Whether the gold word `g`, paired with `p`, adds one to counter `c`.
pub open spec fn counts(c: Counter, g: Word, p: Word) -> bool {
    let np = !punct_form(g.token.form@);
    match c {
        Counter::Labeled => labeled_hit(g, p),
        Counter::Unlabeled => unlabeled_hit(g, p),
        Counter::Total => true,
        Counter::NopunctLabeled => np && labeled_hit(g, p),
        Counter::NopunctUnlabeled => np && unlabeled_hit(g, p),
        Counter::NopunctTotal => np,
    }
}

/// Counter `c` over two aligned sentences.
pub open spec fn sentence_count(c: Counter, w1: Seq<Word>, w2: Seq<Word>) -> nat {
    sum_to(w1.len() as int, |i: int| indicator(counts(c, w1[i], w2[i])))
}

/// Counter `c` over the first `n` sentence pairs of two corpora.
pub open spec fn corpus_count(c: Counter, c1: Seq<Sentence>, c2: Seq<Sentence>, n: int) -> nat {
    sum_to(n, |j: int| sentence_count(c, c1[j].words@, c2[j].words@))
}

/// Whether either word lacks a head.
pub open spec fn headless(g: Word, p: Word) -> bool {
    g.head is None || p.head is None
}

/// The first position among the first `n` at which a word lacks a head.
pub open spec fn first_headless(w1: Seq<Word>, w2: Seq<Word>, n: int) -> Option<int>
    decreases n,
{
    if n <= 0 {
        None
    } else {
        match first_headless(w1, w2, n - 1) {
            Some(i) => Some(i),
            None => if headless(w1[n - 1], w2[n - 1]) {
                Some(n - 1)
            } else {
                None
            },
        }
    }
}

/// The error that scoring an aligned sentence pair meets, if any.
pub open spec fn head_error(g: Sentence, p: Sentence) -> Option<EvalError> {
    match first_headless(g.words@, p.words@, g.words@.len() as int) {
        Some(i) => Some(EvalError::MissingHead { index: (i + 1) as usize }),
        None => None,
    }
}

/// The error that scoring a sentence pair meets, if any.
pub open spec fn pair_error(g: Sentence, p: Sentence) -> Option<EvalError> {
    match length_error(g, p) {
        Some(e) => Some(e),
        None => head_error(g, p),
    }
}

/// Whether pair `j` is the first pair that fails.
pub open spec fn first_failing(c1: Seq<Sentence>, c2: Seq<Sentence>, j: int) -> bool {
    &&& pair_error(c1[j], c2[j]) is Some
    &&& forall|i: int| 0 <= i < j ==> (#[trigger] pair_error(c1[i], c2[i])) is None
}

/// Running counts of attachment scoring.
#[derive(Clone, Copy, Debug, PartialEq, Eq, Structural)]
pub struct AttachmentScores {
    pub labeled_correct: u64,
    pub unlabeled_correct: u64,
    pub total: u64,
    pub nopunct_labeled_correct: u64,
    pub nopunct_unlabeled_correct: u64,
    pub nopunct_total: u64,
}

impl AttachmentScores {
    /// The value of counter `c`.
    pub open spec fn count(self, c: Counter) -> nat {
        match c {
            Counter::Labeled => self.labeled_correct as nat,
            Counter::Unlabeled => self.unlabeled_correct as nat,
            Counter::Total => self.total as nat,
            Counter::NopunctLabeled => self.nopunct_labeled_correct as nat,
            Counter::NopunctUnlabeled => self.nopunct_unlabeled_correct as nat,
            Counter::NopunctTotal => self.nopunct_total as nat,
        }
    }

    /// No counter exceeds the total.
    pub open spec fn wf(self) -> bool {
        forall|c: Counter| #[trigger] self.count(c) <= self.total
    }

    /// All counters at zero.
    pub fn new() -> (r: AttachmentScores)
        ensures
            forall|c: Counter| #[trigger] r.count(c) == 0,
            r.wf(),
    {
        AttachmentScores {
            labeled_correct: 0,
            unlabeled_correct: 0,
            total: 0,
            nopunct_labeled_correct: 0,
            nopunct_unlabeled_correct: 0,
            nopunct_total: 0,
        }
    }

    /// Scores the words of two aligned sentences, gold first. Fails,
    /// leaving the counters as they were, where a word lacks a head.
    pub fn add_sentences(&mut self, gold: &Sentence, predicted: &Sentence) -> (r: Result<(), EvalError>)
        requires
            old(self).wf(),
            gold.words@.len() == predicted.words@.len(),
            old(self).total + gold.words@.len() <= u64::MAX,
        ensures
            final(self).wf(),
            match head_error(*gold, *predicted) {
                Some(e) => r == Err::<(), EvalError>(e) && *final(self) == *old(self),
                None => r is Ok && forall|c: Counter|
                    #[trigger] final(self).count(c) == old(self).count(c) + sentence_count(
                        c,
                        gold.words@,
                        predicted.words@,
                    ),
            },
    {
        let n = gold.len();
        let mut i: usize = 0;
        while i < n
            invariant
                n == gold.words@.len(),
                n == predicted.words@.len(),
                i <= n,
                first_headless(gold.words@, predicted.words@, i as int) is None,
                *self == *old(self),
                self.wf(),
            decreases n - i,
        {
            if gold.words[i].head.is_none() || predicted.words[i].head.is_none() {
                assert(first_headless(gold.words@, predicted.words@, i + 1) == Some(i as int));
                proof {
                    lemma_first_headless_stays(gold.words@, predicted.words@, i + 1, n as int);
                }
                return Err(EvalError::MissingHead { index: i + 1 });
            }
            i = i + 1;
        }
        let ghost start = *self;
        let mut i: usize = 0;
        while i < n
            invariant
                n == gold.words@.len(),
                n == predicted.words@.len(),
                i <= n,
                start.wf(),
                start.total + n <= u64::MAX,
                self.total == start.total + i,
                forall|c: Counter|
                    #[trigger] self.count(c) == start.count(c) + sentence_count(
                        c,
                        gold.words@.subrange(0, i as int),
                        predicted.words@.subrange(0, i as int),
                    ),
                self.wf(),
            decreases n - i,
        {
            let g = &gold.words[i];
            let p = &predicted.words[i];
            let punct = is_punct_form(g.token.form.as_str());
            let (labeled, unlabeled) = match (&g.head, &p.head) {
                (Some(ge), Some(pe)) => {
                    let same_head = ge.head == pe.head;
                    (same_head && crate::token::opt_equals(&ge.relation, &pe.relation), same_head)
                },
                _ => (false, false),
            };
            let ghost before = *self;
            assert(labeled == labeled_hit(gold.words@[i as int], predicted.words@[i as int]));
            assert(unlabeled == unlabeled_hit(gold.words@[i as int], predicted.words@[i as int]));
            assert(before.count(Counter::Labeled) <= before.total);
            assert(before.count(Counter::Unlabeled) <= before.total);
            assert(before.count(Counter::NopunctTotal) <= before.total);
            assert(before.count(Counter::NopunctLabeled) <= before.total);
            assert(before.count(Counter::NopunctUnlabeled) <= before.total);
            self.total = self.total + 1;
            if labeled {
                self.labeled_correct = self.labeled_correct + 1;
            }
            if unlabeled {
                self.unlabeled_correct = self.unlabeled_correct + 1;
            }
            if !punct {
                self.nopunct_total = self.nopunct_total + 1;
                if labeled {
                    self.nopunct_labeled_correct = self.nopunct_labeled_correct + 1;
                }
                if unlabeled {
                    self.nopunct_unlabeled_correct = self.nopunct_unlabeled_correct + 1;
                }
            }
            proof {
                assert forall|c: Counter|
                    #[trigger] self.count(c) == start.count(c) + sentence_count(
                        c,
                        gold.words@.subrange(0, i + 1),
                        predicted.words@.subrange(0, i + 1),
                    ) by {
                    lemma_count_step(c, gold.words@, predicted.words@, i as int);
                    assert(self.count(c) == before.count(c) + indicator(
                        counts(c, gold.words@[i as int], predicted.words@[i as int]),
                    ));
                }
            }
            i = i + 1;
        }
        assert(gold.words@.subrange(0, n as int) =~= gold.words@);
        assert(predicted.words@.subrange(0, n as int) =~= predicted.words@);
        Ok(())
    }
}

proof fn lemma_first_headless_stays(w1: Seq<Word>, w2: Seq<Word>, m: int, n: int)
    requires
        m <= n,
        first_headless(w1, w2, m) is Some,
    ensures
        first_headless(w1, w2, n) == first_headless(w1, w2, m),
    decreases n - m,
{
    if m < n {
        lemma_first_headless_stays(w1, w2, m, n - 1);
    }
}

proof fn lemma_count_step(c: Counter, w1: Seq<Word>, w2: Seq<Word>, i: int)
    requires
        0 <= i < w1.len(),
        i < w2.len(),
    ensures
        sentence_count(c, w1.subrange(0, i + 1), w2.subrange(0, i + 1)) == sentence_count(
            c,
            w1.subrange(0, i),
            w2.subrange(0, i),
        ) + indicator(counts(c, w1[i], w2[i])),
{
    let a1 = w1.subrange(0, i + 1);
    let a2 = w2.subrange(0, i + 1);
    let b1 = w1.subrange(0, i);
    let b2 = w2.subrange(0, i);
    let fa = |k: int| indicator(counts(c, a1[k], a2[k]));
    let fb = |k: int| indicator(counts(c, b1[k], b2[k]));
    assert forall|k: int| 0 <= k < i implies #[trigger] fa(k) == fb(k) by {
        assert(a1[k] == b1[k]);
        assert(a2[k] == b2[k]);
    }
    crate::sums::lemma_sum_equal(i, fa, fb);
    assert(a1[i] == w1[i]);
    assert(a2[i] == w2[i]);
}

/// Counter `Total` over two aligned sentences is their length.
proof fn lemma_total_is_length(w1: Seq<Word>, w2: Seq<Word>)
    ensures
        sentence_count(Counter::Total, w1, w2) == w1.len(),
{
    let f = |i: int| indicator(counts(Counter::Total, w1[i], w2[i]));
    lemma_sum_constant(w1.len() as int, f, 1);
}

/// The attachment scores of two treebanks over the sentence pairs that both
/// hold, gold first. Stops at the first pair whose lengths differ or in
/// which a word lacks a head.
pub fn dependency_eval(gold: &Vec<Sentence>, predicted: &Vec<Sentence>) -> (r: Result<AttachmentScores, EvalError>)
    requires
        corpus_tokens(gold@, paired(gold@, predicted@)) <= u64::MAX,
    ensures
        match r {
            Ok(s) => {
                &&& forall|j: int| 0 <= j < paired(gold@, predicted@) ==> (#[trigger] pair_error(gold@[j], predicted@[j])) is None
                &&& forall|c: Counter| #[trigger] s.count(c) == corpus_count(c, gold@, predicted@, paired(gold@, predicted@))
                &&& s.wf()
            },
            Err(e) => exists|j: int|
                0 <= j < paired(gold@, predicted@) && #[trigger] first_failing(gold@, predicted@, j)
                    && pair_error(gold@[j], predicted@[j]) == Some(e),
        },
{
    let ghost m = paired(gold@, predicted@);
    let ghost ft = |j: int| gold@[j].words@.len();
    let n = if gold.len() <= predicted.len() { gold.len() } else { predicted.len() };
    let mut score = AttachmentScores::new();
    assert(score.count(Counter::Total) == 0);
    let mut j: usize = 0;
    while j < n
        invariant
            n == m,
            m == paired(gold@, predicted@),
            m <= gold@.len(),
            m <= predicted@.len(),
            j <= n,
            ft == (|j: int| gold@[j].words@.len()),
            corpus_tokens(gold@, m) == sum_to(m, ft),
            sum_to(m, ft) <= u64::MAX,
            forall|i: int| 0 <= i < j ==> (#[trigger] pair_error(gold@[i], predicted@[i])) is None,
            forall|c: Counter| #[trigger] score.count(c) == corpus_count(c, gold@, predicted@, j as int),
            score.total == sum_to(j as int, ft),
            score.wf(),
        decreases n - j,
    {
        if gold[j].len() != predicted[j].len() {
            assert(first_failing(gold@, predicted@, j as int));
            let n1 = gold[j].len();
            let n2 = predicted[j].len();
            return Err(EvalError::LengthMismatch { first: n1, second: n2 });
        }
        proof {
            lemma_sum_prefix(j + 1, m, ft);
        }
        let ghost before = score;
        match score.add_sentences(&gold[j], &predicted[j]) {
            Ok(()) => {},
            Err(e) => {
                assert(first_failing(gold@, predicted@, j as int));
                return Err(e);
            },
        }
        proof {
            lemma_total_is_length(gold@[j as int].words@, predicted@[j as int].words@);
            assert(score.count(Counter::Total) == before.count(Counter::Total) + gold@[j as int].words@.len());
        }
        j = j + 1;
    }
    Ok(score)
}

/// Over any two corpora, no more tokens are attached with the right head
/// and label than with the right head, punctuation tokens are among all
/// tokens, and tokens attached right are among those scored; with and
/// without punctuation.
pub proof fn score_ordering(gold: Seq<Sentence>, predicted: Seq<Sentence>, n: int)
    ensures
        corpus_count(Counter::Labeled, gold, predicted, n) <= corpus_count(Counter::Unlabeled, gold, predicted, n),
        corpus_count(Counter::Unlabeled, gold, predicted, n) <= corpus_count(Counter::Total, gold, predicted, n),
        corpus_count(Counter::NopunctTotal, gold, predicted, n) <= corpus_count(Counter::Total, gold, predicted, n),
        corpus_count(Counter::NopunctLabeled, gold, predicted, n) <= corpus_count(Counter::NopunctUnlabeled, gold, predicted, n),
        corpus_count(Counter::NopunctUnlabeled, gold, predicted, n) <= corpus_count(Counter::NopunctTotal, gold, predicted, n),
{
    lemma_corpus_monotone(Counter::Labeled, Counter::Unlabeled, gold, predicted, n);
    lemma_corpus_monotone(Counter::Unlabeled, Counter::Total, gold, predicted, n);
    lemma_corpus_monotone(Counter::NopunctTotal, Counter::Total, gold, predicted, n);
    lemma_corpus_monotone(Counter::NopunctLabeled, Counter::NopunctUnlabeled, gold, predicted, n);
    lemma_corpus_monotone(Counter::NopunctUnlabeled, Counter::NopunctTotal, gold, predicted, n);
}

/// Counter `a` is at most counter `b` on every corpus where each word that
/// counts for `a` counts for `b`.
proof fn lemma_corpus_monotone(a: Counter, b: Counter, gold: Seq<Sentence>, predicted: Seq<Sentence>, n: int)
    requires
        forall|g: Word, p: Word| #[trigger] counts(a, g, p) ==> counts(b, g, p),
    ensures
        corpus_count(a, gold, predicted, n) <= corpus_count(b, gold, predicted, n),
{
    let fa = |j: int| sentence_count(a, gold[j].words@, predicted[j].words@);
    let fb = |j: int| sentence_count(b, gold[j].words@, predicted[j].words@);
    assert forall|j: int| 0 <= j < n implies #[trigger] fa(j) <= fb(j) by {
        let w1 = gold[j].words@;
        let w2 = predicted[j].words@;
        let ga = |i: int| indicator(counts(a, w1[i], w2[i]));
        let gb = |i: int| indicator(counts(b, w1[i], w2[i]));
        assert forall|i: int| 0 <= i < w1.len() implies #[trigger] ga(i) <= gb(i) by {
            assert(counts(a, w1[i], w2[i]) ==> counts(b, w1[i], w2[i]));
        }
        lemma_sum_monotone(w1.len() as int, ga, gb);
    }
    lemma_sum_monotone(n, fa, fb);
}

} // verus!
