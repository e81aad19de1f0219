//! Pairing the sentences of two treebanks.

use vstd::prelude::*;

use crate::error::EvalError;
use crate::sums::sum_to;
use crate::token::Sentence;

verus! {

/// The error of an aligned sentence pair whose lengths differ, if they do.
pub open spec fn length_error(first: Sentence, second: Sentence) -> Option<EvalError> {
    if first.words@.len() != second.words@.len() {
        Some(
            EvalError::LengthMismatch {
                first: first.words@.len() as usize,
                second: second.words@.len() as usize,
            },
        )
    } else {
        None
    }
}

/// Whether the first `n` sentence pairs of two corpora have equal lengths.
pub open spec fn aligned(first: Seq<Sentence>, second: Seq<Sentence>, n: int) -> bool {
    forall|j: int| 0 <= j < n ==> (#[trigger] first[j]).words@.len() == second[j].words@.len()
}

/// The number of sentence pairs that are compared: the shorter corpus
/// decides, and the rest of the longer one is not read.
pub open spec fn paired(first: Seq<Sentence>, second: Seq<Sentence>) -> int {
    if first.len() <= second.len() {
        first.len() as int
    } else {
        second.len() as int
    }
}

/// The number of tokens in the first `n` sentences.
pub open spec fn corpus_tokens(corpus: Seq<Sentence>, n: int) -> nat {
    sum_to(n, |j: int| corpus[j].words@.len())
}

/// Takes one sentence from each treebank as it was read. A read failure
/// ends the run, the first treebank's before the second's; so does a
/// difference in the number of tokens.
pub fn align_pair(
    first: Result<Sentence, String>,
    second: Result<Sentence, String>,
) -> (r: Result<(Sentence, Sentence), EvalError>)
    ensures
        match (first, second) {
            (Err(m), _) => r matches Err(EvalError::ReadFirst(e)) && e@ == m@,
            (Ok(_), Err(m)) => r matches Err(EvalError::ReadSecond(e)) && e@ == m@,
            (Ok(s1), Ok(s2)) => match length_error(s1, s2) {
                Some(e) => r == Err::<(Sentence, Sentence), EvalError>(e),
                None => r == Ok::<(Sentence, Sentence), EvalError>((s1, s2)),
            },
        },
{
    let s1 = match first {
        Ok(s) => s,
        Err(m) => {
            return Err(EvalError::ReadFirst(m));
        },
    };
    let s2 = match second {
        Ok(s) => s,
        Err(m) => {
            return Err(EvalError::ReadSecond(m));
        },
    };
    if s1.len() != s2.len() {
        let n1 = s1.len();
        let n2 = s2.len();
        return Err(EvalError::LengthMismatch { first: n1, second: n2 });
    }
    Ok((s1, s2))
}

} // verus!
