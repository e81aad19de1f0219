//! Shuffling the sentences of a corpus with a seeded generator.

use vstd::prelude::*;

use rand::SeedableRng;


verus! {

/// The order in which rand's `SliceRandom::shuffle`, driven by a
/// `XorShiftRng` made from `seed`, leaves `items`.
pub uninterp spec fn shuffled(seed: Seq<u8>, items: Seq<usize>) -> Seq<usize>;

/// Relies on rand_xorshift's `XorShiftRng::from_seed` and rand's
/// `SliceRandom::shuffle`: the items reordered as the seeded shuffle leaves
/// them, each one kept.
#[verifier::external_body]
fn shuffle_in_place(items: &mut Vec<usize>, seed: [u8; 16])
    ensures
        final(items)@ == shuffled(seed@, old(items)@),
        final(items)@.to_multiset() == old(items)@.to_multiset(),
{
    let mut rng = rand_xorshift::XorShiftRng::from_seed(seed);
    rand::seq::SliceRandom::shuffle(items.as_mut_slice(), &mut rng);
}

/// The positions `0..n` in increasing order.
pub open spec fn positions(n: nat) -> Seq<usize> {
    Seq::new(n, |i: int| i as usize)
}

/// The positions `0..n` in the order of the shuffle seeded with `seed`:
/// each position once.
fn shuffled_positions(n: usize, seed: [u8; 16]) -> (r: Vec<usize>)
    ensures
        r@ == shuffled(seed@, positions(n as nat)),
        r@.len() == n,
        r@.no_duplicates(),
        forall|i: int| 0 <= i < r@.len() ==> #[trigger] r@[i] < n,
{
    let mut order: Vec<usize> = Vec::new();
    let mut i: usize = 0;
    while i < n
        invariant
            i <= n,
            order@ == positions(i as nat),
        decreases n - i,
    {
        order.push(i);
        assert(order@ =~= positions((i + 1) as nat));
        i = i + 1;
    }
    let ghost before = order@;
    proof {
        assert(before.no_duplicates());
        before.lemma_multiset_has_no_duplicates();
    }
    shuffle_in_place(&mut order, seed);
    proof {
        broadcast use vstd::seq_lib::group_to_multiset_ensures;

        assert(order@.to_multiset().len() == before.to_multiset().len());
        assert(order@.len() == before.len());
        assert forall|x: usize| order@.to_multiset().contains(x) implies order@.to_multiset().count(x) == 1 by {
        }
        order@.lemma_multiset_has_no_duplicates_conv();
        assert forall|k: int| 0 <= k < order@.len() implies #[trigger] order@[k] < n by {
            assert(order@.contains(order@[k]));
            assert(order@.to_multiset().count(order@[k]) > 0);
            assert(before.to_multiset().count(order@[k]) > 0);
            assert(before.contains(order@[k]));
        }
    }
    order
}

/// The seed for a number: its four bytes, most significant first, then
/// twelve zero bytes.
pub fn seed_from_u32(value: u32) -> (r: [u8; 16])
    ensures
        r@ == seq![
            (value / 0x1000000) as u8,
            (value / 0x10000 % 0x100) as u8,
            (value / 0x100 % 0x100) as u8,
            (value % 0x100) as u8,
            0u8, 0u8, 0u8, 0u8, 0u8, 0u8, 0u8, 0u8, 0u8, 0u8, 0u8, 0u8,
        ],
{
    let b0 = (value / 0x1000000) as u8;
    let b1 = (value / 0x10000 % 0x100) as u8;
    let b2 = (value / 0x100 % 0x100) as u8;
    let b3 = (value % 0x100) as u8;
    let r = [b0, b1, b2, b3, 0u8, 0u8, 0u8, 0u8, 0u8, 0u8, 0u8, 0u8, 0u8, 0u8, 0u8, 0u8];
    assert(r@ =~= seq![b0, b1, b2, b3, 0u8, 0u8, 0u8, 0u8, 0u8, 0u8, 0u8, 0u8, 0u8, 0u8, 0u8, 0u8]);
    r
}

/// The sentences (or any items) in the order of the shuffle seeded with
/// `seed`.
pub fn shuffle_sentences<T>(sentences: Vec<T>, seed: [u8; 16]) -> (r: Vec<T>)
    ensures
        r@.len() == sentences@.len(),
        forall|i: int|
            0 <= i < r@.len() ==> #[trigger] r@[i] == sentences@[shuffled(seed@, positions(sentences@.len() as nat))[i] as int],
{
    let n = sentences.len();
    let order = shuffled_positions(n, seed);
    let ghost items = sentences@;
    let mut rest = sentences;
    // slots[n - 1 - k] holds sentence k until it is taken.
    let mut slots: Vec<Option<T>> = Vec::new();
    while rest.len() > 0
        invariant
            n == items.len(),
            rest@ == items.subrange(0, rest@.len() as int),
            slots@.len() + rest@.len() == n,
            forall|j: int| 0 <= j < slots@.len() ==> #[trigger] slots@[j] == Some(items[n - 1 - j]),
        decreases rest@.len(),
    {
        let s = rest.pop().unwrap();
        slots.push(Some(s));
    }
    let mut out: Vec<T> = Vec::new();
    let mut i: usize = 0;
    while i < n
        invariant
            n == items.len(),
            slots@.len() == n,
            order@ == shuffled(seed@, positions(n as nat)),
            order@.len() == n,
            order@.no_duplicates(),
            forall|j: int| 0 <= j < n ==> #[trigger] order@[j] < n,
            i <= n,
            out@.len() == i,
            forall|j: int| 0 <= j < i ==> #[trigger] out@[j] == items[order@[j] as int],
            forall|k: int|
                0 <= k < n && !order@.subrange(0, i as int).contains(k as usize) ==> #[trigger] slots@[n
                    - 1 - k] == Some(items[k]),
        decreases n - i,
    {
        let k = order[i];
        assert(!order@.subrange(0, i as int).contains(k)) by {
            if order@.subrange(0, i as int).contains(k) {
                let j = choose|j: int| 0 <= j < i && order@.subrange(0, i as int)[j] == k;
                assert(order@[j] == order@[i as int]);
            }
        }
        let mut taken: Option<T> = None;
        std::mem::swap(&mut slots[n - 1 - k], &mut taken);
        let s = taken.unwrap();
        out.push(s);
        proof {
            assert forall|k2: int|
                0 <= k2 < n && !order@.subrange(0, i + 1).contains(k2 as usize) implies #[trigger] slots@[n
                    - 1 - k2] == Some(items[k2]) by {
                assert(order@.subrange(0, i + 1)[i as int] == k);
                assert(k2 != k as int);
                if order@.subrange(0, i as int).contains(k2 as usize) {
                    let j = choose|j: int| 0 <= j < i && order@.subrange(0, i as int)[j] == k2 as usize;
                    assert(order@.subrange(0, i + 1)[j] == k2 as usize);
                }
            }
        }
        i = i + 1;
    }
    out
}

} // verus!
