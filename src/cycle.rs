//! Cycles in the dependency graph of a sentence.

use vstd::prelude::*;

use crate::token::{Sentence, Word};

verus! {

/// The strongly connected components of the directed graph on the nodes
/// `0..n` with `edges`, in the order in which petgraph's `kosaraju_scc`
/// lists them.
pub uninterp spec fn components_of(n: nat, edges: Seq<(usize, usize)>) -> Seq<Seq<usize>>;

/// Relies on petgraph's `algo::kosaraju_scc`: the strongly connected
/// components of the graph on the nodes `0..n` with `edges`, as node indices.
#[verifier::external_body]
fn strongly_connected(n: usize, edges: &Vec<(usize, usize)>) -> (r: Vec<Vec<usize>>)
    requires
        n <= u32::MAX,
        forall|i: int| 0 <= i < edges@.len() ==> (#[trigger] edges@[i]).0 < n && edges@[i].1 < n,
    ensures
        r@.map_values(|c: Vec<usize>| c@) == components_of(n as nat, edges@),
{
    let mut graph = petgraph::Graph::<(), ()>::with_capacity(n, edges.len());
    for _ in 0..n {
        graph.add_node(());
    }
    graph.extend_with_edges(edges.iter().map(|&(a, b)| (a as u32, b as u32)));
    let components = petgraph::algo::kosaraju_scc(&graph);
    components.iter().map(|c| c.iter().map(|i| i.index()).collect()).collect()
}

/// Whether every recorded head is a node of the sentence.
pub open spec fn heads_in_range(w: Seq<Word>) -> bool {
    forall|i: int| 0 <= i < w.len() ==> head_below(#[trigger] w[i], w.len())
}

/// Whether the word has no head or a head at most `n`.
pub open spec fn head_below(w: Word, n: nat) -> bool {
    match w.head {
        Some(e) => e.head <= n,
        None => true,
    }
}

/// The edges from head to dependent among the first `n` words; the word at
/// position `i` is node `i + 1`.
pub open spec fn dependency_edges(w: Seq<Word>, n: int) -> Seq<(usize, usize)>
    decreases n,
{
    if n <= 0 {
        Seq::empty()
    } else {
        match w[n - 1].head {
            Some(e) => dependency_edges(w, n - 1).push((e.head, n as usize)),
            None => dependency_edges(w, n - 1),
        }
    }
}

/// The components among the first `n` that hold more than one node.
pub open spec fn cycles_among(components: Seq<Seq<usize>>, n: int) -> Seq<Seq<usize>>
    decreases n,
{
    if n <= 0 {
        Seq::empty()
    } else if components[n - 1].len() != 1 {
        cycles_among(components, n - 1).push(components[n - 1])
    } else {
        cycles_among(components, n - 1)
    }
}

/// The cycles of a sentence's dependency graph: its strongly connected
/// components of more than one node, root included as node 0.
pub fn check_cycles(sentence: &Sentence) -> (r: Vec<Vec<usize>>)
    requires
        sentence.words@.len() < u32::MAX,
        heads_in_range(sentence.words@),
    ensures
        r@.map_values(|c: Vec<usize>| c@) == ({
            let comps = components_of(
                (sentence.words@.len() + 1) as nat,
                dependency_edges(sentence.words@, sentence.words@.len() as int),
            );
            cycles_among(comps, comps.len() as int)
        }),
{
    let n = sentence.len();
    let mut edges: Vec<(usize, usize)> = Vec::new();
    let mut i: usize = 0;
    while i < n
        invariant
            n == sentence.words@.len(),
            n < u32::MAX,
            heads_in_range(sentence.words@),
            i <= n,
            edges@ == dependency_edges(sentence.words@, i as int),
            forall|k: int| 0 <= k < edges@.len() ==> (#[trigger] edges@[k]).0 <= n && edges@[k].1 <= n,
        decreases n - i,
    {
        match &sentence.words[i].head {
            Some(e) => {
                edges.push((e.head, i + 1));
            },
            None => {},
        }
        i = i + 1;
    }
    let components = strongly_connected(n + 1, &edges);
    let ghost comps = components@.map_values(|c: Vec<usize>| c@);
    let mut cycles: Vec<Vec<usize>> = Vec::new();
    let mut j: usize = 0;
    while j < components.len()
        invariant
            comps == components@.map_values(|c: Vec<usize>| c@),
            j <= components@.len(),
            cycles@.map_values(|c: Vec<usize>| c@) == cycles_among(comps, j as int),
        decreases components@.len() - j,
    {
        assert(comps[j as int] == components@[j as int]@);
        if components[j].len() != 1 {
            let ghost before = cycles@.map_values(|c: Vec<usize>| c@);
            cycles.push(components[j].clone());
            assert(cycles@.map_values(|c: Vec<usize>| c@) =~= before.push(comps[j as int]));
        }
        j = j + 1;
    }
    cycles
}

} // verus!
