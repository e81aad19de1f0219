use conllu_utils::cycle::check_cycles;
use conllu_utils::shuffle::{seed_from_u32, shuffle_sentences};
use conllu_utils::token::{Edge, Sentence, Token, Word};

fn with_heads(heads: &[Option<usize>]) -> Sentence {
    Sentence {
        words: heads
            .iter()
            .enumerate()
            .map(|(i, h)| Word {
                token: Token::new(format!("w{}", i)),
                head: h.map(|head| Edge { head, relation: Some("dep".to_string()) }),
            })
            .collect(),
    }
}

#[test]
fn tree_has_no_cycles() {
    let s = with_heads(&[Some(2), Some(0), Some(2)]);
    assert!(check_cycles(&s).is_empty());
    assert!(check_cycles(&with_heads(&[])).is_empty());
}

#[test]
fn cycle_is_reported_with_its_nodes() {
    // Nodes 1 and 2 point at each other; node 3 hangs off the root.
    let s = with_heads(&[Some(2), Some(1), Some(0)]);
    let cycles = check_cycles(&s);
    assert_eq!(cycles.len(), 1);
    let mut nodes = cycles[0].clone();
    nodes.sort();
    assert_eq!(nodes, vec![1, 2]);
}

#[test]
fn seed_holds_the_number_big_endian() {
    let seed = seed_from_u32(0x01020304);
    assert_eq!(&seed[..4], &[1, 2, 3, 4]);
    assert!(seed[4..].iter().all(|&b| b == 0));
    assert_eq!(seed_from_u32(0), [0u8; 16]);
}

#[test]
fn shuffle_is_a_seeded_permutation() {
    let sents: Vec<Sentence> = (0..20).map(|n| with_heads(&vec![None; n])).collect();
    let a = shuffle_sentences(sents.clone(), seed_from_u32(42));
    let b = shuffle_sentences(sents.clone(), seed_from_u32(42));
    assert_eq!(a, b);
    let mut lens: Vec<usize> = a.iter().map(|s| s.words.len()).collect();
    assert_ne!(lens, (0..20).collect::<Vec<usize>>());
    lens.sort();
    assert_eq!(lens, (0..20).collect::<Vec<usize>>());
    assert!(shuffle_sentences(Vec::<Sentence>::new(), seed_from_u32(1)).is_empty());
}
