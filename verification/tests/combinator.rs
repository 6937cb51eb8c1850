use snn::neural::combinator::{
    combinator_from_lowercase, combinator_from_str, ANDCombinatorNode, AdditionCombinatorNode,
    AverageCombinatorNode, MaxCombinatorNode, MedianCombinatorNode, MinCombinatorNode,
    MultiplicationCombinatorNode, NANDCombinatorNode, NORCombinatorNode, ORCombinatorNode,
    XNORCombinatorNode, XORCombinatorNode,
};
use snn::neural::traits::Combinator;

const CANONICAL: [&str; 12] = [
    "addition", "multiply", "max", "min", "average", "median", "or", "and", "xor", "nand", "nor",
    "xnor",
];

fn resolve(name: &str) -> Box<dyn Combinator> {
    match combinator_from_str(name) {
        Some(found) => found,
        None => panic!("no combinator named {}", name),
    }
}

#[test]
fn empty_input_policy() {
    assert_eq!(MinCombinatorNode::new().combine(&[]), 0);
    assert_eq!(MaxCombinatorNode::new().combine(&[]), 0);
    assert_eq!(AverageCombinatorNode::new().combine(&[]), 0);
    assert_eq!(MedianCombinatorNode::new().combine(&[]), 0);
    assert_eq!(ANDCombinatorNode::new().combine(&[]), 0xFF);
    assert_eq!(ORCombinatorNode::new().combine(&[]), 0);
    assert_eq!(XORCombinatorNode::new().combine(&[]), 0);
}

#[test]
fn empty_input_for_the_remaining_strategies() {
    assert_eq!(AdditionCombinatorNode::new().combine(&[]), 0);
    assert_eq!(MultiplicationCombinatorNode::new().combine(&[]), 1);
    assert_eq!(NANDCombinatorNode::new().combine(&[]), 0);
    assert_eq!(NORCombinatorNode::new().combine(&[]), 0xFF);
    assert_eq!(XNORCombinatorNode::new().combine(&[]), 0xFF);
}

#[test]
fn addition_wraps_around() {
    let node = AdditionCombinatorNode::new();
    assert_eq!(node.combine(&[200, 100]), 44);
    assert_eq!(node.combine(&[1, 2, 3]), 6);
    assert_eq!(node.combine(&[255, 1]), 0);
    assert_eq!(node.combine(&[255; 257]), 255);
}

#[test]
fn multiply_wraps_around() {
    let node = MultiplicationCombinatorNode::new();
    assert_eq!(node.combine(&[16, 16]), 0);
    assert_eq!(node.combine(&[3, 5, 7]), 105);
    assert_eq!(node.combine(&[17, 17]), 33);
    assert_eq!(node.combine(&[200, 0, 3]), 0);
}

#[test]
fn max_and_min_pick_an_element() {
    assert_eq!(MaxCombinatorNode::new().combine(&[3, 200, 7]), 200);
    assert_eq!(MaxCombinatorNode::new().combine(&[0]), 0);
    assert_eq!(MaxCombinatorNode::new().combine(&[255, 255]), 255);
    assert_eq!(MinCombinatorNode::new().combine(&[3, 200, 7]), 3);
    assert_eq!(MinCombinatorNode::new().combine(&[200]), 200);
    assert_eq!(MinCombinatorNode::new().combine(&[9, 9, 0]), 0);
    assert_eq!(MinCombinatorNode::new().combine(&[255, 254]), 254);
}

#[test]
fn average_rounds_down_without_overflow() {
    let node = AverageCombinatorNode::new();
    assert_eq!(node.combine(&[1, 2]), 1);
    assert_eq!(node.combine(&[10, 20, 30]), 20);
    assert_eq!(node.combine(&[255, 255, 255]), 255);
    assert_eq!(node.combine(&[255, 254]), 254);
    assert_eq!(node.combine(&[200; 1000]), 200);
    assert_eq!(node.combine(&[7]), 7);
}

#[test]
fn median_parity() {
    let node = MedianCombinatorNode::new();
    assert_eq!(node.combine(&[1, 2, 3, 4]), 2);
    assert_eq!(node.combine(&[1, 2, 3]), 2);
}

#[test]
fn median_sorts_before_it_picks() {
    let node = MedianCombinatorNode::new();
    assert_eq!(node.combine(&[3, 1, 2]), 2);
    assert_eq!(node.combine(&[9, 1, 5, 3]), 4);
    assert_eq!(node.combine(&[40, 10, 30, 20, 50]), 30);
    assert_eq!(node.combine(&[7]), 7);
}

#[test]
fn median_of_two_large_values_does_not_overflow() {
    let node = MedianCombinatorNode::new();
    assert_eq!(node.combine(&[255, 255]), 255);
    assert_eq!(node.combine(&[254, 255]), 254);
    assert_eq!(node.combine(&[200, 100]), 150);
}

#[test]
fn bitwise_reductions() {
    let inputs = [0b1100, 0b1010, 0b1001];
    assert_eq!(ORCombinatorNode::new().combine(&inputs), 0b1111);
    assert_eq!(ANDCombinatorNode::new().combine(&inputs), 0b1000);
    assert_eq!(XORCombinatorNode::new().combine(&inputs), 0b1111);
    assert_eq!(NORCombinatorNode::new().combine(&inputs), 0b1111_0000);
    assert_eq!(NANDCombinatorNode::new().combine(&inputs), 0b1111_0111);
    assert_eq!(XNORCombinatorNode::new().combine(&inputs), 0b1111_0000);
    assert_eq!(XORCombinatorNode::new().combine(&[0xAA, 0xAA]), 0);
}

#[test]
fn identifiers_are_canonical() {
    assert_eq!(AdditionCombinatorNode::new().identifier(), "addition");
    assert_eq!(MultiplicationCombinatorNode::new().identifier(), "multiply");
    assert_eq!(MaxCombinatorNode::new().identifier(), "max");
    assert_eq!(MinCombinatorNode::new().identifier(), "min");
    assert_eq!(AverageCombinatorNode::new().identifier(), "average");
    assert_eq!(MedianCombinatorNode::new().identifier(), "median");
    assert_eq!(ORCombinatorNode::new().identifier(), "or");
    assert_eq!(ANDCombinatorNode::new().identifier(), "and");
    assert_eq!(XORCombinatorNode::new().identifier(), "xor");
    assert_eq!(NANDCombinatorNode::new().identifier(), "nand");
    assert_eq!(NORCombinatorNode::new().identifier(), "nor");
    assert_eq!(XNORCombinatorNode::new().identifier(), "xnor");
    assert_eq!(AdditionCombinatorNode::IDENTIFIER, "addition");
    assert_eq!(XNORCombinatorNode::IDENTIFIER, "xnor");
}

#[test]
fn alias_resolution() {
    assert_eq!(resolve("add").identifier(), "addition");
    assert_eq!(resolve("addition").identifier(), "addition");
    assert_eq!(resolve("+").identifier(), "addition");
}

#[test]
fn remaining_aliases() {
    assert_eq!(resolve("multiplication").identifier(), "multiply");
    assert_eq!(resolve("*").identifier(), "multiply");
    assert_eq!(resolve("avg").identifier(), "average");
}

#[test]
fn unknown_name_is_absent() {
    assert!(combinator_from_str("nonexistent").is_none());
    assert!(combinator_from_str("").is_none());
    assert!(combinator_from_str("ad").is_none());
    assert!(combinator_from_str("addition ").is_none());
    assert!(combinator_from_str("-").is_none());
}

#[test]
fn resolution_ignores_case() {
    assert_eq!(resolve("ADD").identifier(), "addition");
    assert_eq!(resolve("Median").identifier(), "median");
    assert_eq!(resolve("xNoR").identifier(), "xnor");
    assert_eq!(resolve("AVG").identifier(), "average");
}

#[test]
fn lowercase_lookup_does_not_fold_case() {
    assert!(combinator_from_lowercase("ADD").is_none());
    assert!(combinator_from_lowercase("Max").is_none());
    match combinator_from_lowercase("max") {
        Some(found) => assert_eq!(found.identifier(), "max"),
        None => panic!("max is a canonical name"),
    }
}

#[test]
fn canonical_names_round_trip() {
    for name in CANONICAL {
        assert_eq!(resolve(name).identifier(), name);
        let again = resolve(&resolve(name).identifier());
        assert_eq!(again.identifier(), name);
    }
}

#[test]
fn resolved_strategies_compute_what_their_name_says() {
    let inputs = [200u8, 100, 7];
    assert_eq!(resolve("addition").combine(&inputs), 51);
    assert_eq!(resolve("multiply").combine(&inputs), 224);
    assert_eq!(resolve("max").combine(&inputs), 200);
    assert_eq!(resolve("min").combine(&inputs), 7);
    assert_eq!(resolve("average").combine(&inputs), 102);
    assert_eq!(resolve("median").combine(&inputs), 100);
    assert_eq!(resolve("or").combine(&inputs), 200 | 100 | 7);
    assert_eq!(resolve("and").combine(&inputs), 200 & 100 & 7);
    assert_eq!(resolve("xor").combine(&inputs), 200 ^ 100 ^ 7);
    assert_eq!(resolve("nand").combine(&inputs), !(200u8 & 100 & 7));
    assert_eq!(resolve("nor").combine(&inputs), !(200u8 | 100 | 7));
    assert_eq!(resolve("xnor").combine(&inputs), !(200u8 ^ 100 ^ 7));
}

#[test]
fn median_of_many_inputs_matches_a_sorted_copy() {
    let node = MedianCombinatorNode::new();
    for len in [1usize, 2, 255, 256, 257, 1000, 1001] {
        let inputs: Vec<u8> = (0..len).map(|i| ((i * 37 + 11) % 256) as u8).collect();
        let mut sorted = inputs.clone();
        sorted.sort_unstable();
        let mid = len / 2;
        let expected = if len % 2 == 0 {
            ((sorted[mid - 1] as u16 + sorted[mid] as u16) / 2) as u8
        } else {
            sorted[mid]
        };
        assert_eq!(node.combine(&inputs), expected);
    }
}

#[test]
fn median_with_repeated_values() {
    let node = MedianCombinatorNode::new();
    assert_eq!(node.combine(&[5, 5, 5, 5]), 5);
    assert_eq!(node.combine(&[0, 255, 0, 255]), 127);
    assert_eq!(node.combine(&[9, 0, 9, 0, 9]), 9);
}
