use snn::neural::nodes::Node;

#[test]
fn node_starts_with_zero_entries() {
    let node = Node::new();
    for i in 0u8..255 {
        assert_eq!(node.tranform(i), 0);
    }
}
