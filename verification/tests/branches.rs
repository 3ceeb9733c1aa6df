use openvaf::branches::{branch_hi_lo, BranchReg};
use openvaf::model::{Branch, BranchKind, Node};

fn node(name: &str) -> Node {
    Node { name: name.to_string() }
}

fn between(name: &str, hi: &str, lo: &str) -> Branch {
    Branch { name: name.to_string(), kind: BranchKind::Nodes(node(hi), node(lo)) }
}

#[test]
fn branch_ends_by_kind() {
    assert_eq!(
        branch_hi_lo(&between("br", "a", "c")),
        ("a".to_string(), Some("c".to_string()))
    );
    let grounded = Branch { name: "br".to_string(), kind: BranchKind::NodeGnd(node("a")) };
    assert_eq!(branch_hi_lo(&grounded), ("a".to_string(), None));
    let flow = Branch { name: "br".to_string(), kind: BranchKind::PortFlow(node("p")) };
    assert_eq!(branch_hi_lo(&flow), ("p".to_string(), None));
}

#[test]
fn numbers_are_given_in_order() {
    let mut reg = BranchReg::new();
    assert_eq!(reg.len(), 0);
    assert_eq!(reg.named_id(&between("b0", "a", "c")), 0);
    assert_eq!(reg.unnamed_id(&node("c"), Some(&node("a"))), 1);
    assert_eq!(reg.unnamed_id(&node("c"), None), 2);
    assert_eq!(reg.len(), 3);
}

#[test]
fn a_branch_keeps_its_number() {
    let mut reg = BranchReg::new();
    assert_eq!(reg.named_id(&between("b0", "a", "c")), 0);
    assert_eq!(reg.unnamed_id(&node("b"), None), 1);
    assert_eq!(reg.named_id(&between("b0", "a", "c")), 0);
    assert_eq!(reg.unnamed_id(&node("b"), None), 1);
    assert_eq!(reg.len(), 2);
}

#[test]
fn named_and_unnamed_branches_share_numbers() {
    let mut reg = BranchReg::new();
    assert_eq!(reg.named_id(&between("b0", "a", "c")), 0);
    assert_eq!(reg.named_id(&between("b1", "a", "c")), 0);
    assert_eq!(reg.unnamed_id(&node("a"), Some(&node("c"))), 0);
    assert_eq!(reg.unnamed_id(&node("a"), Some(&node("d"))), 1);
}

#[test]
fn ground_and_an_empty_name_are_one_end() {
    let mut reg = BranchReg::new();
    assert_eq!(reg.unnamed_id(&node("a"), None), 0);
    assert_eq!(reg.unnamed_id(&node("a"), Some(&node(""))), 0);
}

#[test]
fn different_branches_have_different_numbers() {
    let mut reg = BranchReg::new();
    let names = ["a", "b", "c"];
    let mut seen: Vec<u32> = Vec::new();
    for hi in names {
        for lo in names {
            let id = reg.unnamed_id(&node(hi), Some(&node(lo)));
            assert!(!seen.contains(&id));
            seen.push(id);
        }
    }
    assert_eq!(seen, vec![0, 1, 2, 3, 4, 5, 6, 7, 8]);
}

#[test]
fn there_is_room_for_another_branch() {
    let mut reg = BranchReg::new();
    reg.unnamed_id(&node("a"), None);
    assert!(reg.admits(&"b".to_string(), &"".to_string()));
    assert!(reg.admits(&"a".to_string(), &"".to_string()));
}

#[test]
fn a_number_belongs_to_one_branch() {
    let mut reg = BranchReg::new();
    let ends = [("a", "b"), ("b", "a"), ("a", "")];
    for (hi, lo) in ends {
        reg.unnamed_id(&node(hi), Some(&node(lo)));
    }
    for (i, (hi, lo)) in ends.iter().enumerate() {
        for (j, (other_hi, other_lo)) in ends.iter().enumerate() {
            let one = reg.unnamed_id(&node(hi), Some(&node(lo)));
            let other = reg.unnamed_id(&node(other_hi), Some(&node(other_lo)));
            assert_eq!(one == other, i == j);
        }
    }
}
