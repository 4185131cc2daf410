use bloon_sim::damage::DamageDealer;
use bloon_sim::lineage::BloonID;

#[test]
fn new_root_has_empty_path() {
    let id = BloonID::new();
    assert_eq!(id.layer, 0);
    assert_eq!(id.tree, 0);
}

#[test]
fn derive_child_keeps_parent_lineage() {
    let parent = BloonID { family: 0xdead_beef, layer: 0, tree: 0 };
    let c0 = parent.derive_child(0, 2);
    let c1 = parent.derive_child(1, 2);
    assert!(c0.same_subtree_as(&parent));
    assert!(c1.same_subtree_as(&parent));
    assert!(parent.same_subtree_as(&c0));
    assert_eq!(c0.family, parent.family);
    assert_eq!(c1.family, parent.family);
}

#[test]
fn siblings_are_distinguished_by_full_path() {
    let parent = BloonID { family: 7, layer: 0, tree: 0 };
    let c0 = parent.derive_child(0, 2);
    let c1 = parent.derive_child(1, 2);
    assert_eq!(c0.layer, 1);
    assert_eq!(c1.layer, 1);
    assert_eq!(c0.tree, 0);
    assert_eq!(c1.tree, 1);
    // a depth-exact comparison of the full paths tells the siblings apart,
    // so the low-min-depth test distinguishes them as well
    assert!(!c0.same_subtree_as(&c1));
}

#[test]
fn sole_child_consumes_no_bits() {
    let parent = BloonID { family: 3, layer: 5, tree: 0b10110 };
    let c = parent.derive_child(0, 1);
    assert_eq!(c.layer, 5);
    assert_eq!(c.tree, 0b10110);
    assert!(c.same_subtree_as(&parent));
}

#[test]
fn five_siblings_take_three_bits() {
    let parent = BloonID { family: 3, layer: 0, tree: 0 };
    let c4 = parent.derive_child(4, 5);
    assert_eq!(c4.layer, 3);
    assert_eq!(c4.tree, 4);
}

#[test]
fn different_families_never_share_lineage() {
    let a = BloonID { family: 1, layer: 0, tree: 0 };
    let b = BloonID { family: 2, layer: 0, tree: 0 };
    assert!(!a.same_subtree_as(&b));
}

#[test]
fn grandchild_still_matches_ancestor() {
    let root = BloonID { family: 9, layer: 0, tree: 0 };
    let child = root.derive_child(1, 2);
    let grandchild = child.derive_child(1, 2);
    assert_eq!(grandchild.layer, 2);
    assert_eq!(grandchild.tree, 0b11);
    assert!(grandchild.same_subtree_as(&root));
    assert!(grandchild.same_subtree_as(&child));
}

#[test]
fn has_hit_matches_whole_subtree() {
    let root = BloonID { family: 11, layer: 0, tree: 0 };
    let child = root.derive_child(1, 2);
    let stranger = BloonID { family: 12, layer: 0, tree: 0 };
    let dealer = DamageDealer {
        damage: 1,
        pierce: 5,
        hit_bloons: vec![root],
        cannot_pop_modifiers: 0,
        cannot_target_modifiers: 0,
    };
    assert!(dealer.has_hit(&root));
    assert!(dealer.has_hit(&child));
    assert!(!dealer.has_hit(&stranger));
}
