//! The frozen catalog of ordered spaces.

use std::collections::BTreeSet;

use nokv_meta::provider_catalog::{all_ordered_spaces, holt_tree_name};

#[test]
fn ordered_space_ids_have_one_frozen_complete_mapping() {
    let actual = all_ordered_spaces();
    let expected = vec![
        0x0101, 0x0102, 0x0103, 0x0104, 0x0105, 0x0106, 0x0202, 0x0203, 0x0204, 0x0205, 0x0206,
        0x0207, 0x0208, 0x0209, 0x020a, 0x020b, 0x020c, 0x020d, 0x020e, 0x020f, 0x0211, 0x0212,
        0x0213, 0x0215, 0x0216, 0x0217,
    ];
    assert_eq!(actual, expected);
    assert_eq!(actual.iter().copied().collect::<BTreeSet<_>>().len(), 26);
    assert!(!actual.contains(&0x0210));
    assert!(!actual.contains(&0x0214));
}

#[test]
fn every_ordered_space_has_one_holt_catalog_entry() {
    let trees = all_ordered_spaces()
        .into_iter()
        .map(|space| holt_tree_name(space).unwrap())
        .collect::<BTreeSet<_>>();
    assert_eq!(trees.len(), 26);
}
