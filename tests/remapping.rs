use std::collections::HashMap;
use terminusdb_10_to_11::mapping::{assign_value_ids, child_offset, compose_layer, extend_mapping, mapping_from_pairs};
use terminusdb_10_to_11::triples::{remap_adjacency_groups, remap_node_value_idmap, required_width};

fn lookup(m: &HashMap<u64, u64>, x: u64) -> u64 {
    *m.get(&x).unwrap_or(&x)
}

#[test]
fn values_are_numbered_in_sorted_order() {
    // legacy ids 3..=6 (two nodes), sorted order 5, 3, 6, 4
    let pairs = assign_value_ids(&vec![5, 3, 6, 4], 0, 2);
    assert_eq!(pairs, vec![(5, 3), (3, 4), (6, 5), (4, 6)]);
    let m = mapping_from_pairs(&pairs);
    assert_eq!(lookup(&m, 5), 3);
    assert_eq!(lookup(&m, 3), 4);
    assert_eq!(lookup(&m, 6), 5);
    assert_eq!(lookup(&m, 4), 6);
    assert_eq!(child_offset(0, 2, 4), 6);
}

#[test]
fn unmoved_values_get_no_entry() {
    assert_eq!(assign_value_ids(&vec![3, 5, 4, 6], 0, 2), vec![(5, 4), (4, 5)]);
    assert_eq!(assign_value_ids(&vec![], 7, 2), vec![]);
}

#[test]
fn node_ids_are_not_remapped() {
    let pairs = assign_value_ids(&vec![14, 12, 13], 8, 3);
    let m = mapping_from_pairs(&pairs);
    for id in 1..=11u64 {
        assert_eq!(lookup(&m, id), id);
    }
}

#[test]
fn composition_over_three_layers() {
    // base: 1 node, values 2..=5 in sorted order 3, 5, 2, 4
    let own0 = assign_value_ids(&vec![3, 5, 2, 4], 0, 1);
    let off1 = child_offset(0, 1, 4);
    let composed0 = mapping_from_pairs(&own0);
    // child1: 1 node, values 7..=8
    let own1 = assign_value_ids(&vec![8, 7], off1, 1);
    let off2 = child_offset(off1, 1, 2);
    let mut composed1 = composed0.clone();
    extend_mapping(&mut composed1, &own1);
    // child2: 2 nodes, values 11..=12
    let own2 = assign_value_ids(&vec![12, 11], off2, 2);
    let mut composed2 = composed1.clone();
    extend_mapping(&mut composed2, &own2);
    for x in 2..=5u64 {
        assert_eq!(lookup(&composed2, x), lookup(&composed0, x));
    }
    assert_eq!(lookup(&composed2, 8), 7);
    assert_eq!(lookup(&composed2, 12), 11);
    assert_eq!(off2, 8);
}

#[test]
fn own_entries_win_on_collision() {
    let mut m = mapping_from_pairs(&vec![(1, 10), (2, 20)]);
    extend_mapping(&mut m, &vec![(2, 30), (3, 40)]);
    assert_eq!(lookup(&m, 1), 10);
    assert_eq!(lookup(&m, 2), 30);
    assert_eq!(lookup(&m, 3), 40);
}

#[test]
fn groups_are_translated_and_resorted() {
    let m = mapping_from_pairs(&vec![(5, 9), (9, 1)]);
    let bits = vec![false, false, true, false, true, true];
    let nums = vec![2, 5, 7, 9, 3, 4];
    let out = remap_adjacency_groups(&bits, &nums, &m);
    assert_eq!(out, vec![2, 7, 9, 1, 3, 4]);
}

#[test]
fn trailing_positions_form_a_group() {
    let m = mapping_from_pairs(&vec![(3, 100)]);
    let out = remap_adjacency_groups(&vec![true, false, false], &vec![3, 3, 8], &m);
    assert_eq!(out, vec![100, 8, 100]);
}

#[test]
fn empty_index_stays_empty() {
    let m = HashMap::new();
    assert_eq!(remap_adjacency_groups(&vec![], &vec![], &m), Vec::<u64>::new());
}

#[test]
fn rollup_scenario_groups_hold_the_legacy_values() {
    // base: node a (1), predicate b; values 2,20,4,40 get legacy ids 2..=5
    let base_values = [2u64, 20, 4, 40];
    let mut order: Vec<u64> = (0..4).collect();
    order.sort_by_key(|&i| base_values[i as usize]);
    let sorted: Vec<u64> = order.iter().map(|i| i + 2).collect();
    let own0 = assign_value_ids(&sorted, 0, 1);
    let composed0 = mapping_from_pairs(&own0);
    let base_objects = remap_adjacency_groups(&vec![false, false, false, true], &vec![2, 3, 4, 5], &composed0);
    let mut decoded_base: Vec<u64> = Vec::new();
    for new_id in &base_objects {
        let rank = (new_id - 2) as usize;
        decoded_base.push(base_values[order[rank] as usize]);
    }
    assert_eq!(decoded_base, vec![2, 4, 20, 40]);

    // child: values 1,10,3,30,5,50 get legacy ids 6..=11 (no new nodes)
    let off1 = child_offset(0, 1, 4);
    let child_values = [1u64, 10, 3, 30, 5, 50];
    let mut corder: Vec<u64> = (0..6).collect();
    corder.sort_by_key(|&i| child_values[i as usize]);
    let csorted: Vec<u64> = corder.iter().map(|i| i + off1 + 1).collect();
    let own1 = assign_value_ids(&csorted, off1, 0);
    let mut composed1 = composed0.clone();
    extend_mapping(&mut composed1, &own1);
    let child_objects = remap_adjacency_groups(&vec![false, false, false, false, false, true], &vec![6, 7, 8, 9, 10, 11], &composed1);
    let mut decoded_child: Vec<u64> = Vec::new();
    for new_id in &child_objects {
        let rank = (new_id - off1 - 1) as usize;
        decoded_child.push(child_values[corder[rank] as usize]);
    }
    assert_eq!(decoded_child, vec![1, 3, 5, 10, 30, 50]);
    let mut all = decoded_base.clone();
    all.extend(decoded_child);
    assert_eq!(all, vec![2, 4, 20, 40, 1, 3, 5, 10, 30, 50]);
}

#[test]
fn idmap_entries_follow_the_mapping() {
    let m = mapping_from_pairs(&vec![(11, 13), (13, 11)]);
    // offset 10: entry e stands for e + 11
    assert_eq!(remap_node_value_idmap(&vec![0, 2, 1], 10, &m), Some(vec![2, 0, 1]));
}

#[test]
fn idmap_entry_below_the_offset_is_refused() {
    let m = mapping_from_pairs(&vec![(11, 3)]);
    assert_eq!(remap_node_value_idmap(&vec![0], 10, &m), None);
}

#[test]
fn width_fits_the_largest_identifier() {
    assert_eq!(required_width(&vec![]), 1);
    assert_eq!(required_width(&vec![0, 1]), 1);
    assert_eq!(required_width(&vec![3, 2]), 2);
    assert_eq!(required_width(&vec![4]), 3);
    assert_eq!(required_width(&vec![255, 17]), 8);
    assert_eq!(required_width(&vec![256]), 9);
    assert_eq!(required_width(&vec![u64::MAX]), 64);
}

#[test]
fn layer_step_composes_and_threads_the_offset() {
    // base: 1 node, values 2..=5 in sorted order 3, 5, 2, 4
    let mut m = HashMap::new();
    let off1 = compose_layer(&mut m, 0, &vec![3, 5, 2, 4], 1);
    assert_eq!(off1, 5);
    assert_eq!(m, mapping_from_pairs(&assign_value_ids(&vec![3, 5, 2, 4], 0, 1)));
    // child: 1 node, values 7..=8 in sorted order 8, 7
    let off2 = compose_layer(&mut m, off1, &vec![8, 7], 1);
    assert_eq!(off2, 8);
    assert_eq!(lookup(&m, 3), 2);
    assert_eq!(lookup(&m, 8), 7);
    assert_eq!(lookup(&m, 7), 8);
    assert_eq!(lookup(&m, 6), 6);
}
