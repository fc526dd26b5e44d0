use terminusdb_10_to_11::consts::{unchanged_files, v10_filenames, v11_filenames};
use std::collections::HashMap;
use terminusdb_10_to_11::layer::{
    check_destination, check_no_remap, first_layer_step, larch_file_name, next_layer_step,
    parent_map_file_name, rollup_file_name, shard_prefix, InnerLayerConversionError, LayerStep,
};
use terminusdb_10_to_11::layer_id::{name_to_string, string_to_name};
use terminusdb_10_to_11::parent_map::{decode_parent_map, encode_parent_map, persisted_pairs};

const ID: [u32; 5] = [0x0123abcd, 0xdeadbeef, 0, 0xffffffff, 0x00000010];
const NAME: &str = "0123abcddeadbeef00000000ffffffff00000010";

#[test]
fn name_is_forty_lowercase_hex_digits() {
    assert_eq!(name_to_string(ID), NAME);
}

#[test]
fn name_parses_back() {
    assert_eq!(string_to_name(NAME), Some(ID));
    assert_eq!(string_to_name("0123ABCDDEADBEEF00000000FFFFFFFF00000010"), Some(ID));
}

#[test]
fn bad_names_are_refused() {
    assert_eq!(string_to_name(""), None);
    assert_eq!(string_to_name("0123abcddeadbeef00000000ffffffff0000001"), None);
    assert_eq!(string_to_name("0123abcddeadbeef00000000ffffffff000000100"), None);
    assert_eq!(string_to_name("0123abcddeadbeef00000000ffffffff0000001g"), None);
}

#[test]
fn file_names_of_a_layer() {
    assert_eq!(shard_prefix(ID), "012");
    assert_eq!(parent_map_file_name(ID), format!("{NAME}.postcard"));
    assert_eq!(larch_file_name(ID), format!("{NAME}.larch"));
    assert_eq!(rollup_file_name(ID), format!("{NAME}.rollup.hex"));
}

#[test]
fn precise_steps_end_with_the_parent_map() {
    let mut steps = vec![first_layer_step(false)];
    while *steps.last().unwrap() != LayerStep::Done {
        steps.push(next_layer_step(*steps.last().unwrap(), false));
    }
    assert_eq!(
        steps,
        vec![
            LayerStep::LoadParentMap,
            LayerStep::ConvertDictionaries,
            LayerStep::ConvertTriples,
            LayerStep::CopyUnchangedFiles,
            LayerStep::RebuildIndexes,
            LayerStep::Finalize,
            LayerStep::WriteParentMap,
            LayerStep::Done,
        ]
    );
}

#[test]
fn naive_steps_have_no_mapping() {
    let mut steps = vec![first_layer_step(true)];
    while *steps.last().unwrap() != LayerStep::Done {
        steps.push(next_layer_step(*steps.last().unwrap(), true));
    }
    assert_eq!(
        steps,
        vec![
            LayerStep::ConvertDictionaries,
            LayerStep::CopyUnchangedFiles,
            LayerStep::CopyIndexes,
            LayerStep::RebuildIndexes,
            LayerStep::Finalize,
            LayerStep::Done,
        ]
    );
}

#[test]
fn layer_checks() {
    assert!(check_destination(false).is_ok());
    assert!(matches!(check_destination(true), Err(InnerLayerConversionError::LayerAlreadyConverted)));
    assert!(check_no_remap(false).is_ok());
    assert!(matches!(check_no_remap(true), Err(InnerLayerConversionError::NodeValueRemapExists)));
}

#[test]
fn parent_map_pairs_are_sorted() {
    let mut m = HashMap::new();
    m.insert(30u64, 1u64);
    m.insert(10, 3);
    m.insert(20, 2);
    assert_eq!(persisted_pairs(&m), vec![(10, 3), (20, 2), (30, 1)]);
}

#[test]
fn parent_map_round_trip() {
    let mut m = HashMap::new();
    m.insert(7u64, 9u64);
    m.insert(300, 5);
    let bytes = encode_parent_map(&m, 1000).unwrap();
    // postcard: varint offset, varint length, then varint pairs in key order
    assert_eq!(bytes, vec![0xe8, 0x07, 2, 7, 9, 0xac, 0x02, 5]);
    let (back, offset) = decode_parent_map(&bytes).unwrap();
    assert_eq!(offset, 1000);
    assert_eq!(back, m);
}

#[test]
fn parent_map_garbage_is_refused() {
    assert!(decode_parent_map(&[0xff]).is_err());
}

#[test]
fn file_name_tables() {
    assert_eq!(v10_filenames().node_dictionary_blocks, "node_dictionary_blocks.pfc");
    assert_eq!(v11_filenames().node_dictionary_blocks, "node_dictionary_blocks.tfc");
    assert_eq!(v10_filenames().parent, "parent.hex");
    let files = unchanged_files();
    assert_eq!(files.len(), 39);
    assert_eq!(files[0], v10_filenames().predicate_idmap_bits);
    assert!(!files.contains(&v10_filenames().base_sp_o_adjacency_list_nums));
}
