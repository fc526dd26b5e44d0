use vstd::prelude::*;

verus! {

/// The names of the files that make up a layer.
pub struct Filenames {
    pub node_dictionary_blocks: &'static str,
    pub node_dictionary_offsets: &'static str,

    pub predicate_dictionary_blocks: &'static str,
    pub predicate_dictionary_offsets: &'static str,

    pub value_dictionary_types_present: &'static str,
    pub value_dictionary_type_offsets: &'static str,
    pub value_dictionary_blocks: &'static str,
    pub value_dictionary_offsets: &'static str,

    pub node_value_idmap_bits: &'static str,
    pub node_value_idmap_bit_index_blocks: &'static str,
    pub node_value_idmap_bit_index_sblocks: &'static str,

    pub predicate_idmap_bits: &'static str,
    pub predicate_idmap_bit_index_blocks: &'static str,
    pub predicate_idmap_bit_index_sblocks: &'static str,

    pub base_subjects: &'static str,
    pub base_objects: &'static str,

    pub base_s_p_adjacency_list_nums: &'static str,
    pub base_s_p_adjacency_list_bits: &'static str,
    pub base_s_p_adjacency_list_bit_index_blocks: &'static str,
    pub base_s_p_adjacency_list_bit_index_sblocks: &'static str,

    pub base_sp_o_adjacency_list_nums: &'static str,
    pub base_sp_o_adjacency_list_bits: &'static str,
    pub base_sp_o_adjacency_list_bit_index_blocks: &'static str,
    pub base_sp_o_adjacency_list_bit_index_sblocks: &'static str,

    pub base_o_ps_adjacency_list_nums: &'static str,
    pub base_o_ps_adjacency_list_bits: &'static str,
    pub base_o_ps_adjacency_list_bit_index_blocks: &'static str,
    pub base_o_ps_adjacency_list_bit_index_sblocks: &'static str,

    pub pos_subjects: &'static str,
    pub pos_objects: &'static str,

    pub pos_s_p_adjacency_list_nums: &'static str,
    pub pos_s_p_adjacency_list_bits: &'static str,
    pub pos_s_p_adjacency_list_bit_index_blocks: &'static str,
    pub pos_s_p_adjacency_list_bit_index_sblocks: &'static str,

    pub pos_sp_o_adjacency_list_nums: &'static str,
    pub pos_sp_o_adjacency_list_bits: &'static str,
    pub pos_sp_o_adjacency_list_bit_index_blocks: &'static str,
    pub pos_sp_o_adjacency_list_bit_index_sblocks: &'static str,

    pub pos_o_ps_adjacency_list_nums: &'static str,
    pub pos_o_ps_adjacency_list_bits: &'static str,
    pub pos_o_ps_adjacency_list_bit_index_blocks: &'static str,
    pub pos_o_ps_adjacency_list_bit_index_sblocks: &'static str,

    pub neg_subjects: &'static str,
    pub neg_objects: &'static str,

    pub neg_s_p_adjacency_list_nums: &'static str,
    pub neg_s_p_adjacency_list_bits: &'static str,
    pub neg_s_p_adjacency_list_bit_index_blocks: &'static str,
    pub neg_s_p_adjacency_list_bit_index_sblocks: &'static str,

    pub neg_sp_o_adjacency_list_nums: &'static str,
    pub neg_sp_o_adjacency_list_bits: &'static str,
    pub neg_sp_o_adjacency_list_bit_index_blocks: &'static str,
    pub neg_sp_o_adjacency_list_bit_index_sblocks: &'static str,

    pub neg_o_ps_adjacency_list_nums: &'static str,
    pub neg_o_ps_adjacency_list_bits: &'static str,
    pub neg_o_ps_adjacency_list_bit_index_blocks: &'static str,
    pub neg_o_ps_adjacency_list_bit_index_sblocks: &'static str,

    pub base_predicate_wavelet_tree_bits: &'static str,
    pub base_predicate_wavelet_tree_bit_index_blocks: &'static str,
    pub base_predicate_wavelet_tree_bit_index_sblocks: &'static str,

    pub pos_predicate_wavelet_tree_bits: &'static str,
    pub pos_predicate_wavelet_tree_bit_index_blocks: &'static str,
    pub pos_predicate_wavelet_tree_bit_index_sblocks: &'static str,

    pub neg_predicate_wavelet_tree_bits: &'static str,
    pub neg_predicate_wavelet_tree_bit_index_blocks: &'static str,
    pub neg_predicate_wavelet_tree_bit_index_sblocks: &'static str,

    pub parent: &'static str,
    pub rollup: &'static str,
}

/// The file names of the directory-based layer format.
pub fn v10_filenames() -> (r: Filenames)
    ensures
        r.node_dictionary_blocks@ == "node_dictionary_blocks.pfc"@,
        r.node_dictionary_offsets@ == "node_dictionary_offsets.logarray"@,
        r.predicate_dictionary_blocks@ == "predicate_dictionary_blocks.pfc"@,
        r.predicate_dictionary_offsets@ == "predicate_dictionary_offsets.logarray"@,
        r.value_dictionary_types_present@ == "value_dictionary_types.logarray"@,
        r.value_dictionary_type_offsets@ == "value_dictionary_type_offsets.logarray"@,
        r.value_dictionary_blocks@ == "value_dictionary_blocks.pfc"@,
        r.value_dictionary_offsets@ == "value_dictionary_offsets.logarray"@,
        r.node_value_idmap_bits@ == "node_value_idmap_bits.bitarray"@,
        r.node_value_idmap_bit_index_blocks@ == "node_value_idmap_bit_index_blocks.bitarray"@,
        r.node_value_idmap_bit_index_sblocks@ == "node_value_idmap_bit_index_sblocks.bitarray"@,
        r.predicate_idmap_bits@ == "predicate_idmap_bits.bitarray"@,
        r.predicate_idmap_bit_index_blocks@ == "predicate_idmap_bit_index_blocks.bitarray"@,
        r.predicate_idmap_bit_index_sblocks@ == "predicate_idmap_bit_index_sblocks.bitarray"@,
        r.base_subjects@ == "base_subjects.logarray"@,
        r.base_objects@ == "base_objects.logarray"@,
        r.base_s_p_adjacency_list_nums@ == "base_s_p_adjacency_list_nums.logarray"@,
        r.base_s_p_adjacency_list_bits@ == "base_s_p_adjacency_list_bits.bitarray"@,
        r.base_s_p_adjacency_list_bit_index_blocks@ == "base_s_p_adjacency_list_bit_index_blocks.logarray"@,
        r.base_s_p_adjacency_list_bit_index_sblocks@ == "base_s_p_adjacency_list_bit_index_sblocks.logarray"@,
        r.base_sp_o_adjacency_list_nums@ == "base_sp_o_adjacency_list_nums.logarray"@,
        r.base_sp_o_adjacency_list_bits@ == "base_sp_o_adjacency_list_bits.bitarray"@,
        r.base_sp_o_adjacency_list_bit_index_blocks@ == "base_sp_o_adjacency_list_bit_index_blocks.logarray"@,
        r.base_sp_o_adjacency_list_bit_index_sblocks@ == "base_sp_o_adjacency_list_bit_index_sblocks.logarray"@,
        r.base_o_ps_adjacency_list_nums@ == "base_o_ps_adjacency_list_nums.logarray"@,
        r.base_o_ps_adjacency_list_bits@ == "base_o_ps_adjacency_list_bits.bitarray"@,
        r.base_o_ps_adjacency_list_bit_index_blocks@ == "base_o_ps_adjacency_list_bit_index_blocks.logarray"@,
        r.base_o_ps_adjacency_list_bit_index_sblocks@ == "base_o_ps_adjacency_list_bit_index_sblocks.logarray"@,
        r.pos_subjects@ == "child_pos_subjects.logarray"@,
        r.pos_objects@ == "child_pos_objects.logarray"@,
        r.pos_s_p_adjacency_list_nums@ == "pos_s_p_adjacency_list_nums.logarray"@,
        r.pos_s_p_adjacency_list_bits@ == "pos_s_p_adjacency_list_bits.bitarray"@,
        r.pos_s_p_adjacency_list_bit_index_blocks@ == "pos_s_p_adjacency_list_bit_index_blocks.logarray"@,
        r.pos_s_p_adjacency_list_bit_index_sblocks@ == "pos_s_p_adjacency_list_bit_index_sblocks.logarray"@,
        r.pos_sp_o_adjacency_list_nums@ == "pos_sp_o_adjacency_list_nums.logarray"@,
        r.pos_sp_o_adjacency_list_bits@ == "pos_sp_o_adjacency_list_bits.bitarray"@,
        r.pos_sp_o_adjacency_list_bit_index_blocks@ == "pos_sp_o_adjacency_list_bit_index_blocks.logarray"@,
        r.pos_sp_o_adjacency_list_bit_index_sblocks@ == "pos_sp_o_adjacency_list_bit_index_sblocks.logarray"@,
        r.pos_o_ps_adjacency_list_nums@ == "pos_o_ps_adjacency_list_nums.logarray"@,
        r.pos_o_ps_adjacency_list_bits@ == "pos_o_ps_adjacency_list_bits.bitarray"@,
        r.pos_o_ps_adjacency_list_bit_index_blocks@ == "pos_o_ps_adjacency_list_bit_index_blocks.logarray"@,
        r.pos_o_ps_adjacency_list_bit_index_sblocks@ == "pos_o_ps_adjacency_list_bit_index_sblocks.logarray"@,
        r.neg_subjects@ == "child_neg_subjects.logarray"@,
        r.neg_objects@ == "child_neg_objects.logarray"@,
        r.neg_s_p_adjacency_list_nums@ == "neg_s_p_adjacency_list_nums.logarray"@,
        r.neg_s_p_adjacency_list_bits@ == "neg_s_p_adjacency_list_bits.bitarray"@,
        r.neg_s_p_adjacency_list_bit_index_blocks@ == "neg_s_p_adjacency_list_bit_index_blocks.logarray"@,
        r.neg_s_p_adjacency_list_bit_index_sblocks@ == "neg_s_p_adjacency_list_bit_index_sblocks.logarray"@,
        r.neg_sp_o_adjacency_list_nums@ == "neg_sp_o_adjacency_list_nums.logarray"@,
        r.neg_sp_o_adjacency_list_bits@ == "neg_sp_o_adjacency_list_bits.bitarray"@,
        r.neg_sp_o_adjacency_list_bit_index_blocks@ == "neg_sp_o_adjacency_list_bit_index_blocks.logarray"@,
        r.neg_sp_o_adjacency_list_bit_index_sblocks@ == "neg_sp_o_adjacency_list_bit_index_sblocks.logarray"@,
        r.neg_o_ps_adjacency_list_nums@ == "neg_o_ps_adjacency_list_nums.logarray"@,
        r.neg_o_ps_adjacency_list_bits@ == "neg_o_ps_adjacency_list_bits.bitarray"@,
        r.neg_o_ps_adjacency_list_bit_index_blocks@ == "neg_o_ps_adjacency_list_bit_index_blocks.logarray"@,
        r.neg_o_ps_adjacency_list_bit_index_sblocks@ == "neg_o_ps_adjacency_list_bit_index_sblocks.logarray"@,
        r.base_predicate_wavelet_tree_bits@ == "base_predicate_wavelet_tree_bits.bitarray"@,
        r.base_predicate_wavelet_tree_bit_index_blocks@ == "base_predicate_wavelet_tree_bit_index_blocks.logarray"@,
        r.base_predicate_wavelet_tree_bit_index_sblocks@ == "base_predicate_wavelet_tree_bit_index_sblocks.logarray"@,
        r.pos_predicate_wavelet_tree_bits@ == "pos_predicate_wavelet_tree_bits.bitarray"@,
        r.pos_predicate_wavelet_tree_bit_index_blocks@ == "pos_predicate_wavelet_tree_bit_index_blocks.logarray"@,
        r.pos_predicate_wavelet_tree_bit_index_sblocks@ == "pos_predicate_wavelet_tree_bit_index_sblocks.logarray"@,
        r.neg_predicate_wavelet_tree_bits@ == "neg_predicate_wavelet_tree_bits.bitarray"@,
        r.neg_predicate_wavelet_tree_bit_index_blocks@ == "neg_predicate_wavelet_tree_bit_index_blocks.logarray"@,
        r.neg_predicate_wavelet_tree_bit_index_sblocks@ == "neg_predicate_wavelet_tree_bit_index_sblocks.logarray"@,
        r.parent@ == "parent.hex"@,
        r.rollup@ == "rollup.hex"@,
{
    Filenames {
        node_dictionary_blocks: "node_dictionary_blocks.pfc",
        node_dictionary_offsets: "node_dictionary_offsets.logarray",

        predicate_dictionary_blocks: "predicate_dictionary_blocks.pfc",
        predicate_dictionary_offsets: "predicate_dictionary_offsets.logarray",

        value_dictionary_types_present: "value_dictionary_types.logarray",
        value_dictionary_type_offsets: "value_dictionary_type_offsets.logarray",
        value_dictionary_blocks: "value_dictionary_blocks.pfc",
        value_dictionary_offsets: "value_dictionary_offsets.logarray",

        node_value_idmap_bits: "node_value_idmap_bits.bitarray",
        node_value_idmap_bit_index_blocks: "node_value_idmap_bit_index_blocks.bitarray",
        node_value_idmap_bit_index_sblocks: "node_value_idmap_bit_index_sblocks.bitarray",

        predicate_idmap_bits: "predicate_idmap_bits.bitarray",
        predicate_idmap_bit_index_blocks: "predicate_idmap_bit_index_blocks.bitarray",
        predicate_idmap_bit_index_sblocks: "predicate_idmap_bit_index_sblocks.bitarray",

        base_subjects: "base_subjects.logarray",
        base_objects: "base_objects.logarray",

        base_s_p_adjacency_list_nums: "base_s_p_adjacency_list_nums.logarray",
        base_s_p_adjacency_list_bits: "base_s_p_adjacency_list_bits.bitarray",
        base_s_p_adjacency_list_bit_index_blocks: "base_s_p_adjacency_list_bit_index_blocks.logarray",
        base_s_p_adjacency_list_bit_index_sblocks: "base_s_p_adjacency_list_bit_index_sblocks.logarray",

        base_sp_o_adjacency_list_nums: "base_sp_o_adjacency_list_nums.logarray",
        base_sp_o_adjacency_list_bits: "base_sp_o_adjacency_list_bits.bitarray",
        base_sp_o_adjacency_list_bit_index_blocks: "base_sp_o_adjacency_list_bit_index_blocks.logarray",
        base_sp_o_adjacency_list_bit_index_sblocks: "base_sp_o_adjacency_list_bit_index_sblocks.logarray",

        base_o_ps_adjacency_list_nums: "base_o_ps_adjacency_list_nums.logarray",
        base_o_ps_adjacency_list_bits: "base_o_ps_adjacency_list_bits.bitarray",
        base_o_ps_adjacency_list_bit_index_blocks: "base_o_ps_adjacency_list_bit_index_blocks.logarray",
        base_o_ps_adjacency_list_bit_index_sblocks: "base_o_ps_adjacency_list_bit_index_sblocks.logarray",

        pos_subjects: "child_pos_subjects.logarray",
        pos_objects: "child_pos_objects.logarray",

        pos_s_p_adjacency_list_nums: "pos_s_p_adjacency_list_nums.logarray",
        pos_s_p_adjacency_list_bits: "pos_s_p_adjacency_list_bits.bitarray",
        pos_s_p_adjacency_list_bit_index_blocks: "pos_s_p_adjacency_list_bit_index_blocks.logarray",
        pos_s_p_adjacency_list_bit_index_sblocks: "pos_s_p_adjacency_list_bit_index_sblocks.logarray",

        pos_sp_o_adjacency_list_nums: "pos_sp_o_adjacency_list_nums.logarray",
        pos_sp_o_adjacency_list_bits: "pos_sp_o_adjacency_list_bits.bitarray",
        pos_sp_o_adjacency_list_bit_index_blocks: "pos_sp_o_adjacency_list_bit_index_blocks.logarray",
        pos_sp_o_adjacency_list_bit_index_sblocks: "pos_sp_o_adjacency_list_bit_index_sblocks.logarray",

        pos_o_ps_adjacency_list_nums: "pos_o_ps_adjacency_list_nums.logarray",
        pos_o_ps_adjacency_list_bits: "pos_o_ps_adjacency_list_bits.bitarray",
        pos_o_ps_adjacency_list_bit_index_blocks: "pos_o_ps_adjacency_list_bit_index_blocks.logarray",
        pos_o_ps_adjacency_list_bit_index_sblocks: "pos_o_ps_adjacency_list_bit_index_sblocks.logarray",

        neg_subjects: "child_neg_subjects.logarray",
        neg_objects: "child_neg_objects.logarray",

        neg_s_p_adjacency_list_nums: "neg_s_p_adjacency_list_nums.logarray",
        neg_s_p_adjacency_list_bits: "neg_s_p_adjacency_list_bits.bitarray",
        neg_s_p_adjacency_list_bit_index_blocks: "neg_s_p_adjacency_list_bit_index_blocks.logarray",
        neg_s_p_adjacency_list_bit_index_sblocks: "neg_s_p_adjacency_list_bit_index_sblocks.logarray",

        neg_sp_o_adjacency_list_nums: "neg_sp_o_adjacency_list_nums.logarray",
        neg_sp_o_adjacency_list_bits: "neg_sp_o_adjacency_list_bits.bitarray",
        neg_sp_o_adjacency_list_bit_index_blocks: "neg_sp_o_adjacency_list_bit_index_blocks.logarray",
        neg_sp_o_adjacency_list_bit_index_sblocks: "neg_sp_o_adjacency_list_bit_index_sblocks.logarray",

        neg_o_ps_adjacency_list_nums: "neg_o_ps_adjacency_list_nums.logarray",
        neg_o_ps_adjacency_list_bits: "neg_o_ps_adjacency_list_bits.bitarray",
        neg_o_ps_adjacency_list_bit_index_blocks: "neg_o_ps_adjacency_list_bit_index_blocks.logarray",
        neg_o_ps_adjacency_list_bit_index_sblocks: "neg_o_ps_adjacency_list_bit_index_sblocks.logarray",

        base_predicate_wavelet_tree_bits: "base_predicate_wavelet_tree_bits.bitarray",
        base_predicate_wavelet_tree_bit_index_blocks: "base_predicate_wavelet_tree_bit_index_blocks.logarray",
        base_predicate_wavelet_tree_bit_index_sblocks: "base_predicate_wavelet_tree_bit_index_sblocks.logarray",

        pos_predicate_wavelet_tree_bits: "pos_predicate_wavelet_tree_bits.bitarray",
        pos_predicate_wavelet_tree_bit_index_blocks: "pos_predicate_wavelet_tree_bit_index_blocks.logarray",
        pos_predicate_wavelet_tree_bit_index_sblocks: "pos_predicate_wavelet_tree_bit_index_sblocks.logarray",

        neg_predicate_wavelet_tree_bits: "neg_predicate_wavelet_tree_bits.bitarray",
        neg_predicate_wavelet_tree_bit_index_blocks: "neg_predicate_wavelet_tree_bit_index_blocks.logarray",
        neg_predicate_wavelet_tree_bit_index_sblocks: "neg_predicate_wavelet_tree_bit_index_sblocks.logarray",

        parent: "parent.hex",
        rollup: "rollup.hex",

    }
}

/// The file names of the archive-based layer format.
pub fn v11_filenames() -> (r: Filenames)
    ensures
        r.node_dictionary_blocks@ == "node_dictionary_blocks.tfc"@,
        r.node_dictionary_offsets@ == "node_dictionary_offsets.logarray"@,
        r.predicate_dictionary_blocks@ == "predicate_dictionary_blocks.tfc"@,
        r.predicate_dictionary_offsets@ == "predicate_dictionary_offsets.logarray"@,
        r.value_dictionary_types_present@ == "value_dictionary_types.logarray"@,
        r.value_dictionary_type_offsets@ == "value_dictionary_type_offsets.logarray"@,
        r.value_dictionary_blocks@ == "value_dictionary_blocks.tfc"@,
        r.value_dictionary_offsets@ == "value_dictionary_offsets.logarray"@,
        r.node_value_idmap_bits@ == "node_value_idmap_bits.bitarray"@,
        r.node_value_idmap_bit_index_blocks@ == "node_value_idmap_bit_index_blocks.bitarray"@,
        r.node_value_idmap_bit_index_sblocks@ == "node_value_idmap_bit_index_sblocks.bitarray"@,
        r.predicate_idmap_bits@ == "predicate_idmap_bits.bitarray"@,
        r.predicate_idmap_bit_index_blocks@ == "predicate_idmap_bit_index_blocks.bitarray"@,
        r.predicate_idmap_bit_index_sblocks@ == "predicate_idmap_bit_index_sblocks.bitarray"@,
        r.base_subjects@ == "base_subjects.logarray"@,
        r.base_objects@ == "base_objects.logarray"@,
        r.base_s_p_adjacency_list_nums@ == "base_s_p_adjacency_list_nums.logarray"@,
        r.base_s_p_adjacency_list_bits@ == "base_s_p_adjacency_list_bits.bitarray"@,
        r.base_s_p_adjacency_list_bit_index_blocks@ == "base_s_p_adjacency_list_bit_index_blocks.logarray"@,
        r.base_s_p_adjacency_list_bit_index_sblocks@ == "base_s_p_adjacency_list_bit_index_sblocks.logarray"@,
        r.base_sp_o_adjacency_list_nums@ == "base_sp_o_adjacency_list_nums.logarray"@,
        r.base_sp_o_adjacency_list_bits@ == "base_sp_o_adjacency_list_bits.bitarray"@,
        r.base_sp_o_adjacency_list_bit_index_blocks@ == "base_sp_o_adjacency_list_bit_index_blocks.logarray"@,
        r.base_sp_o_adjacency_list_bit_index_sblocks@ == "base_sp_o_adjacency_list_bit_index_sblocks.logarray"@,
        r.base_o_ps_adjacency_list_nums@ == "base_o_ps_adjacency_list_nums.logarray"@,
        r.base_o_ps_adjacency_list_bits@ == "base_o_ps_adjacency_list_bits.bitarray"@,
        r.base_o_ps_adjacency_list_bit_index_blocks@ == "base_o_ps_adjacency_list_bit_index_blocks.logarray"@,
        r.base_o_ps_adjacency_list_bit_index_sblocks@ == "base_o_ps_adjacency_list_bit_index_sblocks.logarray"@,
        r.pos_subjects@ == "child_pos_subjects.logarray"@,
        r.pos_objects@ == "child_pos_objects.logarray"@,
        r.pos_s_p_adjacency_list_nums@ == "pos_s_p_adjacency_list_nums.logarray"@,
        r.pos_s_p_adjacency_list_bits@ == "pos_s_p_adjacency_list_bits.bitarray"@,
        r.pos_s_p_adjacency_list_bit_index_blocks@ == "pos_s_p_adjacency_list_bit_index_blocks.logarray"@,
        r.pos_s_p_adjacency_list_bit_index_sblocks@ == "pos_s_p_adjacency_list_bit_index_sblocks.logarray"@,
        r.pos_sp_o_adjacency_list_nums@ == "pos_sp_o_adjacency_list_nums.logarray"@,
        r.pos_sp_o_adjacency_list_bits@ == "pos_sp_o_adjacency_list_bits.bitarray"@,
        r.pos_sp_o_adjacency_list_bit_index_blocks@ == "pos_sp_o_adjacency_list_bit_index_blocks.logarray"@,
        r.pos_sp_o_adjacency_list_bit_index_sblocks@ == "pos_sp_o_adjacency_list_bit_index_sblocks.logarray"@,
        r.pos_o_ps_adjacency_list_nums@ == "pos_o_ps_adjacency_list_nums.logarray"@,
        r.pos_o_ps_adjacency_list_bits@ == "pos_o_ps_adjacency_list_bits.bitarray"@,
        r.pos_o_ps_adjacency_list_bit_index_blocks@ == "pos_o_ps_adjacency_list_bit_index_blocks.logarray"@,
        r.pos_o_ps_adjacency_list_bit_index_sblocks@ == "pos_o_ps_adjacency_list_bit_index_sblocks.logarray"@,
        r.neg_subjects@ == "child_neg_subjects.logarray"@,
        r.neg_objects@ == "child_neg_objects.logarray"@,
        r.neg_s_p_adjacency_list_nums@ == "neg_s_p_adjacency_list_nums.logarray"@,
        r.neg_s_p_adjacency_list_bits@ == "neg_s_p_adjacency_list_bits.bitarray"@,
        r.neg_s_p_adjacency_list_bit_index_blocks@ == "neg_s_p_adjacency_list_bit_index_blocks.logarray"@,
        r.neg_s_p_adjacency_list_bit_index_sblocks@ == "neg_s_p_adjacency_list_bit_index_sblocks.logarray"@,
        r.neg_sp_o_adjacency_list_nums@ == "neg_sp_o_adjacency_list_nums.logarray"@,
        r.neg_sp_o_adjacency_list_bits@ == "neg_sp_o_adjacency_list_bits.bitarray"@,
        r.neg_sp_o_adjacency_list_bit_index_blocks@ == "neg_sp_o_adjacency_list_bit_index_blocks.logarray"@,
        r.neg_sp_o_adjacency_list_bit_index_sblocks@ == "neg_sp_o_adjacency_list_bit_index_sblocks.logarray"@,
        r.neg_o_ps_adjacency_list_nums@ == "neg_o_ps_adjacency_list_nums.logarray"@,
        r.neg_o_ps_adjacency_list_bits@ == "neg_o_ps_adjacency_list_bits.bitarray"@,
        r.neg_o_ps_adjacency_list_bit_index_blocks@ == "neg_o_ps_adjacency_list_bit_index_blocks.logarray"@,
        r.neg_o_ps_adjacency_list_bit_index_sblocks@ == "neg_o_ps_adjacency_list_bit_index_sblocks.logarray"@,
        r.base_predicate_wavelet_tree_bits@ == "base_predicate_wavelet_tree_bits.bitarray"@,
        r.base_predicate_wavelet_tree_bit_index_blocks@ == "base_predicate_wavelet_tree_bit_index_blocks.logarray"@,
        r.base_predicate_wavelet_tree_bit_index_sblocks@ == "base_predicate_wavelet_tree_bit_index_sblocks.logarray"@,
        r.pos_predicate_wavelet_tree_bits@ == "pos_predicate_wavelet_tree_bits.bitarray"@,
        r.pos_predicate_wavelet_tree_bit_index_blocks@ == "pos_predicate_wavelet_tree_bit_index_blocks.logarray"@,
        r.pos_predicate_wavelet_tree_bit_index_sblocks@ == "pos_predicate_wavelet_tree_bit_index_sblocks.logarray"@,
        r.neg_predicate_wavelet_tree_bits@ == "neg_predicate_wavelet_tree_bits.bitarray"@,
        r.neg_predicate_wavelet_tree_bit_index_blocks@ == "neg_predicate_wavelet_tree_bit_index_blocks.logarray"@,
        r.neg_predicate_wavelet_tree_bit_index_sblocks@ == "neg_predicate_wavelet_tree_bit_index_sblocks.logarray"@,
        r.parent@ == "parent.hex"@,
        r.rollup@ == "rollup.hex"@,
{
    Filenames {
        node_dictionary_blocks: "node_dictionary_blocks.tfc",
        node_dictionary_offsets: "node_dictionary_offsets.logarray",

        predicate_dictionary_blocks: "predicate_dictionary_blocks.tfc",
        predicate_dictionary_offsets: "predicate_dictionary_offsets.logarray",

        value_dictionary_types_present: "value_dictionary_types.logarray",
        value_dictionary_type_offsets: "value_dictionary_type_offsets.logarray",
        value_dictionary_blocks: "value_dictionary_blocks.tfc",
        value_dictionary_offsets: "value_dictionary_offsets.logarray",

        node_value_idmap_bits: "node_value_idmap_bits.bitarray",
        node_value_idmap_bit_index_blocks: "node_value_idmap_bit_index_blocks.bitarray",
        node_value_idmap_bit_index_sblocks: "node_value_idmap_bit_index_sblocks.bitarray",

        predicate_idmap_bits: "predicate_idmap_bits.bitarray",
        predicate_idmap_bit_index_blocks: "predicate_idmap_bit_index_blocks.bitarray",
        predicate_idmap_bit_index_sblocks: "predicate_idmap_bit_index_sblocks.bitarray",

        base_subjects: "base_subjects.logarray",
        base_objects: "base_objects.logarray",

        base_s_p_adjacency_list_nums: "base_s_p_adjacency_list_nums.logarray",
        base_s_p_adjacency_list_bits: "base_s_p_adjacency_list_bits.bitarray",
        base_s_p_adjacency_list_bit_index_blocks: "base_s_p_adjacency_list_bit_index_blocks.logarray",
        base_s_p_adjacency_list_bit_index_sblocks: "base_s_p_adjacency_list_bit_index_sblocks.logarray",

        base_sp_o_adjacency_list_nums: "base_sp_o_adjacency_list_nums.logarray",
        base_sp_o_adjacency_list_bits: "base_sp_o_adjacency_list_bits.bitarray",
        base_sp_o_adjacency_list_bit_index_blocks: "base_sp_o_adjacency_list_bit_index_blocks.logarray",
        base_sp_o_adjacency_list_bit_index_sblocks: "base_sp_o_adjacency_list_bit_index_sblocks.logarray",

        base_o_ps_adjacency_list_nums: "base_o_ps_adjacency_list_nums.logarray",
        base_o_ps_adjacency_list_bits: "base_o_ps_adjacency_list_bits.bitarray",
        base_o_ps_adjacency_list_bit_index_blocks: "base_o_ps_adjacency_list_bit_index_blocks.logarray",
        base_o_ps_adjacency_list_bit_index_sblocks: "base_o_ps_adjacency_list_bit_index_sblocks.logarray",

        pos_subjects: "child_pos_subjects.logarray",
        pos_objects: "child_pos_objects.logarray",

        pos_s_p_adjacency_list_nums: "pos_s_p_adjacency_list_nums.logarray",
        pos_s_p_adjacency_list_bits: "pos_s_p_adjacency_list_bits.bitarray",
        pos_s_p_adjacency_list_bit_index_blocks: "pos_s_p_adjacency_list_bit_index_blocks.logarray",
        pos_s_p_adjacency_list_bit_index_sblocks: "pos_s_p_adjacency_list_bit_index_sblocks.logarray",

        pos_sp_o_adjacency_list_nums: "pos_sp_o_adjacency_list_nums.logarray",
        pos_sp_o_adjacency_list_bits: "pos_sp_o_adjacency_list_bits.bitarray",
        pos_sp_o_adjacency_list_bit_index_blocks: "pos_sp_o_adjacency_list_bit_index_blocks.logarray",
        pos_sp_o_adjacency_list_bit_index_sblocks: "pos_sp_o_adjacency_list_bit_index_sblocks.logarray",

        pos_o_ps_adjacency_list_nums: "pos_o_ps_adjacency_list_nums.logarray",
        pos_o_ps_adjacency_list_bits: "pos_o_ps_adjacency_list_bits.bitarray",
        pos_o_ps_adjacency_list_bit_index_blocks: "pos_o_ps_adjacency_list_bit_index_blocks.logarray",
        pos_o_ps_adjacency_list_bit_index_sblocks: "pos_o_ps_adjacency_list_bit_index_sblocks.logarray",

        neg_subjects: "child_neg_subjects.logarray",
        neg_objects: "child_neg_objects.logarray",

        neg_s_p_adjacency_list_nums: "neg_s_p_adjacency_list_nums.logarray",
        neg_s_p_adjacency_list_bits: "neg_s_p_adjacency_list_bits.bitarray",
        neg_s_p_adjacency_list_bit_index_blocks: "neg_s_p_adjacency_list_bit_index_blocks.logarray",
        neg_s_p_adjacency_list_bit_index_sblocks: "neg_s_p_adjacency_list_bit_index_sblocks.logarray",

        neg_sp_o_adjacency_list_nums: "neg_sp_o_adjacency_list_nums.logarray",
        neg_sp_o_adjacency_list_bits: "neg_sp_o_adjacency_list_bits.bitarray",
        neg_sp_o_adjacency_list_bit_index_blocks: "neg_sp_o_adjacency_list_bit_index_blocks.logarray",
        neg_sp_o_adjacency_list_bit_index_sblocks: "neg_sp_o_adjacency_list_bit_index_sblocks.logarray",

        neg_o_ps_adjacency_list_nums: "neg_o_ps_adjacency_list_nums.logarray",
        neg_o_ps_adjacency_list_bits: "neg_o_ps_adjacency_list_bits.bitarray",
        neg_o_ps_adjacency_list_bit_index_blocks: "neg_o_ps_adjacency_list_bit_index_blocks.logarray",
        neg_o_ps_adjacency_list_bit_index_sblocks: "neg_o_ps_adjacency_list_bit_index_sblocks.logarray",

        base_predicate_wavelet_tree_bits: "base_predicate_wavelet_tree_bits.bitarray",
        base_predicate_wavelet_tree_bit_index_blocks: "base_predicate_wavelet_tree_bit_index_blocks.logarray",
        base_predicate_wavelet_tree_bit_index_sblocks: "base_predicate_wavelet_tree_bit_index_sblocks.logarray",

        pos_predicate_wavelet_tree_bits: "pos_predicate_wavelet_tree_bits.bitarray",
        pos_predicate_wavelet_tree_bit_index_blocks: "pos_predicate_wavelet_tree_bit_index_blocks.logarray",
        pos_predicate_wavelet_tree_bit_index_sblocks: "pos_predicate_wavelet_tree_bit_index_sblocks.logarray",

        neg_predicate_wavelet_tree_bits: "neg_predicate_wavelet_tree_bits.bitarray",
        neg_predicate_wavelet_tree_bit_index_blocks: "neg_predicate_wavelet_tree_bit_index_blocks.logarray",
        neg_predicate_wavelet_tree_bit_index_sblocks: "neg_predicate_wavelet_tree_bit_index_sblocks.logarray",

        parent: "parent.hex",
        rollup: "rollup.hex",

    }
}

/// The files that a conversion copies as they are.
pub fn unchanged_files() -> (r: Vec<&'static str>)
    ensures
        r.len() == 39,
        r@[0]@ == "predicate_idmap_bits.bitarray"@,
        r@[1]@ == "predicate_idmap_bit_index_blocks.bitarray"@,
        r@[2]@ == "predicate_idmap_bit_index_sblocks.bitarray"@,
        r@[3]@ == "rollup.hex"@,
        r@[4]@ == "base_s_p_adjacency_list_nums.logarray"@,
        r@[5]@ == "base_s_p_adjacency_list_bits.bitarray"@,
        r@[6]@ == "base_s_p_adjacency_list_bit_index_blocks.logarray"@,
        r@[7]@ == "base_s_p_adjacency_list_bit_index_sblocks.logarray"@,
        r@[8]@ == "base_sp_o_adjacency_list_bits.bitarray"@,
        r@[9]@ == "base_sp_o_adjacency_list_bit_index_blocks.logarray"@,
        r@[10]@ == "base_sp_o_adjacency_list_bit_index_sblocks.logarray"@,
        r@[11]@ == "base_predicate_wavelet_tree_bits.bitarray"@,
        r@[12]@ == "base_predicate_wavelet_tree_bit_index_blocks.logarray"@,
        r@[13]@ == "base_predicate_wavelet_tree_bit_index_sblocks.logarray"@,
        r@[14]@ == "base_subjects.logarray"@,
        r@[15]@ == "base_objects.logarray"@,
        r@[16]@ == "parent.hex"@,
        r@[17]@ == "pos_s_p_adjacency_list_nums.logarray"@,
        r@[18]@ == "pos_s_p_adjacency_list_bits.bitarray"@,
        r@[19]@ == "pos_s_p_adjacency_list_bit_index_blocks.logarray"@,
        r@[20]@ == "pos_s_p_adjacency_list_bit_index_sblocks.logarray"@,
        r@[21]@ == "pos_sp_o_adjacency_list_bits.bitarray"@,
        r@[22]@ == "pos_sp_o_adjacency_list_bit_index_blocks.logarray"@,
        r@[23]@ == "pos_sp_o_adjacency_list_bit_index_sblocks.logarray"@,
        r@[24]@ == "pos_predicate_wavelet_tree_bits.bitarray"@,
        r@[25]@ == "pos_predicate_wavelet_tree_bit_index_blocks.logarray"@,
        r@[26]@ == "pos_predicate_wavelet_tree_bit_index_sblocks.logarray"@,
        r@[27]@ == "neg_s_p_adjacency_list_nums.logarray"@,
        r@[28]@ == "neg_s_p_adjacency_list_bits.bitarray"@,
        r@[29]@ == "neg_s_p_adjacency_list_bit_index_blocks.logarray"@,
        r@[30]@ == "neg_s_p_adjacency_list_bit_index_sblocks.logarray"@,
        r@[31]@ == "neg_sp_o_adjacency_list_bits.bitarray"@,
        r@[32]@ == "neg_sp_o_adjacency_list_bit_index_blocks.logarray"@,
        r@[33]@ == "neg_sp_o_adjacency_list_bit_index_sblocks.logarray"@,
        r@[34]@ == "neg_predicate_wavelet_tree_bits.bitarray"@,
        r@[35]@ == "neg_predicate_wavelet_tree_bit_index_blocks.logarray"@,
        r@[36]@ == "neg_predicate_wavelet_tree_bit_index_sblocks.logarray"@,
        r@[37]@ == "child_pos_subjects.logarray"@,
        r@[38]@ == "child_neg_subjects.logarray"@,
{
    let f = v10_filenames();
    vec![
        f.predicate_idmap_bits,
        f.predicate_idmap_bit_index_blocks,
        f.predicate_idmap_bit_index_sblocks,
        f.rollup,
        f.base_s_p_adjacency_list_nums,
        f.base_s_p_adjacency_list_bits,
        f.base_s_p_adjacency_list_bit_index_blocks,
        f.base_s_p_adjacency_list_bit_index_sblocks,
        f.base_sp_o_adjacency_list_bits,
        f.base_sp_o_adjacency_list_bit_index_blocks,
        f.base_sp_o_adjacency_list_bit_index_sblocks,
        f.base_predicate_wavelet_tree_bits,
        f.base_predicate_wavelet_tree_bit_index_blocks,
        f.base_predicate_wavelet_tree_bit_index_sblocks,
        f.base_subjects,
        f.base_objects,
        f.parent,
        f.pos_s_p_adjacency_list_nums,
        f.pos_s_p_adjacency_list_bits,
        f.pos_s_p_adjacency_list_bit_index_blocks,
        f.pos_s_p_adjacency_list_bit_index_sblocks,
        f.pos_sp_o_adjacency_list_bits,
        f.pos_sp_o_adjacency_list_bit_index_blocks,
        f.pos_sp_o_adjacency_list_bit_index_sblocks,
        f.pos_predicate_wavelet_tree_bits,
        f.pos_predicate_wavelet_tree_bit_index_blocks,
        f.pos_predicate_wavelet_tree_bit_index_sblocks,
        f.neg_s_p_adjacency_list_nums,
        f.neg_s_p_adjacency_list_bits,
        f.neg_s_p_adjacency_list_bit_index_blocks,
        f.neg_s_p_adjacency_list_bit_index_sblocks,
        f.neg_sp_o_adjacency_list_bits,
        f.neg_sp_o_adjacency_list_bit_index_blocks,
        f.neg_sp_o_adjacency_list_bit_index_sblocks,
        f.neg_predicate_wavelet_tree_bits,
        f.neg_predicate_wavelet_tree_bit_index_blocks,
        f.neg_predicate_wavelet_tree_bit_index_sblocks,
        f.pos_subjects,
        f.neg_subjects,
    ]
}

} // verus!
