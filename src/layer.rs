use vstd::prelude::*;
use crate::layer_id::{LayerId, name_bytes, name_to_bytes, name_to_string};
use crate::text::{ascii_chars, ascii_to_string, copy_range};
use crate::values::DataConversionError;
use vstd::string::StringExecFns;

verus! {

#[verifier::external_type_specification]
#[verifier::external_body]
pub struct ExIoError(std::io::Error);

/// Failure to convert a layer's dictionaries.
#[derive(Debug)]
pub enum DictionaryConversionError {
    /// The value with this legacy identifier did not convert.
    DataConversion { id: u64, error: DataConversionError },
    Io(std::io::Error),
}

/// Failure to read a parent's persisted map.
#[derive(Debug)]
pub enum InnerParentMapError {
    ParentMapNotFound,
    Io(std::io::Error),
    Deserialization(postcard::Error),
}

/// Failure to find the mapping and offset that a layer inherits.
#[derive(Debug)]
pub enum ParentMapError {
    /// The layer's parent could not be looked up.
    Io(std::io::Error),
    Other { parent: LayerId, source: InnerParentMapError },
}

impl ParentMapError {
    pub fn new(parent: LayerId, source: InnerParentMapError) -> (r: ParentMapError)
        ensures
            r == (ParentMapError::Other { parent, source }),
    {
        ParentMapError::Other { parent, source }
    }
}

/// Why the conversion of a layer failed.
#[derive(Debug)]
pub enum InnerLayerConversionError {
    DictionaryConversion(DictionaryConversionError),
    LayerAlreadyConverted,
    FileCopyError { name: String, source: std::io::Error },
    ParentMapError(ParentMapError),
    TripleConversionError(std::io::Error),
    RebuildIndexError(std::io::Error),
    FinalizationError(std::io::Error),
    RollupFileCopyError(std::io::Error),
    ParentMapWriteError(std::io::Error),
    Io(std::io::Error),
    NodeValueRemapExists,
}

/// The failure of a layer's conversion, with the layer.
#[derive(Debug)]
pub struct LayerConversionError {
    pub layer: LayerId,
    pub source: InnerLayerConversionError,
}

impl LayerConversionError {
    pub fn new(layer: LayerId, source: InnerLayerConversionError) -> (r: LayerConversionError)
        ensures
            r.layer == layer,
            r.source == source,
    {
        LayerConversionError { layer, source }
    }
}

/// Failure of a whole store's conversion.
#[derive(Debug)]
pub enum StoreConversionError {
    LayerConversion(LayerConversionError),
    LayerConversionsFailed(Vec<LayerId>),
    Io(std::io::Error),
}

/// The steps of a layer's conversion after its checks.
#[derive(Debug, Clone, Copy, PartialEq, Eq, Structural)]
pub enum LayerStep {
    LoadParentMap,
    ConvertDictionaries,
    ConvertTriples,
    CopyUnchangedFiles,
    CopyIndexes,
    RebuildIndexes,
    Finalize,
    WriteParentMap,
    Done,
}

/// The steps in their order. A precise conversion loads the inherited
/// mapping first and persists the composed one last, after the layer is
/// finalized; a naive one has no mapping and copies the forward indexes as
/// they are. Both rebuild the reverse indexes before finalizing.
pub open spec fn layer_steps(naive: bool) -> Seq<LayerStep> {
    if naive {
        seq![
            LayerStep::ConvertDictionaries,
            LayerStep::CopyUnchangedFiles,
            LayerStep::CopyIndexes,
            LayerStep::RebuildIndexes,
            LayerStep::Finalize,
            LayerStep::Done,
        ]
    } else {
        seq![
            LayerStep::LoadParentMap,
            LayerStep::ConvertDictionaries,
            LayerStep::ConvertTriples,
            LayerStep::CopyUnchangedFiles,
            LayerStep::RebuildIndexes,
            LayerStep::Finalize,
            LayerStep::WriteParentMap,
            LayerStep::Done,
        ]
    }
}

/// The first step of a layer's conversion.
pub fn first_layer_step(naive: bool) -> (r: LayerStep)
    ensures
        r == layer_steps(naive)[0],
{
    if naive {
        LayerStep::ConvertDictionaries
    } else {
        LayerStep::LoadParentMap
    }
}

/// The step after a successful one; `Done` stays `Done`, and a step that
/// the mode does not have leads to `Done`.
pub fn next_layer_step(step: LayerStep, naive: bool) -> (r: LayerStep)
    ensures
        forall|i: int|
            0 <= i < layer_steps(naive).len() - 1 && #[trigger] layer_steps(naive)[i] == step ==> r
                == layer_steps(naive)[i + 1],
        !layer_steps(naive).contains(step) || step == LayerStep::Done ==> r == LayerStep::Done,
{
    proof {
        assert(layer_steps(naive).contains(step) ==> exists|i: int| 0 <= i < layer_steps(naive).len() && layer_steps(naive)[i] == step);
    }
    if naive {
        match step {
            LayerStep::ConvertDictionaries => LayerStep::CopyUnchangedFiles,
            LayerStep::CopyUnchangedFiles => LayerStep::CopyIndexes,
            LayerStep::CopyIndexes => LayerStep::RebuildIndexes,
            LayerStep::RebuildIndexes => LayerStep::Finalize,
            _ => {
                proof {
                    if step != LayerStep::Finalize {
                        assert(!layer_steps(naive).contains(step) || step == LayerStep::Done) by {
                            if layer_steps(naive).contains(step) {
                                let i = choose|i: int| 0 <= i < layer_steps(naive).len() && layer_steps(naive)[i] == step;
                            }
                        }
                    }
                }
                LayerStep::Done
            },
        }
    } else {
        match step {
            LayerStep::LoadParentMap => LayerStep::ConvertDictionaries,
            LayerStep::ConvertDictionaries => LayerStep::ConvertTriples,
            LayerStep::ConvertTriples => LayerStep::CopyUnchangedFiles,
            LayerStep::CopyUnchangedFiles => LayerStep::RebuildIndexes,
            LayerStep::RebuildIndexes => LayerStep::Finalize,
            LayerStep::Finalize => LayerStep::WriteParentMap,
            _ => LayerStep::Done,
        }
    }
}

/// A layer whose destination exists was converted already.
pub fn check_destination(destination_exists: bool) -> (r: Result<(), InnerLayerConversionError>)
    ensures
        destination_exists <==> r matches Err(InnerLayerConversionError::LayerAlreadyConverted),
        !destination_exists <==> r is Ok,
{
    if destination_exists {
        Err(InnerLayerConversionError::LayerAlreadyConverted)
    } else {
        Ok(())
    }
}

/// A legacy layer that already holds a second-generation node/value
/// indirection index was written by a mixed-version tool and is refused.
pub fn check_no_remap(remap_index_exists: bool) -> (r: Result<(), InnerLayerConversionError>)
    ensures
        remap_index_exists <==> r matches Err(InnerLayerConversionError::NodeValueRemapExists),
        !remap_index_exists <==> r is Ok,
{
    if remap_index_exists {
        Err(InnerLayerConversionError::NodeValueRemapExists)
    } else {
        Ok(())
    }
}

/// The shard directory of a layer: the first three characters of its name.
pub fn shard_prefix(id: LayerId) -> (r: String)
    ensures
        r@ == ascii_chars(name_bytes(id).subrange(0, 3)),
{
    let b = name_to_bytes(id);
    let p = copy_range(b.as_slice(), 0, 3);
    proof {
        assert forall|i: int| 0 <= i < p@.len() implies #[trigger] p@[i] < 128 by {
            assert(p@[i] == name_bytes(id)[i]);
        }
    }
    ascii_to_string(p)
}

/// The file, in the shard directory, that holds a layer's persisted parent map.
pub fn parent_map_file_name(id: LayerId) -> (r: String)
    ensures
        r@ == ascii_chars(name_bytes(id)) + ".postcard"@,
{
    name_to_string(id).concat(".postcard")
}

/// The archive file of a converted layer, in the destination's shard directory.
pub fn larch_file_name(id: LayerId) -> (r: String)
    ensures
        r@ == ascii_chars(name_bytes(id)) + ".larch"@,
{
    name_to_string(id).concat(".larch")
}

/// The rollup file of a converted layer, in the destination's shard directory.
pub fn rollup_file_name(id: LayerId) -> (r: String)
    ensures
        r@ == ascii_chars(name_bytes(id)) + ".rollup.hex"@,
{
    name_to_string(id).concat(".rollup.hex")
}

} // verus!
