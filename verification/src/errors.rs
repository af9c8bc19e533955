use vstd::prelude::*;

verus! {

/// The failure kinds of the chunk store.
///
/// Every public operation reports its failure through one of these variants;
/// the contracts of the store say exactly which variant comes on which input.
#[derive(Clone, Copy, Debug, PartialEq, Eq, Structural)]
pub enum StoreError {
    /// Malformed arguments: a non-positive embedding width at table creation,
    /// or a batch whose flattened block-id column would overflow the 32-bit
    /// list offsets of the storage engine's columnar layout.
    InvalidInput,
    /// A chunk's embedding length differs from the width the batch was
    /// validated against; the fields identify the offending chunk.
    SchemaMismatch { chunk_index: usize, actual_len: usize, expected_dim: i32 },
    /// The named table does not exist.
    NotFound,
    /// A table with the given name already exists.
    AlreadyExists,
    /// The full-text index build failed; the freshly created table is left
    /// without an index.
    IndexError,
    /// An opaque failure at the storage-engine boundary: the engine rejected
    /// a batch whose width differs from the table's declared width, or a
    /// result row could not be decoded.
    StorageEngineError,
}

} // verus!
