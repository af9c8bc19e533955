use vstd::prelude::*;

verus! {

/// The atomic record of the store: a unit of text with its provenance and its
/// dense embedding.
///
/// The embedding entries and the query score are 32-bit floating-point values
/// of the caller; this library carries them as their bit patterns (`u32`), a
/// one-for-one representation, so that every transformation of a chunk can be
/// verified. The boundary that talks to the embedding model converts with
/// `f32::to_bits` / `f32::from_bits`.
pub struct Chunk {
    /// Origin document identifier.
    pub file_path: String,
    /// The chunk's textual content, indexed for full-text search.
    pub text: String,
    /// Identifiers of the finer-grained source units this chunk aggregates.
    pub source_block_ids: Vec<String>,
    /// Dense vector representation, one bit pattern per 32-bit float.
    pub embedding: Vec<u32>,
    /// Fused relevance score; present only on query results.
    pub score: Option<u32>,
}

/// The mathematical value of a `Chunk`.
pub struct ChunkView {
    pub file_path: Seq<char>,
    pub text: Seq<char>,
    pub source_block_ids: Seq<Seq<char>>,
    pub embedding: Seq<u32>,
    pub score: Option<u32>,
}

impl View for Chunk {
    type V = ChunkView;

    open spec fn view(&self) -> ChunkView {
        ChunkView {
            file_path: self.file_path@,
            text: self.text@,
            source_block_ids: self.source_block_ids@.map_values(|s: String| s@),
            embedding: self.embedding@,
            score: self.score,
        }
    }
}

/// What a table persists of a chunk: everything but the query-time score.
pub open spec fn stored_view(c: ChunkView) -> ChunkView {
    ChunkView { score: None, ..c }
}

/// The values of a batch of chunks, in batch order.
pub open spec fn views_of_chunks(chunks: Seq<Chunk>) -> Seq<ChunkView> {
    chunks.map_values(|c: Chunk| c@)
}

/// What a table persists of a batch, in batch order.
pub open spec fn stored_rows(chunks: Seq<ChunkView>) -> Seq<ChunkView> {
    chunks.map_values(|c: ChunkView| stored_view(c))
}

} // verus!
