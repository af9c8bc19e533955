use vstd::prelude::*;

use crate::chunk::{stored_rows, views_of_chunks, Chunk, ChunkView};
use crate::columns::{append_chunks, decode_row, total_block_ids, ColumnarBatch, MAX_LIST_OFFSET};
use crate::errors::StoreError;
use crate::ids::{assign_ids, ids_of_views};
use crate::schema::{define_schema, is_chunk_schema, Schema};

verus! {

/// How many results a search returns when the caller gives no limit.
pub const DEFAULT_SEARCH_LIMIT: usize = 10;

/// One named table: its declared embedding width, its persisted schema,
/// whether its full-text index was built, and its rows in columnar form.
pub struct TableEntry {
    pub name: String,
    pub embed_dim: i32,
    pub schema: Schema,
    pub has_text_index: bool,
    pub data: ColumnarBatch,
}

impl TableEntry {
    /// The width is positive, the schema is the five-column chunk layout for
    /// it, and every row's embedding has exactly that width.
    pub open spec fn wf(self) -> bool {
        &&& 0 < self.embed_dim
        &&& is_chunk_schema(self.schema, self.embed_dim as int)
        &&& self.data.wf(self.embed_dim as int)
    }
}

/// One entry of the fused ranking the storage engine computes for a query:
/// a row of the queried table and the engine's relevance score for it (the
/// bit pattern of a 32-bit float).
#[derive(Clone, Copy, Debug, PartialEq, Eq, Structural)]
pub struct SearchHit {
    pub row: usize,
    pub score: u32,
}

/// The state the storage engine persists: the named tables. All table names
/// are distinct and every table is well-formed.
pub struct Store {
    pub tables: Vec<TableEntry>,
}

impl Store {
    pub open spec fn wf(self) -> bool {
        &&& forall|i: int, j: int|
            0 <= i < j < self.tables@.len() ==> (#[trigger] self.tables@[i]).name@ != (
            #[trigger] self.tables@[j]).name@
        &&& forall|i: int| 0 <= i < self.tables@.len() ==> (#[trigger] self.tables@[i]).wf()
    }

    /// Whether a table of this name exists.
    pub open spec fn has_table(self, name: Seq<char>) -> bool {
        exists|i: int| 0 <= i < self.tables@.len() && (#[trigger] self.tables@[i]).name@ == name
    }

    /// The position of the named table (meaningful only when it exists).
    pub open spec fn spec_index_of(self, name: Seq<char>) -> int {
        choose|i: int| 0 <= i < self.tables@.len() && (#[trigger] self.tables@[i]).name@ == name
    }

    pub open spec fn table_at(self, name: Seq<char>) -> TableEntry {
        self.tables@[self.spec_index_of(name)]
    }

    /// The persisted rows of the named table, in storage order.
    pub open spec fn rows_of(self, name: Seq<char>) -> Seq<ChunkView> {
        self.table_at(name).data.rows()
    }

    /// The embedding width the named table was created with.
    pub open spec fn dim_of(self, name: Seq<char>) -> int {
        self.table_at(name).embed_dim as int
    }

    /// Whether the named table's full-text index was built.
    pub open spec fn indexed(self, name: Seq<char>) -> bool {
        self.table_at(name).has_text_index
    }

    pub open spec fn table_count(self) -> int {
        self.tables@.len() as int
    }
}

/// The position any index with the table's name must equal, by uniqueness.
pub proof fn lemma_index_of_unique(s: Store, name: Seq<char>, i: int)
    requires
        s.wf(),
        0 <= i < s.tables@.len(),
        s.tables@[i].name@ == name,
    ensures
        s.spec_index_of(name) == i,
        s.has_table(name),
{
    assert(s.has_table(name));
    let w = s.spec_index_of(name);
    assert(0 <= w < s.tables@.len() && s.tables@[w].name@ == name);
    if w != i {
        if w < i {
            assert(s.tables@[w].name@ != s.tables@[i].name@);
        } else {
            assert(s.tables@[i].name@ != s.tables@[w].name@);
        }
    }
}

/// `post` is `pre` with one fresh table appended, holding the given rows.
pub open spec fn with_new_table(
    pre: Store,
    post: Store,
    name: Seq<char>,
    embed_dim: int,
    index_ok: bool,
    rows: Seq<ChunkView>,
    ids: Seq<u32>,
) -> bool {
    &&& post.tables@.len() == pre.tables@.len() + 1
    &&& forall|j: int| 0 <= j < pre.tables@.len() ==> post.tables@[j] == pre.tables@[j]
    &&& post.tables@.last().name@ == name
    &&& post.tables@.last().embed_dim as int == embed_dim
    &&& post.tables@.last().has_text_index == index_ok
    &&& is_chunk_schema(post.tables@.last().schema, embed_dim)
    &&& post.tables@.last().data.rows() =~= rows
    &&& post.tables@.last().data.ids@ =~= ids
}

/// `post` is `pre` with the given rows appended to the named table; nothing
/// else of the store, and nothing else of that table, changes.
pub open spec fn with_rows_appended(
    pre: Store,
    post: Store,
    name: Seq<char>,
    new_rows: Seq<ChunkView>,
    new_ids: Seq<u32>,
) -> bool {
    let t = pre.spec_index_of(name);
    &&& pre.has_table(name)
    &&& post.tables@.len() == pre.tables@.len()
    &&& forall|j: int|
        0 <= j < pre.tables@.len() && j != t ==> (#[trigger] post.tables@[j]) == pre.tables@[j]
    &&& post.tables@[t].name == pre.tables@[t].name
    &&& post.tables@[t].embed_dim == pre.tables@[t].embed_dim
    &&& post.tables@[t].schema == pre.tables@[t].schema
    &&& post.tables@[t].has_text_index == pre.tables@[t].has_text_index
    &&& post.tables@[t].data.rows() =~= pre.tables@[t].data.rows() + new_rows
    &&& post.tables@[t].data.ids@ == pre.tables@[t].data.ids@ + new_ids
}

/// What `create_empty_table` does and returns, for every input.
pub open spec fn create_outcome(
    pre: Store,
    post: Store,
    r: Result<(), StoreError>,
    name: Seq<char>,
    embed_dim: int,
    index_ok: bool,
) -> bool {
    if embed_dim <= 0 {
        &&& r == Err::<(), StoreError>(StoreError::InvalidInput)
        &&& post.tables@ == pre.tables@
    } else if pre.has_table(name) {
        &&& r == Err::<(), StoreError>(StoreError::AlreadyExists)
        &&& post.tables@ == pre.tables@
    } else {
        &&& with_new_table(
            pre,
            post,
            name,
            embed_dim,
            index_ok,
            Seq::<ChunkView>::empty(),
            Seq::<u32>::empty(),
        )
        &&& (index_ok ==> r == Ok::<(), StoreError>(()))
        &&& (!index_ok ==> r == Err::<(), StoreError>(StoreError::IndexError))
    }
}

/// Chunk `i` is the first of the batch whose embedding width is wrong.
pub open spec fn first_dim_violation(chunks: Seq<ChunkView>, dim: int, i: int) -> bool {
    &&& 0 <= i < chunks.len()
    &&& chunks[i].embedding.len() != dim
    &&& forall|j: int| 0 <= j < i ==> (#[trigger] chunks[j].embedding).len() == dim
}

/// The block-id values the named table already holds (zero for a table that
/// does not exist yet).
pub open spec fn base_block_values(pre: Store, name: Seq<char>) -> int {
    if pre.has_table(name) {
        pre.table_at(name).data.block_id_values@.len() as int
    } else {
        0
    }
}

/// What `insert_chunks` does and returns, for every input: ensure-create,
/// validate the whole batch, then append it all-or-nothing.
pub open spec fn insert_outcome(
    pre: Store,
    post: Store,
    r: Result<usize, StoreError>,
    name: Seq<char>,
    chunks: Seq<ChunkView>,
    embed_dim: int,
    now_nanos: u64,
    index_ok: bool,
) -> bool {
    let existed = pre.has_table(name);
    if !existed && embed_dim <= 0 {
        // creation is rejected before anything is written
        &&& r == Err::<usize, StoreError>(StoreError::InvalidInput)
        &&& post.tables@ == pre.tables@
    } else if !existed && !index_ok {
        // the fresh table exists but its index build failed; insertion aborts
        &&& r == Err::<usize, StoreError>(StoreError::IndexError)
        &&& with_new_table(
            pre,
            post,
            name,
            embed_dim,
            false,
            Seq::<ChunkView>::empty(),
            Seq::<u32>::empty(),
        )
    } else if exists|i: int| first_dim_violation(chunks, embed_dim, i) {
        // the whole batch is rejected before any row is written
        &&& (r matches Err(e) && e matches StoreError::SchemaMismatch {
            chunk_index,
            actual_len,
            expected_dim,
        } && first_dim_violation(chunks, embed_dim, chunk_index as int) && actual_len == chunks[
            chunk_index as int
        ].embedding.len() && expected_dim as int == embed_dim)
        &&& (existed ==> post.tables@ == pre.tables@)
        &&& (!existed ==> with_new_table(
            pre,
            post,
            name,
            embed_dim,
            true,
            Seq::<ChunkView>::empty(),
            Seq::<u32>::empty(),
        ))
    } else if existed && pre.dim_of(name) != embed_dim {
        // the engine rejects a batch whose width differs from the declared one
        &&& r == Err::<usize, StoreError>(StoreError::StorageEngineError)
        &&& post.tables@ == pre.tables@
    } else if base_block_values(pre, name) + total_block_ids(chunks) > MAX_LIST_OFFSET {
        // the flattened block-id column would overflow the engine's offsets
        &&& r == Err::<usize, StoreError>(StoreError::InvalidInput)
        &&& (existed ==> post.tables@ == pre.tables@)
        &&& (!existed ==> with_new_table(
            pre,
            post,
            name,
            embed_dim,
            true,
            Seq::<ChunkView>::empty(),
            Seq::<u32>::empty(),
        ))
    } else {
        &&& r == Ok::<usize, StoreError>(chunks.len() as usize)
        &&& (existed ==> with_rows_appended(
            pre,
            post,
            name,
            stored_rows(chunks),
            ids_of_views(chunks, now_nanos),
        ))
        &&& (!existed ==> with_new_table(
            pre,
            post,
            name,
            embed_dim,
            true,
            stored_rows(chunks),
            ids_of_views(chunks, now_nanos),
        ))
    }
}

/// The ranking entries a search decodes: the first `lim` of them.
pub open spec fn taken_hits(ranking: Seq<SearchHit>, lim: int) -> Seq<SearchHit> {
    if ranking.len() <= lim {
        ranking
    } else {
        ranking.subrange(0, lim)
    }
}

/// Some taken hit names a row the table does not have.
pub open spec fn hit_out_of_range(taken: Seq<SearchHit>, nrows: int) -> bool {
    exists|i: int| 0 <= i < taken.len() && (#[trigger] taken[i]).row >= nrows
}

/// What `search` returns, for every input. `lim` is the effective limit and
/// `ranking` the fused ranking the engine computed for the query.
pub open spec fn search_outcome(
    s: Store,
    r: Result<Vec<Chunk>, StoreError>,
    name: Seq<char>,
    lim: int,
    ranking: Seq<SearchHit>,
) -> bool {
    if !s.has_table(name) {
        r == Err::<Vec<Chunk>, StoreError>(StoreError::NotFound)
    } else {
        let rows = s.rows_of(name);
        let taken = taken_hits(ranking, lim);
        if hit_out_of_range(taken, rows.len() as int) {
            // a hit that decodes to no row fails the whole call
            r == Err::<Vec<Chunk>, StoreError>(StoreError::StorageEngineError)
        } else {
            &&& r matches Ok(out)
            &&& out@.len() == taken.len()
            &&& forall|i: int|
                0 <= i < taken.len() ==> (#[trigger] out@[i])@ == ChunkView {
                    score: Some(taken[i].score),
                    ..rows[taken[i].row as int]
                }
        }
    }
}

/// What `view_table` returns, for every input.
pub open spec fn view_outcome(
    s: Store,
    r: Result<Vec<Chunk>, StoreError>,
    name: Seq<char>,
    limit: int,
) -> bool {
    if !s.has_table(name) {
        r == Err::<Vec<Chunk>, StoreError>(StoreError::NotFound)
    } else {
        let rows = s.rows_of(name);
        let take = if rows.len() <= limit {
            rows.len() as int
        } else {
            limit
        };
        &&& r matches Ok(out)
        &&& out@.len() == take
        &&& forall|i: int| 0 <= i < take ==> (#[trigger] out@[i])@ == rows[i]
    }
}

/// The limit a search runs with: the caller's, or the default.
pub open spec fn spec_effective_limit(limit: Option<usize>) -> usize {
    match limit {
        Some(l) => l,
        None => DEFAULT_SEARCH_LIMIT,
    }
}

pub fn effective_limit(limit: Option<usize>) -> (r: usize)
    ensures
        r == spec_effective_limit(limit),
{
    match limit {
        Some(l) => l,
        None => DEFAULT_SEARCH_LIMIT,
    }
}

impl Store {
    /// A store with no tables.
    pub fn new() -> (r: Store)
        ensures
            r.wf(),
            r.table_count() == 0,
    {
        Store { tables: Vec::new() }
    }

    /// Lists the known table names and reports membership; never creates.
    pub fn table_exists(&self, name: &String) -> (r: bool)
        ensures
            r == self.has_table(name@),
    {
        let mut j: usize = 0;
        while j < self.tables.len()
            invariant
                j <= self.tables@.len(),
                forall|k: int| 0 <= k < j ==> (#[trigger] self.tables@[k]).name@ != name@,
            decreases self.tables@.len() - j,
        {
            if self.tables[j].name == *name {
                return true;
            }
            j = j + 1;
        }
        false
    }

    /// The position of a table known to exist.
    fn find_existing(&self, name: &String) -> (t: usize)
        requires
            self.wf(),
            self.has_table(name@),
        ensures
            t < self.tables@.len(),
            self.tables@[t as int].name@ == name@,
            t as int == self.spec_index_of(name@),
    {
        let mut j: usize = 0;
        while j < self.tables.len()
            invariant
                self.wf(),
                self.has_table(name@),
                j <= self.tables@.len(),
                forall|k: int| 0 <= k < j ==> (#[trigger] self.tables@[k]).name@ != name@,
            decreases self.tables@.len() - j,
        {
            if self.tables[j].name == *name {
                proof {
                    lemma_index_of_unique(*self, name@, j as int);
                }
                return j;
            }
            j = j + 1;
        }
        proof {
            assert(false);
        }
        0
    }

    /// Opens an existing table, reporting its position; `NotFound` when the
    /// name was never created.
    pub fn open_table(&self, name: &String) -> (r: Result<usize, StoreError>)
        requires
            self.wf(),
        ensures
            self.has_table(name@) ==> (r matches Ok(t) && t as int == self.spec_index_of(name@)),
            !self.has_table(name@) ==> r == Err::<usize, StoreError>(StoreError::NotFound),
    {
        if self.table_exists(name) {
            Ok(self.find_existing(name))
        } else {
            Err(StoreError::NotFound)
        }
    }

    /// Builds the five-column schema, creates a table with zero rows under it,
    /// then builds the full-text index on the `text` column. `index_ok` is the
    /// engine's verdict on that index build: when it is false the empty table
    /// still exists but is left without an index, and the error is surfaced.
    #[verifier::rlimit(60)]
    pub fn create_empty_table(&mut self, name: &String, embed_dim: i32, index_ok: bool) -> (r:
        Result<(), StoreError>)
        requires
            old(self).wf(),
        ensures
            final(self).wf(),
            create_outcome(*old(self), *final(self), r, name@, embed_dim as int, index_ok),
    {
        let schema = match define_schema(embed_dim) {
            Ok(s) => s,
            Err(e) => {
                return Err(e);
            },
        };
        if self.table_exists(name) {
            return Err(StoreError::AlreadyExists);
        }
        let entry = TableEntry {
            name: name.clone(),
            embed_dim,
            schema,
            has_text_index: index_ok,
            data: ColumnarBatch::empty(),
        };
        self.tables.push(entry);
        proof {
            let pre = *old(self);
            assert forall|i: int, j: int|
                0 <= i < j < self.tables@.len() implies (#[trigger] self.tables@[i]).name@ != (
            #[trigger] self.tables@[j]).name@ by {
                if j == pre.tables@.len() {
                    if self.tables@[i].name@ == name@ {
                        assert(pre.has_table(name@));
                    }
                }
            }
        }
        if index_ok {
            Ok(())
        } else {
            Err(StoreError::IndexError)
        }
    }

    /// Reports whether the named table's full-text index was built;
    /// `NotFound` when the table does not exist.
    pub fn has_text_index(&self, name: &String) -> (r: Result<bool, StoreError>)
        requires
            self.wf(),
        ensures
            self.has_table(name@) ==> r == Ok::<bool, StoreError>(self.indexed(name@)),
            !self.has_table(name@) ==> r == Err::<bool, StoreError>(StoreError::NotFound),
    {
        let t = match self.open_table(name) {
            Ok(t) => t,
            Err(e) => {
                return Err(e);
            },
        };
        Ok(self.tables[t].has_text_index)
    }

    /// The number of persisted rows of the named table; `NotFound` when the
    /// table does not exist.
    pub fn row_count(&self, name: &String) -> (r: Result<usize, StoreError>)
        requires
            self.wf(),
        ensures
            self.has_table(name@) ==> (r matches Ok(n) && n == self.rows_of(name@).len()),
            !self.has_table(name@) ==> r == Err::<usize, StoreError>(StoreError::NotFound),
    {
        let t = match self.open_table(name) {
            Ok(t) => t,
            Err(e) => {
                return Err(e);
            },
        };
        Ok(self.tables[t].data.ids.len())
    }

    /// Inserts a batch of chunks into the named table, creating the table
    /// (with schema and text index) first when the name does not exist.
    ///
    /// The whole batch is validated against `embed_dim` before any row is
    /// written; the rows are appended in batch order, each under an identifier
    /// hashed from its content, `now_nanos` (the clock reading the caller
    /// took for this insertion) and its batch position. `index_ok` is the
    /// engine's verdict on the index build, should a table be created.
    /// Returns the number of rows inserted.
    #[verifier::loop_isolation(false)]
    #[verifier::rlimit(100)]
    pub fn insert_chunks(
        &mut self,
        name: &String,
        chunks: &Vec<Chunk>,
        embed_dim: i32,
        now_nanos: u64,
        index_ok: bool,
    ) -> (r: Result<usize, StoreError>)
        requires
            old(self).wf(),
        ensures
            final(self).wf(),
            insert_outcome(
                *old(self),
                *final(self),
                r,
                name@,
                views_of_chunks(chunks@),
                embed_dim as int,
                now_nanos,
                index_ok,
            ),
    {
        let ghost pre = *old(self);
        let ghost cviews = views_of_chunks(chunks@);
        let existed = self.table_exists(name);
        if !existed {
            match self.create_empty_table(name, embed_dim, index_ok) {
                Ok(_) => {},
                Err(e) => {
                    return Err(e);
                },
            }
        }
        let ghost mid = *self;
        let t = self.find_existing(name);
        proof {
            if !existed {
                assert(mid.tables@.last().name@ == name@);
                lemma_index_of_unique(mid, name@, mid.tables@.len() - 1);
            }
        }
        // validate every chunk against the given width before anything is written
        let mut i: usize = 0;
        while i < chunks.len()
            invariant
                i <= chunks@.len(),
                forall|j: int|
                    0 <= j < i ==> (#[trigger] chunks@[j]@.embedding).len() == embed_dim as int,
            decreases chunks@.len() - i,
        {
            let ok = embed_dim >= 0 && chunks[i].embedding.len() == (embed_dim as usize);
            if !ok {
                proof {
                    assert forall|j: int| 0 <= j < i implies (#[trigger] cviews[j].embedding).len()
                        == embed_dim as int by {
                        assert(cviews[j] == chunks@[j]@);
                    }
                    assert(cviews[i as int] == chunks@[i as int]@);
                    assert(first_dim_violation(cviews, embed_dim as int, i as int));
                }
                return Err(
                    StoreError::SchemaMismatch {
                        chunk_index: i,
                        actual_len: chunks[i].embedding.len(),
                        expected_dim: embed_dim,
                    },
                );
            }
            i = i + 1;
        }
        proof {
            assert forall|k: int| 0 <= k < cviews.len() implies (#[trigger] cviews[k].embedding).len()
                == embed_dim as int by {
                assert(cviews[k] == chunks@[k]@);
            }
            assert(!(exists|k: int| first_dim_violation(cviews, embed_dim as int, k)));
        }
        // the engine rejects a batch whose width differs from the declared one
        if embed_dim != self.tables[t].embed_dim {
            proof {
                assert(existed) by {
                    if !existed {
                        assert(mid.tables@[t as int].embed_dim == embed_dim);
                    }
                }
                assert(pre.spec_index_of(name@) == t as int) by {
                    lemma_index_of_unique(pre, name@, t as int);
                }
            }
            return Err(StoreError::StorageEngineError);
        }
        let ids = assign_ids(chunks, now_nanos);
        proof {
            // the entry's own width governs its data, and it equals embed_dim
            assert(mid.tables@[t as int].wf());
            if existed {
                lemma_index_of_unique(pre, name@, t as int);
            }
        }
        let entry = &mut self.tables[t];
        let res = append_chunks(&mut entry.data, chunks, &ids, embed_dim);
        proof {
            let post = *self;
            assert(post.tables@ == mid.tables@.update(t as int, post.tables@[t as int]));
            assert forall|j: int|
                0 <= j < mid.tables@.len() && j != t as int implies (#[trigger] post.tables@[j])
                == mid.tables@[j] by {}
            assert(post.tables@[t as int].name == mid.tables@[t as int].name);
            assert(post.tables@[t as int].wf());
            assert forall|x: int, y: int|
                0 <= x < y < post.tables@.len() implies (#[trigger] post.tables@[x]).name@ != (
            #[trigger] post.tables@[y]).name@ by {
                assert(post.tables@[x].name@ == mid.tables@[x].name@);
                assert(post.tables@[y].name@ == mid.tables@[y].name@);
            }
            if base_block_values(pre, name@) + total_block_ids(cviews) > MAX_LIST_OFFSET {
                // nothing was appended; the store is exactly as it stood
                assert(post.tables@[t as int].data == mid.tables@[t as int].data);
                assert(post.tables@[t as int] == mid.tables@[t as int]);
                assert(post.tables@ =~= mid.tables@);
            } else {
                if existed {
                    assert(with_rows_appended(
                        pre,
                        post,
                        name@,
                        stored_rows(cviews),
                        ids_of_views(cviews, now_nanos),
                    ));
                } else {
                    assert(post.tables@.last().data.rows() =~= stored_rows(cviews)) by {
                        assert(mid.tables@.last().data.rows() =~= Seq::<ChunkView>::empty());
                        assert(post.tables@.last().data.rows() =~= mid.tables@.last().data.rows()
                            + stored_rows(cviews));
                    }
                    assert(post.tables@.last().data.ids@ == ids_of_views(cviews, now_nanos)) by {
                        assert(mid.tables@.last().data.ids@ == Seq::<u32>::empty());
                        assert(Seq::<u32>::empty() + ids_of_views(cviews, now_nanos)
                            =~= ids_of_views(cviews, now_nanos));
                    }
                    assert(with_new_table(
                        pre,
                        post,
                        name@,
                        embed_dim as int,
                        true,
                        stored_rows(cviews),
                        ids_of_views(cviews, now_nanos),
                    ));
                }
            }
        }
        match res {
            Ok(n) => Ok(n),
            Err(e) => Err(e),
        }
    }

    /// Runs a hybrid query against the named table: the engine fuses a
    /// nearest-neighbor search for `query_vector` (float bit patterns) with a
    /// full-text search for `query`, and hands back its ranking; this decodes
    /// the ranked rows, best first, at most `limit` (default 10) of them.
    /// `NotFound` when the table does not exist; a hit that names no row of
    /// the table fails the whole call, returning no partial results.
    #[allow(unused_variables)]
    #[verifier::loop_isolation(false)]
    #[verifier::rlimit(100)]
    pub fn search(
        &self,
        name: &String,
        query: &String,
        query_vector: &Vec<u32>,
        limit: Option<usize>,
        ranking: &Vec<SearchHit>,
    ) -> (r: Result<Vec<Chunk>, StoreError>)
        requires
            self.wf(),
        ensures
            search_outcome(*self, r, name@, spec_effective_limit(limit) as int, ranking@),
    {
        let t = match self.open_table(name) {
            Ok(t) => t,
            Err(e) => {
                return Err(e);
            },
        };
        let lim = effective_limit(limit);
        let take = if ranking.len() <= lim {
            ranking.len()
        } else {
            lim
        };
        let ghost taken = taken_hits(ranking@, lim as int);
        proof {
            assert(taken.len() == take as int);
        }
        let rowcount = self.tables[t].data.ids.len();
        let mut out: Vec<Chunk> = Vec::new();
        let mut j: usize = 0;
        while j < take
            invariant
                j <= take,
                out@.len() == j,
                forall|k: int| 0 <= k < j ==> (#[trigger] ranking@[k]).row < rowcount,
                forall|k: int|
                    0 <= k < j ==> (#[trigger] out@[k])@ == (ChunkView {
                        score: Some(ranking@[k].score),
                        ..self.rows_of(name@)[ranking@[k].row as int]
                    }),
            decreases take - j,
        {
            let hit = ranking[j];
            proof {
                assert(taken[j as int] == ranking@[j as int]);
            }
            if hit.row >= rowcount {
                proof {
                    assert(hit_out_of_range(taken, self.rows_of(name@).len() as int)) by {
                        assert(taken[j as int].row >= self.rows_of(name@).len());
                    }
                }
                return Err(StoreError::StorageEngineError);
            }
            let c = decode_row(&self.tables[t].data, hit.row, Some(hit.score));
            proof {
                assert(self.rows_of(name@)[hit.row as int] == self.tables@[t as int].data.row_view(
                    hit.row as int,
                ));
            }
            out.push(c);
            j = j + 1;
        }
        proof {
            let rows = self.rows_of(name@);
            assert(rows.len() == rowcount);
            assert forall|i: int| 0 <= i < taken.len() implies (#[trigger] taken[i]).row
                < rows.len() by {
                assert(taken[i] == ranking@[i]);
            }
            assert(!hit_out_of_range(taken, rows.len() as int));
            assert forall|i: int| 0 <= i < taken.len() implies (#[trigger] out@[i])@ == (ChunkView {
                score: Some(taken[i].score),
                ..rows[taken[i].row as int]
            }) by {
                assert(taken[i] == ranking@[i]);
            }
        }
        Ok(out)
    }

    /// A diagnostic full scan: the first `limit` rows of the named table, in
    /// storage order, without scores. `NotFound` when the table does not
    /// exist.
    #[verifier::loop_isolation(false)]
    #[verifier::rlimit(60)]
    pub fn view_table(&self, name: &String, limit: usize) -> (r: Result<Vec<Chunk>, StoreError>)
        requires
            self.wf(),
        ensures
            view_outcome(*self, r, name@, limit as int),
    {
        let t = match self.open_table(name) {
            Ok(t) => t,
            Err(e) => {
                return Err(e);
            },
        };
        let rowcount = self.tables[t].data.ids.len();
        let take = if rowcount <= limit {
            rowcount
        } else {
            limit
        };
        let mut out: Vec<Chunk> = Vec::new();
        let mut j: usize = 0;
        while j < take
            invariant
                self.wf(),
                self.has_table(name@),
                t as int == self.spec_index_of(name@),
                t < self.tables@.len(),
                rowcount == self.tables@[t as int].data.row_count(),
                take <= rowcount,
                j <= take,
                out@.len() == j,
                forall|k: int| 0 <= k < j ==> (#[trigger] out@[k])@ == self.rows_of(name@)[k],
            decreases take - j,
        {
            let c = decode_row(&self.tables[t].data, j, None);
            proof {
                assert(self.rows_of(name@)[j as int] == self.tables@[t as int].data.row_view(
                    j as int,
                ));
                assert(self.tables@[t as int].data.row_view(j as int).score == None::<u32>);
            }
            out.push(c);
            j = j + 1;
        }
        Ok(out)
    }
}

} // verus!
