use vstd::prelude::*;

use crate::chunk::{stored_rows, Chunk, ChunkView};
use crate::columns::{total_block_ids, MAX_LIST_OFFSET};
use crate::errors::StoreError;
use crate::ids::ids_of_views;
use crate::store::{
    base_block_values, first_dim_violation, hit_out_of_range, insert_outcome,
    lemma_index_of_unique, search_outcome, taken_hits, view_outcome, with_new_table,
    with_rows_appended, SearchHit, Store,
};

verus! {

/// Two stores with the same table sequence agree on every query.
proof fn lemma_same_tables(pre: Store, post: Store, name: Seq<char>)
    requires
        pre.wf(),
        post.tables@ == pre.tables@,
    ensures
        post.has_table(name) == pre.has_table(name),
        pre.has_table(name) ==> post.rows_of(name) == pre.rows_of(name),
        pre.has_table(name) ==> post.dim_of(name) == pre.dim_of(name),
        pre.has_table(name) ==> post.indexed(name) == pre.indexed(name),
        post.table_count() == pre.table_count(),
{
    if pre.has_table(name) {
        let t = pre.spec_index_of(name);
        assert(0 <= t < pre.tables@.len() && pre.tables@[t].name@ == name);
        lemma_index_of_unique(post, name, t);
    }
    if post.has_table(name) {
        let t = post.spec_index_of(name);
        assert(0 <= t < post.tables@.len() && post.tables@[t].name@ == name);
        assert(pre.has_table(name));
    }
}

/// A store extended by one fresh table resolves that table's name to the new
/// entry.
proof fn lemma_new_table_resolves(
    pre: Store,
    post: Store,
    name: Seq<char>,
    embed_dim: int,
    index_ok: bool,
    rows: Seq<ChunkView>,
    ids: Seq<u32>,
)
    requires
        post.wf(),
        with_new_table(pre, post, name, embed_dim, index_ok, rows, ids),
    ensures
        post.has_table(name),
        post.spec_index_of(name) == pre.tables@.len(),
        post.rows_of(name) == rows,
        post.dim_of(name) == embed_dim,
        post.indexed(name) == index_ok,
        post.table_count() == pre.table_count() + 1,
{
    assert(post.tables@[post.tables@.len() - 1].name@ == name);
    lemma_index_of_unique(post, name, post.tables@.len() - 1);
}

/// A store whose named table got rows appended still resolves the name to the
/// same place, with the old rows followed by the new ones.
proof fn lemma_appended_resolves(
    pre: Store,
    post: Store,
    name: Seq<char>,
    new_rows: Seq<ChunkView>,
    new_ids: Seq<u32>,
)
    requires
        pre.wf(),
        post.wf(),
        with_rows_appended(pre, post, name, new_rows, new_ids),
    ensures
        post.has_table(name),
        post.spec_index_of(name) == pre.spec_index_of(name),
        post.rows_of(name) == pre.rows_of(name) + new_rows,
        post.dim_of(name) == pre.dim_of(name),
        post.indexed(name) == pre.indexed(name),
        post.table_count() == pre.table_count(),
{
    let t = pre.spec_index_of(name);
    assert(0 <= t < pre.tables@.len() && pre.tables@[t].name@ == name);
    assert(post.tables@[t].name@ == name);
    lemma_index_of_unique(post, name, t);
}

/// Somewhere in a batch with a mis-sized chunk there is a first mis-sized
/// chunk.
proof fn lemma_exists_first_violation(chunks: Seq<ChunkView>, dim: int, bad: int)
    requires
        0 <= bad < chunks.len(),
        chunks[bad].embedding.len() != dim,
    ensures
        exists|i: int| first_dim_violation(chunks, dim, i),
    decreases bad,
{
    if forall|j: int| 0 <= j < bad ==> (#[trigger] chunks[j].embedding).len() == dim {
        assert(first_dim_violation(chunks, dim, bad));
    } else {
        let w = choose|j: int| 0 <= j < bad && (#[trigger] chunks[j].embedding).len() != dim;
        lemma_exists_first_violation(chunks, dim, w);
    }
}

/// Dimension invariant: if any chunk of a batch has an embedding whose length
/// differs from the given width, the whole insertion fails, and the named
/// table's rows are unchanged (none, if the call had just created the table).
pub proof fn lemma_insert_dimension_invariant(
    pre: Store,
    post: Store,
    r: Result<usize, StoreError>,
    name: Seq<char>,
    chunks: Seq<ChunkView>,
    embed_dim: int,
    now_nanos: u64,
    index_ok: bool,
    bad: int,
)
    requires
        pre.wf(),
        post.wf(),
        insert_outcome(pre, post, r, name, chunks, embed_dim, now_nanos, index_ok),
        0 <= bad < chunks.len(),
        chunks[bad].embedding.len() != embed_dim,
    ensures
        r is Err,
        pre.has_table(name) ==> post.rows_of(name) == pre.rows_of(name),
        !pre.has_table(name) && post.has_table(name) ==> post.rows_of(name).len() == 0,
{
    lemma_exists_first_violation(chunks, embed_dim, bad);
    let existed = pre.has_table(name);
    if !existed && embed_dim <= 0 {
        lemma_same_tables(pre, post, name);
    } else if !existed && !index_ok {
        lemma_new_table_resolves(
            pre,
            post,
            name,
            embed_dim,
            false,
            Seq::<ChunkView>::empty(),
            Seq::<u32>::empty(),
        );
    } else {
        if existed {
            lemma_same_tables(pre, post, name);
        } else {
            lemma_new_table_resolves(
                pre,
                post,
                name,
                embed_dim,
                true,
                Seq::<ChunkView>::empty(),
                Seq::<u32>::empty(),
            );
        }
    }
}

/// Idempotent table creation via insert: the first insertion to a fresh name
/// creates exactly one table, with the given width, and — when the index
/// build succeeded — a usable full-text index; a second insertion with the
/// same name and the same width neither recreates nor reshapes it.
pub proof fn lemma_insert_creates_table_once(
    s0: Store,
    s1: Store,
    s2: Store,
    r1: Result<usize, StoreError>,
    r2: Result<usize, StoreError>,
    name: Seq<char>,
    chunks1: Seq<ChunkView>,
    chunks2: Seq<ChunkView>,
    embed_dim: int,
    n1: u64,
    n2: u64,
    idx2: bool,
)
    requires
        s0.wf(),
        s1.wf(),
        s2.wf(),
        !s0.has_table(name),
        embed_dim > 0,
        insert_outcome(s0, s1, r1, name, chunks1, embed_dim, n1, true),
        insert_outcome(s1, s2, r2, name, chunks2, embed_dim, n2, idx2),
    ensures
        s1.has_table(name),
        s1.dim_of(name) == embed_dim,
        s1.indexed(name),
        s1.table_count() == s0.table_count() + 1,
        s2.table_count() == s1.table_count(),
        s2.has_table(name),
        s2.dim_of(name) == embed_dim,
        s2.indexed(name),
{
    // first insertion: whatever became of the batch, the table was created
    if exists|i: int| first_dim_violation(chunks1, embed_dim, i) {
        lemma_new_table_resolves(
            s0,
            s1,
            name,
            embed_dim,
            true,
            Seq::<ChunkView>::empty(),
            Seq::<u32>::empty(),
        );
    } else if base_block_values(s0, name) + total_block_ids(chunks1) > MAX_LIST_OFFSET {
        lemma_new_table_resolves(
            s0,
            s1,
            name,
            embed_dim,
            true,
            Seq::<ChunkView>::empty(),
            Seq::<u32>::empty(),
        );
    } else {
        lemma_new_table_resolves(
            s0,
            s1,
            name,
            embed_dim,
            true,
            stored_rows(chunks1),
            ids_of_views(chunks1, n1),
        );
    }
    // second insertion: the table exists with the same width, so no branch
    // creates another one
    if exists|i: int| first_dim_violation(chunks2, embed_dim, i) {
        lemma_same_tables(s1, s2, name);
    } else if base_block_values(s1, name) + total_block_ids(chunks2) > MAX_LIST_OFFSET {
        lemma_same_tables(s1, s2, name);
    } else {
        lemma_appended_resolves(s1, s2, name, stored_rows(chunks2), ids_of_views(chunks2, n2));
    }
}

/// Row-order preservation: after a batch of N chunks is inserted into a fresh
/// table, a full scan returns N rows whose file path, text, block ids and
/// embedding correspond positionally to the batch.
pub proof fn lemma_insert_then_view_preserves_order(
    s0: Store,
    s1: Store,
    r1: Result<usize, StoreError>,
    r2: Result<Vec<Chunk>, StoreError>,
    name: Seq<char>,
    chunks: Seq<ChunkView>,
    embed_dim: int,
    n1: u64,
    index_ok: bool,
    limit: int,
)
    requires
        s0.wf(),
        s1.wf(),
        !s0.has_table(name),
        insert_outcome(s0, s1, r1, name, chunks, embed_dim, n1, index_ok),
        r1 is Ok,
        view_outcome(s1, r2, name, limit),
        limit >= chunks.len(),
    ensures
        r2 matches Ok(out) && out@.len() == chunks.len(),
        r2 matches Ok(out) ==> forall|i: int|
            0 <= i < chunks.len() ==> {
                &&& (#[trigger] out@[i])@.file_path == chunks[i].file_path
                &&& out@[i]@.text == chunks[i].text
                &&& out@[i]@.source_block_ids == chunks[i].source_block_ids
                &&& out@[i]@.embedding == chunks[i].embedding
            },
{
    lemma_new_table_resolves(
        s0,
        s1,
        name,
        embed_dim,
        true,
        stored_rows(chunks),
        ids_of_views(chunks, n1),
    );
    assert(s1.rows_of(name) == stored_rows(chunks));
    assert(s1.rows_of(name).len() == chunks.len());
}

/// Round-trip decode: a chunk inserted into a fresh table comes back from a
/// search whose ranking names its row — embedding, block ids (empty lists
/// included), file path and text equal, and the engine's score attached.
#[verifier::rlimit(60)]
pub proof fn lemma_insert_then_search_round_trip(
    s0: Store,
    s1: Store,
    r1: Result<usize, StoreError>,
    r2: Result<Vec<Chunk>, StoreError>,
    name: Seq<char>,
    chunks: Seq<ChunkView>,
    embed_dim: int,
    n1: u64,
    lim: int,
    hit: SearchHit,
)
    requires
        s0.wf(),
        s1.wf(),
        !s0.has_table(name),
        insert_outcome(s0, s1, r1, name, chunks, embed_dim, n1, true),
        r1 is Ok,
        0 <= hit.row < chunks.len(),
        lim >= 1,
        search_outcome(s1, r2, name, lim, seq![hit]),
    ensures
        r2 matches Ok(out) && out@.len() == 1,
        r2 matches Ok(out) ==> {
            &&& out@[0]@.embedding == chunks[hit.row as int].embedding
            &&& out@[0]@.source_block_ids == chunks[hit.row as int].source_block_ids
            &&& out@[0]@.file_path == chunks[hit.row as int].file_path
            &&& out@[0]@.text == chunks[hit.row as int].text
            &&& out@[0]@.score == Some(hit.score)
        },
{
    lemma_new_table_resolves(
        s0,
        s1,
        name,
        embed_dim,
        true,
        stored_rows(chunks),
        ids_of_views(chunks, n1),
    );
    let rows = s1.rows_of(name);
    assert(rows == stored_rows(chunks));
    assert(rows.len() == chunks.len());
    let taken = taken_hits(seq![hit], lim);
    assert(taken == seq![hit]);
    assert(taken[0] == hit);
    assert forall|i: int| 0 <= i < taken.len() implies (#[trigger] taken[i]).row < rows.len() by {
        assert(taken[i] == hit);
    }
    assert(!hit_out_of_range(taken, rows.len() as int));
}

/// Limit bound: a search never returns more results than its effective
/// limit, however many rows match and however long the engine's ranking is.
pub proof fn lemma_search_limit_bound(
    s: Store,
    r: Result<Vec<Chunk>, StoreError>,
    name: Seq<char>,
    lim: int,
    ranking: Seq<SearchHit>,
)
    requires
        lim >= 0,
        search_outcome(s, r, name, lim, ranking),
    ensures
        r matches Ok(out) ==> out@.len() <= lim,
{
    assert(taken_hits(ranking, lim).len() <= lim);
}

/// Nonexistent-table queries fail: a search and a scan against a name never
/// created return the not-found error, not an empty result.
pub proof fn lemma_missing_table_not_found(
    s: Store,
    r_search: Result<Vec<Chunk>, StoreError>,
    r_view: Result<Vec<Chunk>, StoreError>,
    name: Seq<char>,
    lim: int,
    ranking: Seq<SearchHit>,
    limit: int,
)
    requires
        !s.has_table(name),
        search_outcome(s, r_search, name, lim, ranking),
        view_outcome(s, r_view, name, limit),
    ensures
        r_search == Err::<Vec<Chunk>, StoreError>(StoreError::NotFound),
        r_view == Err::<Vec<Chunk>, StoreError>(StoreError::NotFound),
{
}

} // verus!
