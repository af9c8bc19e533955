use vstd::prelude::*;

use crate::chunk::{stored_rows, stored_view, views_of_chunks, Chunk, ChunkView};
use crate::errors::StoreError;

verus! {

/// Largest value the storage engine's signed 32-bit list offsets can carry.
/// The flattened block-id column of a table must stay within it.
pub const MAX_LIST_OFFSET: usize = 0x7fff_ffff;

/// The columnar form of a table's rows: the five typed columns the storage
/// engine persists, in row order.
///
/// `source_block_ids` is flattened into one value column plus an offset
/// column, as a columnar list type stores it: row `i` owns the values between
/// `block_id_offsets[i]` and `block_id_offsets[i + 1]`.
pub struct ColumnarBatch {
    /// 32-bit row identifiers (bit patterns of the engine's int32 column).
    pub ids: Vec<u32>,
    pub file_paths: Vec<String>,
    pub block_id_offsets: Vec<usize>,
    pub block_id_values: Vec<String>,
    pub texts: Vec<String>,
    /// One fixed-width embedding per row, entries as 32-bit float bit patterns.
    pub embeddings: Vec<Vec<u32>>,
}

impl ColumnarBatch {
    /// Number of rows.
    pub open spec fn row_count(self) -> int {
        self.ids@.len() as int
    }

    /// The columns are consistent: equal lengths, and a well-formed offset
    /// column (starting at zero, non-decreasing, ending at the value count,
    /// within the engine's 32-bit offset range).
    pub open spec fn wf_cols(self) -> bool {
        let n = self.row_count();
        &&& self.file_paths@.len() == n
        &&& self.texts@.len() == n
        &&& self.embeddings@.len() == n
        &&& self.block_id_offsets@.len() == n + 1
        &&& self.block_id_offsets@[0] == 0
        &&& forall|i: int|
            0 <= i < n ==> (#[trigger] self.block_id_offsets@[i]) <= self.block_id_offsets@[i + 1]
        &&& forall|i: int|
            0 <= i <= n ==> (#[trigger] self.block_id_offsets@[i]) <= self.block_id_values@.len()
        &&& self.block_id_offsets@[n] == self.block_id_values@.len()
        &&& self.block_id_values@.len() <= MAX_LIST_OFFSET
    }

    /// Well-formed with every embedding of width `dim`.
    pub open spec fn wf(self, dim: int) -> bool {
        &&& self.wf_cols()
        &&& forall|i: int|
            0 <= i < self.row_count() ==> (#[trigger] self.embeddings@[i])@.len() == dim
    }

    /// The block identifiers of row `i`.
    pub open spec fn row_block_ids(self, i: int) -> Seq<Seq<char>> {
        self.block_id_values@.subrange(
            self.block_id_offsets@[i] as int,
            self.block_id_offsets@[i + 1] as int,
        ).map_values(|s: String| s@)
    }

    /// Row `i` decoded back to a chunk value (no score: tables store none).
    pub open spec fn row_view(self, i: int) -> ChunkView {
        ChunkView {
            file_path: self.file_paths@[i]@,
            text: self.texts@[i]@,
            source_block_ids: self.row_block_ids(i),
            embedding: self.embeddings@[i]@,
            score: None,
        }
    }

    /// All rows, in storage order.
    pub open spec fn rows(self) -> Seq<ChunkView> {
        Seq::new(self.row_count() as nat, |i: int| self.row_view(i))
    }

    /// A batch with no rows.
    pub fn empty() -> (r: ColumnarBatch)
        ensures
            r.wf_cols(),
            r.row_count() == 0,
            r.block_id_values@.len() == 0,
            r.rows() =~= Seq::<ChunkView>::empty(),
    {
        let mut offsets: Vec<usize> = Vec::new();
        offsets.push(0);
        ColumnarBatch {
            ids: Vec::new(),
            file_paths: Vec::new(),
            block_id_offsets: offsets,
            block_id_values: Vec::new(),
            texts: Vec::new(),
            embeddings: Vec::new(),
        }
    }
}

/// How many block-id values a batch of chunks contributes in all.
pub open spec fn total_block_ids(chunks: Seq<ChunkView>) -> int
    decreases chunks.len(),
{
    if chunks.len() == 0 {
        0
    } else {
        total_block_ids(chunks.drop_last()) + chunks.last().source_block_ids.len()
    }
}

/// Extending a prefix by one chunk adds that chunk's block-id count.
pub proof fn lemma_total_prefix_step(chunks: Seq<ChunkView>, i: int)
    requires
        0 <= i < chunks.len(),
    ensures
        total_block_ids(chunks.subrange(0, i + 1)) == total_block_ids(chunks.subrange(0, i))
            + chunks[i].source_block_ids.len(),
{
    let s = chunks.subrange(0, i + 1);
    assert(s.drop_last() =~= chunks.subrange(0, i));
    assert(s.last() == chunks[i]);
}

/// A prefix never contributes more than the whole batch.
pub proof fn lemma_total_prefix_le(chunks: Seq<ChunkView>, i: int)
    requires
        0 <= i <= chunks.len(),
    ensures
        total_block_ids(chunks.subrange(0, i)) <= total_block_ids(chunks),
    decreases chunks.len() - i,
{
    if i == chunks.len() {
        assert(chunks.subrange(0, i) =~= chunks);
    } else {
        lemma_total_prefix_step(chunks, i);
        lemma_total_prefix_le(chunks, i + 1);
    }
}

fn copy_u32_vec(v: &Vec<u32>) -> (r: Vec<u32>)
    ensures
        r@ == v@,
{
    let mut out: Vec<u32> = Vec::new();
    let mut i: usize = 0;
    while i < v.len()
        invariant
            i <= v@.len(),
            out@ =~= v@.subrange(0, i as int),
        decreases v@.len() - i,
    {
        out.push(v[i]);
        i = i + 1;
    }
    proof {
        assert(out@ =~= v@);
    }
    out
}

fn push_all_strings(dst: &mut Vec<String>, src: &Vec<String>)
    ensures
        final(dst)@ == old(dst)@ + src@,
{
    let ghost dst0 = dst@;
    let mut j: usize = 0;
    while j < src.len()
        invariant
            j <= src@.len(),
            dst@ =~= dst0 + src@.subrange(0, j as int),
        decreases src@.len() - j,
    {
        dst.push(src[j].clone());
        proof {
            assert(dst0 + src@.subrange(0, j + 1) =~= (dst0 + src@.subrange(0, j as int)).push(
                src@[j as int],
            ));
        }
        j = j + 1;
    }
    proof {
        assert(dst@ =~= dst0 + src@);
    }
}

/// Reports whether a batch whose flattened block-id column already holds
/// `base` values can take every block id of `chunks` without running past the
/// engine's 32-bit list offsets.
fn batch_fits(base: usize, chunks: &Vec<Chunk>) -> (r: bool)
    requires
        base <= MAX_LIST_OFFSET,
    ensures
        r <==> base + total_block_ids(views_of_chunks(chunks@)) <= MAX_LIST_OFFSET,
{
    let ghost tv = views_of_chunks(chunks@);
    let mut acc: usize = base;
    let mut i: usize = 0;
    while i < chunks.len()
        invariant
            tv == views_of_chunks(chunks@),
            i <= chunks@.len(),
            acc <= MAX_LIST_OFFSET,
            acc == base + total_block_ids(tv.subrange(0, i as int)),
        decreases chunks@.len() - i,
    {
        let b = chunks[i].source_block_ids.len();
        proof {
            lemma_total_prefix_step(tv, i as int);
            assert(tv[i as int] == chunks@[i as int]@);
        }
        if b > MAX_LIST_OFFSET - acc {
            proof {
                lemma_total_prefix_le(tv, i as int + 1);
            }
            return false;
        }
        acc = acc + b;
        i = i + 1;
    }
    proof {
        assert(tv.subrange(0, chunks@.len() as int) =~= tv);
    }
    true
}

/// Materializes a batch of chunks into the five columns, in batch order, and
/// appends them to `data`: the original rows keep their places and contents,
/// and row `row_count + k` becomes chunk `k` of the batch. All-or-nothing: if
/// the flattened block-id column would outgrow the engine's 32-bit list
/// offsets, nothing is appended and the whole batch is rejected.
pub fn append_chunks(data: &mut ColumnarBatch, chunks: &Vec<Chunk>, ids: &Vec<u32>, dim: i32) -> (r:
    Result<usize, StoreError>)
    requires
        old(data).wf(dim as int),
        ids@.len() == chunks@.len(),
        forall|i: int| 0 <= i < chunks@.len() ==> (#[trigger] chunks@[i]@.embedding).len() == dim,
    ensures
        old(data).block_id_values@.len() + total_block_ids(views_of_chunks(chunks@))
            <= MAX_LIST_OFFSET ==> {
            &&& r == Ok::<usize, StoreError>(chunks@.len() as usize)
            &&& final(data).wf(dim as int)
            &&& final(data).row_count() == old(data).row_count() + chunks@.len()
            &&& final(data).ids@ == old(data).ids@ + ids@
            &&& final(data).block_id_values@.len() == old(data).block_id_values@.len()
                + total_block_ids(views_of_chunks(chunks@))
            &&& forall|k: int|
                0 <= k < old(data).row_count() ==> (#[trigger] final(data).row_view(k)) == old(
                    data,
                ).row_view(k)
            &&& forall|k: int|
                0 <= k < chunks@.len() ==> (#[trigger] final(data).row_view(
                    old(data).row_count() + k,
                )) == stored_view(chunks@[k]@)
            &&& final(data).rows() =~= old(data).rows() + stored_rows(views_of_chunks(chunks@))
        },
        old(data).block_id_values@.len() + total_block_ids(views_of_chunks(chunks@))
            > MAX_LIST_OFFSET ==> {
            &&& r == Err::<usize, StoreError>(StoreError::InvalidInput)
            &&& *final(data) == *old(data)
        },
{
    let ghost d0 = *data;
    let ghost tv = views_of_chunks(chunks@);
    if !batch_fits(data.block_id_values.len(), chunks) {
        return Err(StoreError::InvalidInput);
    }
    let n = chunks.len();
    let mut i: usize = 0;
    while i < n
        invariant
            n == chunks@.len(),
            ids@.len() == n,
            i <= n,
            tv == views_of_chunks(chunks@),
            forall|k: int| 0 <= k < n ==> (#[trigger] chunks@[k]@.embedding).len() == dim,
            d0.wf(dim as int),
            d0.block_id_values@.len() + total_block_ids(tv) <= MAX_LIST_OFFSET,
            data.wf(dim as int),
            data.row_count() == d0.row_count() + i,
            data.ids@ == d0.ids@ + ids@.subrange(0, i as int),
            data.block_id_values@.len() == d0.block_id_values@.len() + total_block_ids(
                tv.subrange(0, i as int),
            ),
            forall|k: int|
                0 <= k < d0.row_count() ==> (#[trigger] data.row_view(k)) == d0.row_view(k),
            forall|k: int|
                0 <= k < i ==> (#[trigger] data.row_view(d0.row_count() + k)) == stored_view(
                    chunks@[k]@,
                ),
        decreases n - i,
    {
        let ghost before = *data;
        let c = &chunks[i];
        push_all_strings(&mut data.block_id_values, &c.source_block_ids);
        let new_len = data.block_id_values.len();
        data.block_id_offsets.push(new_len);
        data.ids.push(ids[i]);
        data.file_paths.push(c.file_path.clone());
        data.texts.push(c.text.clone());
        data.embeddings.push(copy_u32_vec(&c.embedding));
        proof {
            lemma_total_prefix_step(tv, i as int);
            lemma_total_prefix_le(tv, i as int + 1);
            assert(tv[i as int] == chunks@[i as int]@);
            let m = before.row_count();
            // the offset column grew by exactly one entry, the new value count
            assert(data.block_id_offsets@ == before.block_id_offsets@.push(new_len));
            assert(before.block_id_offsets@[m] == before.block_id_values@.len());
            // rows already present keep their places and contents
            assert forall|k: int| 0 <= k < m implies (#[trigger] data.row_view(k))
                == before.row_view(k) by {
                assert(data.block_id_offsets@[k] == before.block_id_offsets@[k]);
                assert(data.block_id_offsets@[k + 1] == before.block_id_offsets@[k + 1]);
                assert(data.block_id_values@.subrange(
                    before.block_id_offsets@[k] as int,
                    before.block_id_offsets@[k + 1] as int,
                ) =~= before.block_id_values@.subrange(
                    before.block_id_offsets@[k] as int,
                    before.block_id_offsets@[k + 1] as int,
                ));
            }
            // the new row decodes to the chunk just appended
            assert(data.block_id_values@.subrange(
                before.block_id_values@.len() as int,
                data.block_id_values@.len() as int,
            ) =~= c.source_block_ids@);
            assert(data.row_block_ids(m) == c.source_block_ids@.map_values(|s: String| s@));
            assert(data.row_view(m) == stored_view(chunks@[i as int]@));
            // the ids column is the old one plus one more prefix entry
            assert(ids@.subrange(0, i + 1) =~= ids@.subrange(0, i as int).push(ids@[i as int]));
        }
        i = i + 1;
    }
    proof {
        assert(ids@.subrange(0, n as int) =~= ids@);
        assert(tv.subrange(0, n as int) =~= tv);
        assert forall|k: int| 0 <= k < d0.row_count() + n implies (#[trigger] data.rows()[k]) == (
        d0.rows() + stored_rows(tv))[k] by {
            if k < d0.row_count() {
                assert(data.row_view(k) == d0.row_view(k));
            } else {
                assert(data.row_view(d0.row_count() + (k - d0.row_count())) == stored_view(
                    chunks@[k - d0.row_count()]@,
                ));
                assert(stored_rows(tv)[k - d0.row_count()] == stored_view(tv[k - d0.row_count()]));
            }
        }
        assert(data.rows() =~= d0.rows() + stored_rows(tv));
    }
    Ok(n)
}

/// Decodes row `i` of a batch back into a `Chunk`, attaching the given score.
pub fn decode_row(data: &ColumnarBatch, i: usize, score: Option<u32>) -> (r: Chunk)
    requires
        data.wf_cols(),
        (i as int) < data.row_count(),
    ensures
        r@ == (ChunkView { score, ..data.row_view(i as int) }),
{
    let n_off = data.block_id_offsets.len();
    proof {
        assert(i < n_off - 1);
    }
    let start = data.block_id_offsets[i];
    let end = data.block_id_offsets[i + 1];
    let mut block_ids: Vec<String> = Vec::new();
    let mut j = start;
    while j < end
        invariant
            data.wf_cols(),
            (i as int) < data.row_count(),
            start == data.block_id_offsets@[i as int],
            end == data.block_id_offsets@[i as int + 1],
            start <= j <= end,
            end <= data.block_id_values@.len(),
            block_ids@ =~= data.block_id_values@.subrange(start as int, j as int),
        decreases end - j,
    {
        block_ids.push(data.block_id_values[j].clone());
        j = j + 1;
    }
    proof {
        assert(block_ids@ =~= data.block_id_values@.subrange(start as int, end as int));
    }
    Chunk {
        file_path: data.file_paths[i].clone(),
        text: data.texts[i].clone(),
        source_block_ids: block_ids,
        embedding: copy_u32_vec(&data.embeddings[i]),
        score,
    }
}

} // verus!
