use vstd::prelude::*;
use vstd::string::StrSliceExecFns;

use crate::chunk::{views_of_chunks, Chunk, ChunkView};

verus! {

/// Offset basis of the FNV-1a hash.
pub const FNV_OFFSET_BASIS: u64 = 0xcbf2_9ce4_8422_2325;

/// Prime multiplier of the FNV-1a hash.
pub const FNV_PRIME: u64 = 0x0000_0100_0000_01b3;

/// One FNV-style mixing step: fold a 64-bit value into the running hash.
pub open spec fn mix(h: u64, v: u64) -> u64 {
    vstd::wrapping::u64_specs::wrapping_mul(h ^ v, FNV_PRIME)
}

fn mix_step(h: u64, v: u64) -> (r: u64)
    ensures
        r == mix(h, v),
{
    (h ^ v).wrapping_mul(FNV_PRIME)
}

/// Folds every character of `s`, as its code point, into the running hash.
pub open spec fn hash_chars(h: u64, s: Seq<char>) -> u64
    decreases s.len(),
{
    if s.len() == 0 {
        h
    } else {
        hash_chars(mix(h, s[0] as u64), s.drop_first())
    }
}

fn hash_string(seed: u64, s: &String) -> (r: u64)
    ensures
        r == hash_chars(seed, s@),
{
    let n = s.as_str().unicode_len();
    proof {
        assert(s@.subrange(0, n as int) =~= s@);
    }
    let mut acc = seed;
    let mut i: usize = 0;
    while i < n
        invariant
            n == s@.len(),
            i <= n,
            hash_chars(acc, s@.subrange(i as int, n as int)) == hash_chars(seed, s@),
        decreases n - i,
    {
        let c = s.as_str().get_char(i);
        proof {
            let rest = s@.subrange(i as int, n as int);
            assert(rest.len() > 0);
            assert(rest[0] == s@[i as int]);
            assert(rest.drop_first() =~= s@.subrange(i as int + 1, n as int));
        }
        acc = mix_step(acc, c as u64);
        i = i + 1;
    }
    proof {
        assert(s@.subrange(n as int, n as int) =~= Seq::<char>::empty());
    }
    acc
}

/// The 32-bit row identifier derived from a chunk's content, the insertion
/// time in nanoseconds, and the chunk's position in its batch: an FNV-style
/// hash of those four inputs, truncated to 32 bits. Best-effort uniqueness,
/// not a guarantee.
pub open spec fn chunk_id(
    file_path: Seq<char>,
    text: Seq<char>,
    now_nanos: u64,
    position: u64,
) -> u32 {
    let h0 = mix(FNV_OFFSET_BASIS, file_path.len() as u64);
    let h1 = hash_chars(h0, file_path);
    let h2 = mix(h1, text.len() as u64);
    let h3 = hash_chars(h2, text);
    let h4 = mix(h3, now_nanos);
    let h5 = mix(h4, position);
    (h5 % 0x1_0000_0000) as u32
}

/// Computes the row identifier of one chunk.
pub fn chunk_row_id(c: &Chunk, now_nanos: u64, position: u64) -> (r: u32)
    ensures
        r == chunk_id(c@.file_path, c@.text, now_nanos, position),
{
    let h0 = mix_step(FNV_OFFSET_BASIS, c.file_path.as_str().unicode_len() as u64);
    let h1 = hash_string(h0, &c.file_path);
    let h2 = mix_step(h1, c.text.as_str().unicode_len() as u64);
    let h3 = hash_string(h2, &c.text);
    let h4 = mix_step(h3, now_nanos);
    let h5 = mix_step(h4, position);
    (h5 % 0x1_0000_0000) as u32
}

/// The identifiers a batch receives, in batch order.
pub open spec fn ids_of_views(chunks: Seq<ChunkView>, now_nanos: u64) -> Seq<u32> {
    Seq::new(
        chunks.len(),
        |i: int| chunk_id(chunks[i].file_path, chunks[i].text, now_nanos, i as u64),
    )
}

/// Assigns one 32-bit identifier to every chunk of a batch.
pub fn assign_ids(chunks: &Vec<Chunk>, now_nanos: u64) -> (r: Vec<u32>)
    ensures
        r@ == ids_of_views(views_of_chunks(chunks@), now_nanos),
{
    let ghost tv = views_of_chunks(chunks@);
    let mut out: Vec<u32> = Vec::new();
    let mut i: usize = 0;
    while i < chunks.len()
        invariant
            tv == views_of_chunks(chunks@),
            i <= chunks@.len(),
            out@ =~= ids_of_views(tv, now_nanos).subrange(0, i as int),
        decreases chunks@.len() - i,
    {
        let id = chunk_row_id(&chunks[i], now_nanos, i as u64);
        out.push(id);
        i = i + 1;
    }
    proof {
        assert(out@ =~= ids_of_views(tv, now_nanos));
    }
    out
}

} // verus!
