//! One region: transcoding every chunk the container yields, in order, into
//! the shared accumulation sink.

use vstd::prelude::*;

use crate::chunk::{chunk_bytes, chunk_diags, chunk_wf, encode_chunk, region_coord_ok, ChunkRecord};
use crate::diag::Diag;
use crate::pipes::MeteredPipe;
use crate::remap::RemapTable;

verus! {

/// One chunk the container yielded, with its container-relative position.
pub struct ChunkEntry {
    pub record: ChunkRecord,
    /// Relative chunk x within the region, below 32.
    pub cx: u8,
    /// Relative chunk z within the region, below 32.
    pub cz: u8,
}

/// What the transcoder requires of a yielded chunk.
pub open spec fn entry_wf(e: ChunkEntry) -> bool {
    &&& chunk_wf(e.record)
    &&& e.cx < 32
    &&& e.cz < 32
}

/// The concatenated encoded records of the first `n` chunks.
pub open spec fn region_bytes(
    table: Seq<i16>,
    rx: i32,
    rz: i32,
    entries: Seq<ChunkEntry>,
    n: int,
) -> Seq<u8>
    decreases n,
{
    if n <= 0 {
        Seq::empty()
    } else {
        region_bytes(table, rx, rz, entries, n - 1) + chunk_bytes(
            table,
            entries[n - 1].record,
            rx,
            rz,
            entries[n - 1].cx,
            entries[n - 1].cz,
        )
    }
}

/// The concatenated diagnostics of the first `n` chunks.
pub open spec fn region_diags(
    table: Seq<i16>,
    rx: i32,
    rz: i32,
    entries: Seq<ChunkEntry>,
    n: int,
) -> Seq<Diag>
    decreases n,
{
    if n <= 0 {
        Seq::empty()
    } else {
        region_diags(table, rx, rz, entries, n - 1) + chunk_diags(
            table,
            entries[n - 1].record,
            rx,
            rz,
            entries[n - 1].cx,
            entries[n - 1].cz,
        )
    }
}

/// Transcode every chunk of one region, in the order the container yielded
/// them, appending each surviving chunk's encoded record to the sink and
/// every diagnostic to `diags`.
pub fn process_region(
    table: &RemapTable,
    rx: i32,
    rz: i32,
    chunks: &Vec<ChunkEntry>,
    pipe: &mut MeteredPipe,
    diags: &mut Vec<Diag>,
)
    requires
        table.wf(),
        region_coord_ok(rx),
        region_coord_ok(rz),
        forall|i: int| 0 <= i < chunks@.len() ==> entry_wf(#[trigger] chunks@[i]),
        old(pipe).wf(),
    ensures
        final(pipe).wf(),
        final(pipe).destination@ == old(pipe).destination@ + region_bytes(
            table.entries@,
            rx,
            rz,
            chunks@,
            chunks@.len() as int,
        ),
        final(pipe).size == old(pipe).size + region_bytes(
            table.entries@,
            rx,
            rz,
            chunks@,
            chunks@.len() as int,
        ).len(),
        final(pipe).label == old(pipe).label,
        final(diags)@ == old(diags)@ + region_diags(
            table.entries@,
            rx,
            rz,
            chunks@,
            chunks@.len() as int,
        ),
{
    let n = chunks.len();
    let mut k: usize = 0;
    while k < n
        invariant
            k <= n,
            n == chunks@.len(),
            pipe.wf(),
            pipe.destination@ == old(pipe).destination@ + region_bytes(
                table.entries@,
                rx,
                rz,
                chunks@,
                k as int,
            ),
            pipe.size == old(pipe).size + region_bytes(
                table.entries@,
                rx,
                rz,
                chunks@,
                k as int,
            ).len(),
            pipe.label == old(pipe).label,
            diags@ == old(diags)@ + region_diags(table.entries@, rx, rz, chunks@, k as int),
        decreases n - k,
    {
        let entry = &chunks[k];
        let mut hunk: Vec<u8> = Vec::new();
        encode_chunk(table, &entry.record, rx, rz, entry.cx, entry.cz, &mut hunk, diags);
        pipe.write(hunk.as_slice());
        proof {
            assert(pipe.destination@ =~= old(pipe).destination@ + region_bytes(
                table.entries@,
                rx,
                rz,
                chunks@,
                k + 1 as int,
            ));
            assert(diags@ =~= old(diags)@ + region_diags(
                table.entries@,
                rx,
                rz,
                chunks@,
                k + 1 as int,
            ));
        }
        k = k + 1;
    }
}

} // verus!
