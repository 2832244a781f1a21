//! The layout of a sync directory: the export split into files, the
//! observations in numbered chunks, and a manifest that says how many
//! chunks there are. Writing and reading the files is the caller's.

use vstd::prelude::*;
use crate::models::ExportData;
use crate::text::decimal_digits;

verus! {

/// Observations per chunk file.
pub const CHUNK_SIZE: usize = 100;

/// What a sync directory holds.
#[derive(Debug, Clone)]
pub struct Manifest {
    pub version: u32,
    pub exported_at: String,
    pub machine_id: String,
    pub observation_count: usize,
    pub session_count: usize,
    pub chunk_size: usize,
    pub chunk_count: usize,
}

/// How many chunks `n` observations take.
pub open spec fn spec_chunk_count(n: nat) -> nat {
    if n == 0 { 0 } else { ((n - 1) as nat / (CHUNK_SIZE as nat) + 1) as nat }
}

/// How many chunks `n` observations take.
pub fn chunk_count(n: usize) -> (r: usize)
    ensures
        r == spec_chunk_count(n as nat),
{
    if n == 0 { 0 } else { (n - 1) / CHUNK_SIZE + 1 }
}

/// The positions `[start, end)` of the observations chunk `i` of `n` holds.
pub open spec fn spec_chunk_range(n: nat, i: nat) -> (int, int) {
    let start: int = i * CHUNK_SIZE;
    let end: int = (i + 1) * CHUNK_SIZE;
    (start as int, if end < n { end as int } else { n as int })
}

/// The positions of the observations that chunk `i` of `n` holds.
pub fn chunk_range(n: usize, i: usize) -> (r: (usize, usize))
    requires
        i < spec_chunk_count(n as nat),
    ensures
        (r.0 as int, r.1 as int) == spec_chunk_range(n as nat, i as nat),
        r.0 < r.1 <= n,
{
    assert(i * CHUNK_SIZE < n) by (nonlinear_arith)
        requires
            n > 0,
            i < (n - 1) / 100 + 1,
            CHUNK_SIZE == 100,
    ;
    let start: usize = i * CHUNK_SIZE;
    let end: usize = if n - start > CHUNK_SIZE { start + CHUNK_SIZE } else { n };
    (start, end)
}

/// The chunks split the observations into consecutive non-empty runs of
/// at most `CHUNK_SIZE`: the first starts at 0, each ends where the next
/// starts, and the last ends at `n`.
pub proof fn lemma_chunks_tile(n: nat, i: nat)
    requires
        i < spec_chunk_count(n),
    ensures
        spec_chunk_range(n, 0).0 == 0,
        spec_chunk_range(n, i).0 < spec_chunk_range(n, i).1 <= n,
        spec_chunk_range(n, i).1 - spec_chunk_range(n, i).0 <= CHUNK_SIZE,
        i + 1 < spec_chunk_count(n) ==> spec_chunk_range(n, i).1 == spec_chunk_range(n, i + 1).0,
        i + 1 == spec_chunk_count(n) ==> spec_chunk_range(n, i).1 == n,
{
    assert(i * 100 < n) by (nonlinear_arith)
        requires
            n > 0,
            i < (n - 1) / 100 + 1,
    ;
    if i + 1 < spec_chunk_count(n) {
        assert((i + 1) * 100 < n) by (nonlinear_arith)
            requires
                n > 0,
                i + 1 < (n - 1) / 100 + 1,
        ;
    }
    if i + 1 == spec_chunk_count(n) {
        assert((i + 1) * 100 >= n) by (nonlinear_arith)
            requires
                n > 0,
                i + 1 == (n - 1) / 100 + 1,
        ;
    }
}

/// `d` as at least four decimal digits, zero-padded on the left.
pub open spec fn padded4(d: nat) -> Seq<char> {
    let digits = decimal_digits(d);
    if digits.len() < 4 {
        Seq::new((4 - digits.len()) as nat, |k: int| '0') + digits
    } else {
        digits
    }
}

/// The file name of chunk `i`: `chunk_` and `i` zero-padded to four
/// digits, then `.json`.
pub open spec fn spec_chunk_file_name(i: nat) -> Seq<char> {
    "chunk_"@ + padded4(i) + ".json"@
}

/// The file name of chunk `i`.
pub fn chunk_file_name(i: usize) -> (r: String)
    ensures
        r@ == spec_chunk_file_name(i as nat),
{
    let digits = crate::text::decimal(i as u64);
    let mut out = String::from_str("chunk_");
    let ghost before = out@;
    let mut pad: usize = 0;
    let n: usize = crate::text::chars_of(digits.as_str()).len();
    let ghost d = decimal_digits(i as nat);
    while pad + n < 4
        invariant
            n == d.len(),
            out@ == before + Seq::new(pad as nat, |k: int| '0'),
            pad + n <= 4 || pad == 0,
        decreases 4 - pad - n,
    {
        out.push('0');
        pad += 1;
        proof {
            assert(out@ =~= before + Seq::new(pad as nat, |k: int| '0'));
        }
    }
    out.append(digits.as_str());
    out.append(".json");
    proof {
        reveal_strlit("chunk_");
        reveal_strlit(".json");
        if d.len() < 4 {
            assert(pad == 4 - d.len());
        } else {
            assert(pad == 0);
            assert(Seq::new(0nat, |k: int| '0') + d =~= d);
        }
        assert(out@ =~= spec_chunk_file_name(i as nat));
    }
    out
}

/// The manifest of an export written at `exported_at` from `machine_id`.
pub fn manifest_for(data: &ExportData, exported_at: String, machine_id: String) -> (r: Manifest)
    ensures
        r.version == data.version,
        r.exported_at@ == exported_at@,
        r.machine_id@ == machine_id@,
        r.observation_count == data.observations@.len(),
        r.session_count == data.sessions@.len(),
        r.chunk_size == CHUNK_SIZE,
        r.chunk_count == spec_chunk_count(data.observations@.len()),
{
    Manifest {
        version: data.version,
        exported_at,
        machine_id,
        observation_count: data.observations.len(),
        session_count: data.sessions.len(),
        chunk_size: CHUNK_SIZE,
        chunk_count: chunk_count(data.observations.len()),
    }
}

} // verus!
