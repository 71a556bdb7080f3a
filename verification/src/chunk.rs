//! Chunk planning: a download of `total_size` bytes is split into
//! contiguous, non-overlapping byte ranges of at most `chunk_size`
//! bytes whose union is exactly `[0, total_size)`.

use vstd::prelude::*;

verus! {

/// One byte range of the target resource: the inclusive span
/// `[start, end]`, downloaded as a unit by a single worker.
#[derive(Clone, Copy, PartialEq, Eq, Structural, Debug)]
pub struct ChunkSpec {
    pub index: u64,
    pub start: u64,
    pub end: u64,
}

/// Number of chunks a plan for `total_size` bytes has when each chunk
/// holds at most `chunk_size` bytes.
pub open spec fn spec_chunk_count(total_size: u64, chunk_size: u64) -> int
    recommends
        chunk_size > 0,
{
    (total_size + chunk_size - 1) / (chunk_size as int)
}

/// The `i`-th chunk of the plan for `total_size` and `chunk_size`.
pub open spec fn spec_chunk(i: int, total_size: u64, chunk_size: u64) -> ChunkSpec
    recommends
        chunk_size > 0,
        0 <= i < spec_chunk_count(total_size, chunk_size),
{
    ChunkSpec {
        index: i as u64,
        start: (i * chunk_size) as u64,
        end: (vstd::math::min(total_size as int, (i + 1) * chunk_size) - 1) as u64,
    }
}

/// The length in bytes of an inclusive chunk range.
pub open spec fn spec_chunk_len(c: ChunkSpec) -> int {
    c.end - c.start + 1
}

/// Byte `b` falls inside the one chunk that integer division assigns
/// to it, and that chunk exists in the plan.
pub open spec fn spec_byte_covered(b: int, total_size: u64, chunk_size: u64) -> bool
    recommends
        chunk_size > 0,
{
    &&& 0 <= b / (chunk_size as int) < spec_chunk_count(total_size, chunk_size)
    &&& spec_chunk(b / (chunk_size as int), total_size, chunk_size).start <= b
    &&& b <= spec_chunk(b / (chunk_size as int), total_size, chunk_size).end
}

/// A vector holds exactly the plan for `total_size` and `chunk_size`.
pub open spec fn spec_is_plan(plan: Seq<ChunkSpec>, total_size: u64, chunk_size: u64) -> bool {
    &&& plan.len() == spec_chunk_count(total_size, chunk_size)
    &&& forall|i: int| 0 <= i < plan.len() ==> plan[i] == spec_chunk(i, total_size, chunk_size)
}

/// Compute the chunk plan covering `[0, total_size)` with chunks of at
/// most `chunk_size` bytes; the final chunk may be shorter.
pub fn plan_chunks(total_size: u64, chunk_size: u64) -> (plan: Vec<ChunkSpec>)
    requires
        chunk_size > 0,
    ensures
        spec_is_plan(plan@, total_size, chunk_size),
{
    let mut plan: Vec<ChunkSpec> = Vec::new();
    let mut start: u64 = 0;
    let mut i: u64 = 0;
    while start < total_size
        invariant
            chunk_size > 0,
            i == plan@.len(),
            start == vstd::math::min(total_size as int, i * chunk_size),
            i * chunk_size <= total_size + chunk_size - 1,
            forall|j: int| 0 <= j < i ==> plan@[j] == spec_chunk(j, total_size, chunk_size),
        decreases total_size - start,
    {
        proof {
            assert(start == i * chunk_size);
            assert((i + 1) * chunk_size == i * chunk_size + chunk_size) by (nonlinear_arith);
            assert(i <= i * chunk_size) by (nonlinear_arith)
                requires
                    chunk_size >= 1,
                    i >= 0,
            ;
        }
        let remaining = total_size - start;
        let end: u64 = if remaining > chunk_size {
            start + chunk_size - 1
        } else {
            total_size - 1
        };
        plan.push(ChunkSpec { index: i, start, end });
        assert(plan@[i as int] == spec_chunk(i as int, total_size, chunk_size));
        start = end + 1;
        i = i + 1;
    }
    proof {
        assert(i * chunk_size >= total_size);
        lemma_loop_exit_count(i as int, total_size, chunk_size);
    }
    plan
}

/// When the loop of `plan_chunks` stops after `i` chunks, `i` is the
/// ceiling of `total_size / chunk_size`.
proof fn lemma_loop_exit_count(i: int, total_size: u64, chunk_size: u64)
    requires
        chunk_size > 0,
        i >= 0,
        i * chunk_size >= total_size,
        i * chunk_size < total_size + chunk_size,
    ensures
        i == spec_chunk_count(total_size, chunk_size),
{
    assert(i == (total_size + chunk_size - 1) / (chunk_size as int)) by (nonlinear_arith)
        requires
            chunk_size > 0,
            i >= 0,
            i * chunk_size >= total_size,
            i * chunk_size < total_size + chunk_size,
    ;
}

/// The chunk ranges partition `[0, total_size)`: the first chunk starts
/// at zero, consecutive chunks are contiguous, the last chunk ends at
/// `total_size - 1`, every byte lies in exactly the chunk given by
/// division, distinct chunks never overlap, and the last chunk's length
/// is `total_size % chunk_size` when that remainder is nonzero.
pub proof fn lemma_chunk_plan_partition(total_size: u64, chunk_size: u64)
    requires
        chunk_size > 0,
    ensures
        total_size == 0 ==> spec_chunk_count(total_size, chunk_size) == 0,
        total_size > 0 ==> spec_chunk_count(total_size, chunk_size) >= 1,
        total_size > 0 ==> spec_chunk(0, total_size, chunk_size).start == 0,
        forall|i: int|
            0 <= i < spec_chunk_count(total_size, chunk_size) - 1 ==> #[trigger] spec_chunk(
                i + 1,
                total_size,
                chunk_size,
            ).start == spec_chunk(i, total_size, chunk_size).end + 1,
        total_size > 0 ==> spec_chunk(
            spec_chunk_count(total_size, chunk_size) - 1,
            total_size,
            chunk_size,
        ).end == total_size - 1,
        forall|b: int| 0 <= b < total_size ==> #[trigger] spec_byte_covered(b, total_size, chunk_size),
        forall|i: int, j: int|
            0 <= i < j < spec_chunk_count(total_size, chunk_size) ==> #[trigger] spec_chunk(
                i,
                total_size,
                chunk_size,
            ).end < #[trigger] spec_chunk(j, total_size, chunk_size).start,
        total_size % chunk_size != 0 ==> spec_chunk_len(
            spec_chunk(spec_chunk_count(total_size, chunk_size) - 1, total_size, chunk_size),
        ) == total_size % chunk_size,
        total_size > 0 && total_size % chunk_size == 0 ==> spec_chunk_len(
            spec_chunk(spec_chunk_count(total_size, chunk_size) - 1, total_size, chunk_size),
        ) == chunk_size,
        forall|i: int|
            0 <= i < spec_chunk_count(total_size, chunk_size) ==> 1 <= spec_chunk_len(
                #[trigger] spec_chunk(i, total_size, chunk_size),
            ) <= chunk_size,
{
    let t = total_size as int;
    let c = chunk_size as int;
    let n = spec_chunk_count(total_size, chunk_size);
    assert(t == 0 ==> n == 0) by (nonlinear_arith)
        requires
            c > 0,
            n == (t + c - 1) / c,
    ;
    assert(t > 0 ==> n >= 1 && (n - 1) * c < t <= n * c) by (nonlinear_arith)
        requires
            c > 0,
            t >= 0,
            n == (t + c - 1) / c,
    ;
    assert forall|i: int| 0 <= i < n implies (#[trigger] spec_chunk(i, total_size, chunk_size)).start
        == i * c && i * c + c <= t + c - 1 + c && (i + 1) * c == i * c + c by {
        assert(i * c <= (n - 1) * c && (i + 1) * c == i * c + c && i * c >= 0) by (nonlinear_arith)
            requires
                c > 0,
                0 <= i < n,
        ;
        assert((n - 1) * c < t);
    }
    assert forall|i: int| 0 <= i < n implies 1 <= spec_chunk_len(
        #[trigger] spec_chunk(i, total_size, chunk_size),
    ) <= chunk_size by {
        assert(i * c < t && i * c >= 0 && (i + 1) * c == i * c + c) by (nonlinear_arith)
            requires
                c > 0,
                0 <= i < n,
                (n - 1) * c < t,
        ;
    }
    assert forall|b: int| 0 <= b < total_size implies #[trigger] spec_byte_covered(
        b,
        total_size,
        chunk_size,
    ) by {
        let i = b / c;
        vstd::arithmetic::div_mod::lemma_remainder(b, c);
        vstd::arithmetic::div_mod::lemma_div_pos_is_pos(b, c);
        assert(i * c == b / c * c);
        assert((i + 1) * c == i * c + c) by (nonlinear_arith);
        assert(i * c <= b < i * c + c);
        assert(i < n) by (nonlinear_arith)
            requires
                c > 0,
                i * c <= b,
                b < t,
                t <= n * c,
                i >= 0,
                n >= 1,
        ;
        assert(i * c < t && i * c >= 0);
    }
    assert forall|i: int, j: int| 0 <= i < j < n implies (#[trigger] spec_chunk(
        i,
        total_size,
        chunk_size,
    )).end < (#[trigger] spec_chunk(j, total_size, chunk_size)).start by {
        assert((i + 1) * c <= j * c && (i + 1) * c == i * c + c && j * c <= (n - 1) * c && i * c
            >= 0) by (nonlinear_arith)
            requires
                c > 0,
                0 <= i < j < n,
        ;
        assert(j * c < t);
    }
    if total_size > 0 {
        assert((n - 1) * c + c == n * c && (n - 1) * c >= 0) by (nonlinear_arith)
            requires
                c > 0,
                n >= 1,
        ;
        let r = t - (n - 1) * c;
        assert(0 < r <= c);
        if r < c {
            assert(t == (n - 1) * c + r);
            vstd::arithmetic::div_mod::lemma_fundamental_div_mod_converse_mod(t, c, n - 1, r);
            assert(t % c == r);
        } else {
            assert(t == n * c + 0);
            vstd::arithmetic::div_mod::lemma_fundamental_div_mod_converse_mod(t, c, n, 0);
            assert(t % c == 0);
        }
    }
}

/// Sum of the byte lengths of the chunks `plan[0 .. k]`.
pub open spec fn spec_len_sum_prefix(plan: Seq<ChunkSpec>, k: int) -> int
    recommends
        0 <= k <= plan.len(),
    decreases k,
{
    if k <= 0 {
        0
    } else {
        spec_len_sum_prefix(plan, k - 1) + spec_chunk_len(plan[k - 1])
    }
}

/// The chunk lengths of a full plan sum to exactly the total size.
pub proof fn lemma_chunk_lens_sum_to_total(plan: Seq<ChunkSpec>, total_size: u64, chunk_size: u64)
    requires
        chunk_size > 0,
        spec_is_plan(plan, total_size, chunk_size),
    ensures
        spec_len_sum_prefix(plan, plan.len() as int) == total_size,
{
    let c = chunk_size as int;
    let t = total_size as int;
    let n = plan.len() as int;
    lemma_chunk_plan_partition(total_size, chunk_size);
    assert forall|k: int| 0 <= k <= n implies #[trigger] spec_len_sum_prefix(plan, k)
        == vstd::math::min(t, k * c) by {
        lemma_prefix_sum(plan, total_size, chunk_size, k);
    }
    assert(n * c >= t) by (nonlinear_arith)
        requires
            c > 0,
            t >= 0,
            n == (t + c - 1) / c,
    ;
}

proof fn lemma_prefix_sum(plan: Seq<ChunkSpec>, total_size: u64, chunk_size: u64, k: int)
    requires
        chunk_size > 0,
        spec_is_plan(plan, total_size, chunk_size),
        0 <= k <= plan.len(),
    ensures
        spec_len_sum_prefix(plan, k) == vstd::math::min(total_size as int, k * (chunk_size as int)),
    decreases k,
{
    let c = chunk_size as int;
    let t = total_size as int;
    if k == 0 {
        assert(vstd::math::min(t, 0) == 0) by (nonlinear_arith)
            requires
                t >= 0,
        ;
    } else {
        lemma_prefix_sum(plan, total_size, chunk_size, k - 1);
        lemma_chunk_plan_partition(total_size, chunk_size);
        assert(plan[k - 1] == spec_chunk(k - 1, total_size, chunk_size));
        assert((k - 1) * c < t) by (nonlinear_arith)
            requires
                c > 0,
                t >= 0,
                0 < k <= plan.len(),
                plan.len() == (t + c - 1) / c,
        ;
        assert(k * c == (k - 1) * c + c) by (nonlinear_arith);
        assert(spec_chunk_len(plan[k - 1]) == vstd::math::min(t, k * c) - (k - 1) * c);
        assert(vstd::math::min(t, (k - 1) * c) == (k - 1) * c);
    }
}

/// Compare an observed on-disk chunk size against the size the plan
/// expects; a mismatch marks the chunk as failed and eligible for
/// re-download.
pub fn verify_chunk_size(observed: u64, expected: u64) -> (ok: bool)
    ensures
        ok == (observed == expected),
{
    observed == expected
}

} // verus!
