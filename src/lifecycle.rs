//! What holds of whole sequences of requests: restarting an upload, deleting
//! twice, and uploading a capsule in several chunks.
use vstd::arithmetic::power2::{lemma_pow2_pos, pow2};
use vstd::prelude::*;

use crate::block::{more_of, num_of, offset_of, size_of, szx_of, RESERVED_SZX};
use crate::engine::CapsuleEngine;
use crate::registry::SandboxError;
use crate::request::{dispatched, RequestData, RequestOption, DELETE};
use crate::sandbox::{
    answer, appended, execute_step, put_step, refusal, restarted, upload_finished, PutResult,
    RequestError, SandboxState, StatusCode,
};

verus! {

/// A write at offset zero that does not finish an upload leaves no capsule
/// under its name: the old one is gone before any byte of the new upload is
/// taken, so a run of that name before the upload is finished is not found.
pub proof fn lemma_restart_evicts<I, E: CapsuleEngine<I>>(
    e: E,
    pre: SandboxState<I>,
    name: Seq<char>,
    block1: u32,
    payload: Seq<u8>,
    r: PutResult,
    mid: SandboxState<I>,
    run: Result<String, SandboxError>,
    post: SandboxState<I>,
)
    requires
        szx_of(block1) != RESERVED_SZX,
        offset_of(block1) == 0,
        put_step(e, pre, name, Some(block1), payload, r, mid),
        r != answer(Some(block1), StatusCode::Created),
        execute_step(e, mid, name, run, post),
    ensures
        !mid.registry.contains_key(name),
        run == Err::<String, SandboxError>(SandboxError::NotFound),
{
}

/// A delete always succeeds with `Deleted`, whether or not the name was
/// registered; a second delete of the same name changes nothing more.
pub proof fn lemma_delete_idempotent<I, E: CapsuleEngine<I>>(
    e: E,
    pre: SandboxState<I>,
    path: Seq<char>,
    opts: Seq<RequestOption>,
    payload: Seq<u8>,
    r1: Result<RequestData, RequestError>,
    mid: SandboxState<I>,
    r2: Result<RequestData, RequestError>,
    post: SandboxState<I>,
)
    requires
        dispatched(e, pre, DELETE, path, opts, payload, r1, mid),
        dispatched(e, mid, DELETE, path, opts, payload, r2, post),
    ensures
        r1 is Ok && r1->Ok_0.status == StatusCode::Deleted,
        r2 is Ok && r2->Ok_0.status == StatusCode::Deleted,
        !mid.registry.contains_key(path),
        post == mid,
        !pre.registry.contains_key(path) ==> mid == pre,
{
    assert(mid.registry.remove(path) =~= mid.registry);
    if !pre.registry.contains_key(path) {
        assert(pre.registry.remove(path) =~= pre.registry);
    }
}

/// The block option value of chunk `i` of `n`, in chunks of size exponent
/// `szx`: every chunk but the last carries the more-flag.
pub open spec fn chunk_block(i: nat, n: nat, szx: u32) -> u32 {
    ((i as u32) << 4u32) | (if i + 1 < n {
        8u32
    } else {
        0u32
    }) | szx
}

/// Chunk `i` of `code`, in chunks of `size` bytes: the last one may be short.
pub open spec fn chunk_of(code: Seq<u8>, i: nat, size: nat) -> Seq<u8> {
    let end = if (i + 1) * size < code.len() {
        (i + 1) * size
    } else {
        code.len()
    };
    code.subrange((i * size) as int, end as int)
}

proof fn lemma_chunk_block(i: nat, n: nat, szx: u32)
    requires
        i < 0x1000_0000,
        szx < RESERVED_SZX,
    ensures
        szx_of(chunk_block(i, n, szx)) == szx,
        more_of(chunk_block(i, n, szx)) == (i + 1 < n),
        num_of(chunk_block(i, n, szx)) == i,
        size_of(chunk_block(i, n, szx)) == pow2((4 + szx) as nat),
        offset_of(chunk_block(i, n, szx)) == i * pow2((4 + szx) as nat),
{
    let x = i as u32;
    let m: u32 = if i + 1 < n {
        8
    } else {
        0
    };
    let b = (x << 4u32) | m | szx;
    assert(b == chunk_block(i, n, szx));
    assert(b & 7 == szx && (b & 8 == 8) == (m == 8) && b >> 4 == x) by (bit_vector)
        requires
            x < 0x1000_0000,
            m == 0 || m == 8,
            szx < 7,
            b == (x << 4u32) | m | szx,
    ;
}

/// A chunk that continues the upload and finds room is taken.
proof fn lemma_chunk_taken<I, E: CapsuleEngine<I>>(
    e: E,
    pre: SandboxState<I>,
    name: Seq<char>,
    b: u32,
    payload: Seq<u8>,
    r: PutResult,
    post: SandboxState<I>,
)
    requires
        szx_of(b) != RESERVED_SZX,
        put_step(e, pre, name, Some(b), payload, r, post),
        r != answer(None, StatusCode::RequestEntityTooLarge),
        restarted(pre, name, b).staging.len() == offset_of(b),
        more_of(b) ==> payload.len() == size_of(b),
    ensures
        more_of(b) ==> r == answer(Some(b), StatusCode::Continue) && post == appended(
            restarted(pre, name, b),
            payload,
        ),
        !more_of(b) ==> upload_finished(
            e,
            appended(restarted(pre, name, b), payload),
            name,
            b,
            r,
            post,
        ),
{
}

/// Where chunks of `size` bytes start and end, for `n` chunks of which only
/// the last may be short and none is empty.
proof fn lemma_chunk_bounds(code: Seq<u8>, n: nat, size: nat, i: nat)
    requires
        size > 0,
        i < n,
        (n - 1) * size < code.len() <= n * size,
    ensures
        i + 1 < n ==> chunk_of(code, i, size) == code.subrange(
            (i * size) as int,
            (i * size + size) as int,
        ),
        i + 1 == n ==> chunk_of(code, i, size) == code.subrange(
            (i * size) as int,
            code.len() as int,
        ),
        i * size + size == (i + 1) * size,
        i == 0 <==> i * size == 0,
        i * size < code.len(),
        i + 1 < n ==> i * size + size < code.len(),
{
    assert(i * size + size == (i + 1) * size) by (nonlinear_arith);
    assert(i == 0 <==> i * size == 0) by (nonlinear_arith)
        requires
            size > 0,
    ;
    assert(i * size <= (n - 1) * size) by (nonlinear_arith)
        requires
            i <= n - 1,
    ;
    if i + 1 < n {
        assert((i + 1) * size <= (n - 1) * size) by (nonlinear_arith)
            requires
                i + 1 <= n - 1,
        ;
    } else {
        assert((i + 1) * size == n * size);
    }
}

/// Uploading `code` under `name` in `n` chunks of the size that `szx` gives,
/// all full but the last, which holds at least one byte: where room is found
/// for each chunk and the engine takes the code, every chunk but the last is
/// answered with `Continue` and the last one with `Created`, whatever the
/// state before. The name then has exactly one capsule, one that the engine
/// built from exactly `code`; every other name is as before, and the staging
/// buffer is empty.
pub proof fn lemma_round_trip<I, E: CapsuleEngine<I>>(
    e: E,
    name: Seq<char>,
    code: Seq<u8>,
    szx: u32,
    n: nat,
    states: Seq<SandboxState<I>>,
    results: Seq<PutResult>,
)
    requires
        szx < RESERVED_SZX,
        1 <= n <= 0x1000_0000,
        (n - 1) * pow2((4 + szx) as nat) < code.len() <= n * pow2((4 + szx) as nat),
        states.len() == n + 1,
        results.len() == n,
        forall|i: int|
            0 <= i < n ==> put_step(
                e,
                #[trigger] states[i],
                name,
                Some(chunk_block(i as nat, n, szx)),
                chunk_of(code, i as nat, pow2((4 + szx) as nat)),
                results[i],
                states[i + 1],
            ),
        forall|i: int|
            0 <= i < n ==> #[trigger] results[i] != answer(None, StatusCode::RequestEntityTooLarge),
        results[n - 1] != refusal(RequestError::BadRequest),
    ensures
        forall|i: int|
            0 <= i < n ==> #[trigger] results[i] == answer(
                Some(chunk_block(i as nat, n, szx)),
                if i + 1 < n {
                    StatusCode::Continue
                } else {
                    StatusCode::Created
                },
            ),
        states[n as int].registry.contains_key(name),
        states[n as int].registry.remove(name) == states[0].registry.remove(name),
        states[n as int].registry.dom() == states[0].registry.dom().insert(name),
        states[n as int].staging == Seq::<u8>::empty(),
        e.builds(code, states[n as int].registry[name]),
{
    let size = pow2((4 + szx) as nat);
    lemma_pow2_pos((4 + szx) as nat);
    let last = (n - 1) as nat;
    if n > 1 {
        lemma_upload_prefix(e, name, code, szx, n, states, results, last);
    }
    lemma_chunk_block(last, n, szx);
    lemma_chunk_bounds(code, n, size, last);
    let b = chunk_block(last, n, szx);
    let pre = states[last as int];
    lemma_chunk_taken(
        e,
        pre,
        name,
        b,
        chunk_of(code, last, size),
        results[last as int],
        states[n as int],
    );
    if n > 1 {
        assert(code.subrange(0, (last * size) as int) + chunk_of(code, last, size) =~= code);
    } else {
        assert(Seq::<u8>::empty() + chunk_of(code, last, size) =~= code);
    }
    let s0 = states[0];
    let fin = states[n as int];
    assert(fin.registry.remove(name) =~= s0.registry.remove(name));
    assert(fin.registry.dom() =~= s0.registry.dom().insert(name));
}

/// After the first `k` chunks, none of them the last, the staging buffer holds
/// the first `k` chunks' bytes and no capsule is registered under the name.
proof fn lemma_upload_prefix<I, E: CapsuleEngine<I>>(
    e: E,
    name: Seq<char>,
    code: Seq<u8>,
    szx: u32,
    n: nat,
    states: Seq<SandboxState<I>>,
    results: Seq<PutResult>,
    k: nat,
)
    requires
        szx < RESERVED_SZX,
        1 <= n <= 0x1000_0000,
        (n - 1) * pow2((4 + szx) as nat) < code.len() <= n * pow2((4 + szx) as nat),
        states.len() == n + 1,
        results.len() == n,
        forall|i: int|
            0 <= i < n ==> put_step(
                e,
                #[trigger] states[i],
                name,
                Some(chunk_block(i as nat, n, szx)),
                chunk_of(code, i as nat, pow2((4 + szx) as nat)),
                results[i],
                states[i + 1],
            ),
        forall|i: int|
            0 <= i < n ==> #[trigger] results[i] != answer(None, StatusCode::RequestEntityTooLarge),
        1 <= k <= n - 1,
    ensures
        states[k as int].staging == code.subrange(0, (k * pow2((4 + szx) as nat)) as int),
        states[k as int].registry == states[0].registry.remove(name),
        forall|i: int|
            0 <= i < k ==> #[trigger] results[i] == answer(
                Some(chunk_block(i as nat, n, szx)),
                StatusCode::Continue,
            ),
    decreases k,
{
    let size = pow2((4 + szx) as nat);
    lemma_pow2_pos((4 + szx) as nat);
    let i = (k - 1) as nat;
    if k > 1 {
        lemma_upload_prefix(e, name, code, szx, n, states, results, i);
    }
    lemma_chunk_block(i, n, szx);
    lemma_chunk_bounds(code, n, size, i);
    let b = chunk_block(i, n, szx);
    let pre = states[i as int];
    lemma_chunk_taken(
        e,
        pre,
        name,
        b,
        chunk_of(code, i, size),
        results[i as int],
        states[k as int],
    );
    assert(states[k as int].staging =~= code.subrange(0, (k * size) as int));
    if k == 1 {
        assert(states[0].registry.remove(name).remove(name) =~= states[0].registry.remove(name));
    }
}

} // verus!
