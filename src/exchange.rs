//! What holds of sequences of whole requests, as the sandbox's resource
//! receives them.
use vstd::arithmetic::power2::pow2;
use vstd::prelude::*;

use coap_message_utils::option_value::Block2RequestData;

use crate::block::{offset_of, szx_of, RESERVED_SZX};
use crate::engine::CapsuleEngine;
use crate::lifecycle::{chunk_block, chunk_of, lemma_restart_evicts, lemma_round_trip};
use crate::registry::SandboxError;
use crate::request::{
    as_put, dispatched, read_outcome, taken_block1, RequestData, RequestOption, Response, PUT,
};
use crate::sandbox::{
    answer, execute_step, put_step, refusal, RequestError, SandboxState, StatusCode,
};

verus! {

/// The round trip of `lemma_round_trip`, over whole write requests: `n`
/// requests to `name` whose block options number the chunks of `code` in
/// order. Where room is found for each chunk and the engine takes the code,
/// every request but the last is answered `Continue`, the last `Created`,
/// each echoing its block option and with nothing to read; the name then has
/// exactly one capsule, built from exactly `code`.
pub proof fn lemma_round_trip_requests<I, E: CapsuleEngine<I>>(
    e: E,
    name: Seq<char>,
    code: Seq<u8>,
    szx: u32,
    n: nat,
    states: Seq<SandboxState<I>>,
    opts: Seq<Seq<RequestOption>>,
    results: Seq<Result<RequestData, RequestError>>,
)
    requires
        szx < RESERVED_SZX,
        1 <= n <= 0x1000_0000,
        (n - 1) * pow2((4 + szx) as nat) < code.len() <= n * pow2((4 + szx) as nat),
        states.len() == n + 1,
        opts.len() == n,
        results.len() == n,
        forall|i: int|
            0 <= i < n ==> taken_block1(#[trigger] opts[i]) == Some(
                chunk_block(i as nat, n, szx),
            ),
        forall|i: int|
            0 <= i < n ==> dispatched(
                e,
                #[trigger] states[i],
                PUT,
                name,
                opts[i],
                chunk_of(code, i as nat, pow2((4 + szx) as nat)),
                results[i],
                states[i + 1],
            ),
        forall|i: int|
            0 <= i < n ==> as_put(#[trigger] results[i]) != answer(
                None,
                StatusCode::RequestEntityTooLarge,
            ),
        as_put(results[n - 1]) != refusal(RequestError::BadRequest),
    ensures
        forall|i: int|
            0 <= i < n ==> {
                &&& #[trigger] results[i] is Ok
                &&& results[i]->Ok_0.block1 == Some(chunk_block(i as nat, n, szx))
                &&& results[i]->Ok_0.status == if i + 1 < n {
                    StatusCode::Continue
                } else {
                    StatusCode::Created
                }
                &&& results[i]->Ok_0.read is None
            },
        states[n as int].registry.contains_key(name),
        states[n as int].registry.remove(name) == states[0].registry.remove(name),
        states[n as int].registry.dom() == states[0].registry.dom().insert(name),
        states[n as int].staging == Seq::<u8>::empty(),
        e.builds(code, states[n as int].registry[name]),
{
    let size = pow2((4 + szx) as nat);
    let put_results = Seq::new(n, |i: int| as_put(results[i]));
    assert forall|i: int| 0 <= i < n implies put_step(
        e,
        #[trigger] states[i],
        name,
        Some(chunk_block(i as nat, n, szx)),
        chunk_of(code, i as nat, size),
        put_results[i],
        states[i + 1],
    ) by {
        assert(dispatched(
            e,
            states[i],
            PUT,
            name,
            opts[i],
            chunk_of(code, i as nat, size),
            results[i],
            states[i + 1],
        ));
        assert(taken_block1(opts[i]) == Some(chunk_block(i as nat, n, szx)));
    }
    assert forall|i: int| 0 <= i < n implies #[trigger] put_results[i] != answer(
        None,
        StatusCode::RequestEntityTooLarge,
    ) by {
        assert(as_put(results[i]) != answer(None, StatusCode::RequestEntityTooLarge));
    }
    lemma_round_trip(e, name, code, szx, n, states, put_results);
    assert forall|i: int| 0 <= i < n implies {
        &&& #[trigger] results[i] is Ok
        &&& results[i]->Ok_0.block1 == Some(chunk_block(i as nat, n, szx))
        &&& results[i]->Ok_0.status == if i + 1 < n {
            StatusCode::Continue
        } else {
            StatusCode::Created
        }
        &&& results[i]->Ok_0.read is None
    } by {
        assert(put_results[i] == as_put(results[i]));
        assert(dispatched(
            e,
            states[i],
            PUT,
            name,
            opts[i],
            chunk_of(code, i as nat, size),
            results[i],
            states[i + 1],
        ));
    }
}

/// A write request to `name` whose block option starts a new upload, and
/// that does not finish it, leaves no capsule under `name`: the response to a
/// read of `name` that follows is `NotFound`, whatever the engine.
pub proof fn lemma_restart_then_read<I, E: CapsuleEngine<I>>(
    e: E,
    pre: SandboxState<I>,
    name: Seq<char>,
    opts: Seq<RequestOption>,
    payload: Seq<u8>,
    r: Result<RequestData, RequestError>,
    mid: SandboxState<I>,
    status: StatusCode,
    block2: Option<Block2RequestData>,
    run: Result<String, SandboxError>,
    post: SandboxState<I>,
)
    requires
        dispatched(e, pre, PUT, name, opts, payload, r, mid),
        taken_block1(opts) matches Some(b) && szx_of(b) != RESERVED_SZX && offset_of(b) == 0,
        !(r matches Ok(d) && d.status == StatusCode::Created),
        execute_step(e, mid, name, run, post),
    ensures
        !mid.registry.contains_key(name),
        read_outcome(status, block2, run) == Err::<Response, RequestError>(RequestError::NotFound),
{
    let b = taken_block1(opts)->Some_0;
    lemma_restart_evicts(e, pre, name, b, payload, as_put(r), mid, run, post);
}

} // verus!
