//! The sandbox: one staging buffer for the upload in progress, and the
//! registry of capsules built from finished uploads.
use vstd::prelude::*;

use crate::block::{
    block_or_first, decode_block, more_of, offset_of, size_of, szx_of, RESERVED_SZX,
};
use crate::engine::{CapsuleEngine, EngineError};
use crate::host::StringRef;
use crate::registry::{run_outcome, Registry, SandboxError};

verus! {

/// The response codes of requests that were handled.
#[derive(PartialEq, Eq, Structural, Clone, Copy, Debug)]
pub enum StatusCode {
    /// A chunk was taken; the next one may follow.
    Continue,
    /// The last chunk was taken and the capsule registered.
    Created,
    /// A capsule ran; its result is the body.
    Content,
    /// The name is free now.
    Deleted,
    /// The chunk does not continue the upload in progress, or a chunk that is
    /// not the last one is short.
    RequestEntityIncomplete,
    /// There was no room for the chunk.
    RequestEntityTooLarge,
}

/// Requests that are refused as a whole.
#[derive(PartialEq, Eq, Structural, Clone, Copy, Debug)]
pub enum RequestError {
    /// The request is malformed (no resource name, a critical option that is
    /// not understood or repeated, a reserved block size), or the uploaded code
    /// was refused by the engine.
    BadRequest,
    /// The method is none of write, read and delete.
    MethodNotAllowed,
    /// No capsule is registered under the name.
    NotFound,
    /// The capsule failed while it ran.
    InternalServerError,
}

/// What a write request gives back: the block option value to echo, if any,
/// and the status.
pub type PutResult = Result<(Option<u32>, StatusCode), RequestError>;

/// The answer to a write that was handled.
pub open spec fn answer(echo: Option<u32>, status: StatusCode) -> PutResult {
    Ok((echo, status))
}

/// The answer to a write that was refused.
pub open spec fn refusal(e: RequestError) -> PutResult {
    Err(e)
}

/// The abstract state of a sandbox.
pub struct SandboxState<I> {
    /// Live capsules by resource name.
    pub registry: Map<Seq<char>, I>,
    /// The bytes of the upload in progress.
    pub staging: Seq<u8>,
}

/// The state against which a write's chunk is checked: a chunk at offset zero
/// starts a new upload, so the capsule under that name goes and the staging
/// buffer is emptied before any byte is taken, which bounds the memory in use.
pub open spec fn restarted<I>(s: SandboxState<I>, name: Seq<char>, b: u32) -> SandboxState<I> {
    if offset_of(b) == 0 {
        SandboxState { registry: s.registry.remove(name), staging: Seq::empty() }
    } else {
        s
    }
}

/// Whether a chunk of `len` bytes continues the upload in `staging`: it starts
/// where the buffer ends, and it is full-sized unless it is the last one.
pub open spec fn chunk_fits(staging: Seq<u8>, b: u32, len: nat) -> bool {
    staging.len() == offset_of(b) && (more_of(b) ==> len == size_of(b))
}

/// `s` with `payload` appended to its staging buffer.
pub open spec fn appended<I>(s: SandboxState<I>, payload: Seq<u8>) -> SandboxState<I> {
    SandboxState { registry: s.registry, staging: s.staging + payload }
}

/// The outcomes that a last chunk may have, once its bytes are in `s`: the
/// engine `e` built a capsule from exactly the staged bytes, now registered
/// under `name` with the buffer emptied, or it refused the code and nothing
/// changes.
pub open spec fn upload_finished<I, E: CapsuleEngine<I>>(
    e: E,
    s: SandboxState<I>,
    name: Seq<char>,
    b: u32,
    r: PutResult,
    post: SandboxState<I>,
) -> bool {
    ||| {
        &&& r == answer(Some(b), StatusCode::Created)
        &&& post.registry.contains_key(name)
        &&& e.builds(s.staging, post.registry[name])
        &&& post.registry.remove(name) == s.registry.remove(name)
        &&& post.staging == Seq::<u8>::empty()
    }
    ||| r == refusal(RequestError::BadRequest) && post == s
}

/// What a write of `payload` under `name` with block option `block1` may do to
/// the state `pre`, giving `r` and leaving `post`. Where more than one outcome
/// is allowed, the reservation of room or the engine `e` decided.
pub open spec fn put_step<I, E: CapsuleEngine<I>>(
    e: E,
    pre: SandboxState<I>,
    name: Seq<char>,
    block1: Option<u32>,
    payload: Seq<u8>,
    r: PutResult,
    post: SandboxState<I>,
) -> bool {
    let b = block_or_first(block1);
    if szx_of(b) == RESERVED_SZX {
        r == refusal(RequestError::BadRequest) && post == pre
    } else {
        let s1 = restarted(pre, name, b);
        if !chunk_fits(s1.staging, b, payload.len()) {
            r == answer(None, StatusCode::RequestEntityIncomplete) && post == s1
        } else if r == answer(None, StatusCode::RequestEntityTooLarge) {
            post == s1
        } else if more_of(b) {
            r == answer(Some(b), StatusCode::Continue)
                && post == appended(s1, payload)
        } else {
            upload_finished(e, appended(s1, payload), name, b, r, post)
        }
    }
}

/// Takes capsules in chunks, keeps them under resource names, runs them and
/// drops them.
///
/// There is one staging buffer for all names, so one upload can be in progress
/// at a time, from one trusted peer. An upload that is abandoned keeps its
/// bytes in the buffer until the next upload starts at offset zero.
pub struct Sandbox<I, E> {
    instances: Registry<I>,
    engine: E,
    last_received_vector: Vec<u8>,
}

impl<I, E> View for Sandbox<I, E> {
    type V = SandboxState<I>;

    closed spec fn view(&self) -> SandboxState<I> {
        SandboxState { registry: self.instances@, staging: self.last_received_vector@ }
    }
}

impl<I, E: CapsuleEngine<I>> Sandbox<I, E> {
    pub closed spec fn wf(&self) -> bool {
        self.instances.wf()
    }

    /// The engine that builds and runs this sandbox's capsules.
    pub closed spec fn engine(&self) -> E {
        self.engine
    }

    /// A sandbox with no capsules and no upload in progress, that runs its
    /// capsules on `engine`.
    pub fn new(engine: E) -> (r: Self)
        ensures
            r.wf(),
            r.engine() == engine,
            r@.registry == Map::<Seq<char>, I>::empty(),
            r@.staging == Seq::<u8>::empty(),
    {
        Sandbox { instances: Registry::new(), engine, last_received_vector: Vec::new() }
    }

    /// Number of bytes in the staging buffer.
    pub fn staged_len(&self) -> (r: usize)
        ensures
            r == self@.staging.len(),
    {
        self.last_received_vector.len()
    }

    /// Whether a capsule is registered under `name`.
    pub fn contains(&self, name: &String) -> (r: bool)
        requires
            self.wf(),
        ensures
            r == self@.registry.contains_key(name@),
    {
        self.instances.contains(name)
    }

    /// Handles one chunk of an upload to `uri_path`: `block1` is the block
    /// option of the request, where it had one, and `payload` its body.
    pub fn process_put_request(
        &mut self,
        uri_path: String,
        block1: Option<u32>,
        payload: &[u8],
    ) -> (r: PutResult)
        requires
            old(self).wf(),
        ensures
            final(self).wf(),
            final(self).engine() == old(self).engine(),
            put_step(old(self).engine(), old(self)@, uri_path@, block1, payload@, r, final(self)@),
            // A chunk out of order is refused and changes nothing.
            ({
                let b = block_or_first(block1);
                szx_of(b) != RESERVED_SZX && offset_of(b) != 0 && old(self)@.staging.len()
                    != offset_of(b) ==> r == answer(None, StatusCode::RequestEntityIncomplete)
                    && final(self)@ == old(self)@
            }),
            // Without room for a chunk that continues an upload, nothing changes.
            ({
                let b = block_or_first(block1);
                r == answer(None, StatusCode::RequestEntityTooLarge) && offset_of(b) != 0
                    ==> final(self)@ == old(self)@
            }),
    {
        let b: u32 = match block1 {
            Some(v) => v,
            None => 0,
        };
        let block = match decode_block(b) {
            Some(d) => d,
            None => return Err(RequestError::BadRequest),
        };
        if block.offset == 0 {
            // A new upload: drop the capsule it replaces before taking any byte.
            self.instances.remove(&uri_path);
            self.last_received_vector.clear();
        }
        if self.last_received_vector.len() as u64 != block.offset {
            return Ok((None, StatusCode::RequestEntityIncomplete));
        }
        if block.more && block.size != payload.len() as u64 {
            return Ok((None, StatusCode::RequestEntityIncomplete));
        }
        let reserved = self.last_received_vector.try_reserve(payload.len()).is_ok();
        self.append_chunk(uri_path, b, payload, reserved)
    }

    /// Takes a chunk that continues the upload in progress, given whether room
    /// for it could be reserved. Without room nothing changes; after the last
    /// chunk the engine builds the capsule.
    pub fn append_chunk(
        &mut self,
        uri_path: String,
        block1: u32,
        payload: &[u8],
        reserved: bool,
    ) -> (r: PutResult)
        requires
            old(self).wf(),
        ensures
            final(self).wf(),
            !reserved ==> r == answer(None, StatusCode::RequestEntityTooLarge) && final(self)@
                == old(self)@,
            reserved && more_of(block1) ==> r == answer(Some(block1), StatusCode::Continue)
                && final(self)@ == appended(old(self)@, payload@),
            final(self).engine() == old(self).engine(),
            reserved && !more_of(block1) ==> upload_finished(
                old(self).engine(),
                appended(old(self)@, payload@),
                uri_path@,
                block1,
                r,
                final(self)@,
            ),
    {
        if !reserved {
            return Ok((None, StatusCode::RequestEntityTooLarge));
        }
        self.last_received_vector.extend_from_slice(payload);
        assert(self.last_received_vector@ =~= old(self).last_received_vector@ + payload@);
        if block1 & 0x8 == 0x8 {
            Ok((Some(block1), StatusCode::Continue))
        } else {
            let outcome = self.engine.instantiate(self.last_received_vector.as_slice());
            let ghost before = self@;
            let ghost key = uri_path@;
            let r = self.finish_upload(uri_path, block1, outcome);
            assert(self@.registry.remove(key) =~= before.registry.remove(key));
            r
        }
    }

    /// Ends an upload with what the engine made of the staged code: a capsule,
    /// registered under `uri_path` in place of any other, or a refusal, which
    /// changes nothing.
    pub fn finish_upload(
        &mut self,
        uri_path: String,
        block1: u32,
        outcome: Result<I, EngineError>,
    ) -> (r: PutResult)
        requires
            old(self).wf(),
        ensures
            final(self).wf(),
            final(self).engine() == old(self).engine(),
            match outcome {
                Ok(instance) => {
                    &&& r == answer(Some(block1), StatusCode::Created)
                    &&& final(self)@.registry == old(self)@.registry.insert(uri_path@, instance)
                    &&& final(self)@.staging == Seq::<u8>::empty()
                },
                Err(_) => r == refusal(RequestError::BadRequest) && final(self)@ == old(self)@,
            },
    {
        match outcome {
            Ok(instance) => {
                self.instances.insert(uri_path, instance);
                self.last_received_vector.clear();
                Ok((Some(block1), StatusCode::Created))
            },
            Err(_) => Err(RequestError::BadRequest),
        }
    }

    /// The names of all registered capsules, each once, for a listing of the
    /// resources: a snapshot of the registry's keys.
    pub fn report(&self) -> (r: Vec<StringRef<'_>>)
        requires
            self.wf(),
        ensures
            r@.map_values(|s: StringRef| s.0@).to_set() == self@.registry.dom(),
            r@.map_values(|s: StringRef| s.0@).no_duplicates(),
    {
        self.instances.report()
    }

    /// Drops the capsule under `name`, if there is one.
    pub fn delete(&mut self, name: &String)
        requires
            old(self).wf(),
        ensures
            final(self).wf(),
            final(self).engine() == old(self).engine(),
            final(self)@ == delete_step(old(self)@, name@),
    {
        self.instances.remove(name);
    }

    /// Looks up the capsule under `uri_path` and runs it once.
    pub fn execute_capsule(&mut self, uri_path: &String) -> (r: Result<String, SandboxError>)
        requires
            old(self).wf(),
        ensures
            final(self).wf(),
            final(self).engine() == old(self).engine(),
            execute_step(old(self).engine(), old(self)@, uri_path@, r, final(self)@),
    {
        self.instances.execute(&self.engine, uri_path)
    }
}

/// The state after a delete of `name`: that name is free, all else stays.
pub open spec fn delete_step<I>(s: SandboxState<I>, name: Seq<char>) -> SandboxState<I> {
    SandboxState { registry: s.registry.remove(name), staging: s.staging }
}

/// What running the capsule under `name` on engine `e` may do: fail with
/// `NotFound` exactly when there is none, and otherwise give what the engine's
/// run of that capsule gave, a failure as `WebAssembly`. The names and the
/// staging buffer stay, and no other capsule changes.
pub open spec fn execute_step<I, E: CapsuleEngine<I>>(
    e: E,
    pre: SandboxState<I>,
    name: Seq<char>,
    r: Result<String, SandboxError>,
    post: SandboxState<I>,
) -> bool {
    &&& (r == Err::<String, SandboxError>(SandboxError::NotFound) <==> !pre.registry.contains_key(
        name,
    ))
    &&& post.registry.dom() == pre.registry.dom()
    &&& pre.registry.contains_key(name) ==> exists|out: Result<String, EngineError>|
        e.runs(pre.registry[name], post.registry[name], out) && r == run_outcome(out)
    &&& post.registry.remove(name) == pre.registry.remove(name)
    &&& post.staging == pre.staging
}

} // verus!
