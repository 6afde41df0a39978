//! Requests and responses of the sandbox's resource, in decoded form: the
//! options it reads, how they are picked out of a request, and how one
//! request is carried out.
use vstd::prelude::*;

use coap_message_utils::option_value::Block2RequestData;

use crate::engine::CapsuleEngine;
use crate::registry::SandboxError;
use crate::sandbox::{
    delete_step, execute_step, put_step, PutResult, RequestError, Sandbox, SandboxState,
    StatusCode,
};

verus! {

/// The block option of a read, as coap-message-utils parses it. The sandbox
/// carries it from the request to the response and never looks inside.
#[verifier::external_type_specification]
#[verifier::external_body]
pub struct ExBlock2RequestData(Block2RequestData);

/// Number of the option that holds a segment of the resource's path.
pub const URI_PATH: u16 = 11;

/// Number of the block option of a read.
pub const BLOCK2: u16 = 23;

/// Number of the block option of a write.
pub const BLOCK1: u16 = 27;

/// Request code of a read (CoAP 0.01): run the capsule.
pub const GET: u8 = 1;

/// Request code of a write (CoAP 0.03): upload a chunk of a capsule.
pub const PUT: u8 = 3;

/// Request code of a delete (CoAP 0.04): drop the capsule.
pub const DELETE: u8 = 4;

/// The value of a request option, read as far as the sandbox needs it.
pub enum OptionValue {
    /// A path segment: its text, or `None` where it is not valid UTF-8.
    UriPath(Option<String>),
    /// A block option of a write: its value, or `None` where it is too long.
    Block1(Option<u32>),
    /// A block option of a read: its value, or `None` where it is malformed.
    Block2(Option<Block2RequestData>),
    /// Any other option.
    Other,
}

/// One option of a request: its number and its value.
pub struct RequestOption {
    pub number: u16,
    pub value: OptionValue,
}

/// A request to the sandbox's resource.
pub struct Request {
    pub code: u8,
    pub options: Vec<RequestOption>,
    pub payload: Vec<u8>,
}

/// What handling a request leaves for its response: the block option value to
/// echo, the status, and for a read the block wanted and the name to run.
pub struct RequestData {
    pub block1: Option<u32>,
    pub status: StatusCode,
    pub read: Option<(Option<Block2RequestData>, String)>,
}

/// A response: its status, the block option value to echo, and for a read the
/// block wanted and the rendered result of the run.
pub struct Response {
    pub status: StatusCode,
    pub block1: Option<u32>,
    pub body: Option<(Option<Block2RequestData>, String)>,
}

/// The kinds of option that the sandbox takes out of a request.
pub enum OptionKind {
    Path,
    Block1,
    Block2,
}

/// Whether `o` is a readable option of kind `k`: it has that kind's number,
/// and a value that could be read.
pub open spec fn is_kind(o: RequestOption, k: OptionKind) -> bool {
    match k {
        OptionKind::Path => o.number == URI_PATH && o.value matches OptionValue::UriPath(Some(_)),
        OptionKind::Block1 => o.number == BLOCK1 && o.value matches OptionValue::Block1(Some(_)),
        OptionKind::Block2 => o.number == BLOCK2 && o.value matches OptionValue::Block2(Some(_)),
    }
}

/// Whether option `i` is the first readable one of kind `k`.
pub open spec fn first_of(opts: Seq<RequestOption>, i: int, k: OptionKind) -> bool {
    &&& 0 <= i < opts.len()
    &&& is_kind(opts[i], k)
    &&& forall|j: int| 0 <= j < i ==> !is_kind(#[trigger] opts[j], k)
}

/// Whether option `i` is one that the sandbox takes: the first readable one of
/// its kind. Any other is left over.
pub open spec fn taken(opts: Seq<RequestOption>, i: int) -> bool {
    first_of(opts, i, OptionKind::Path) || first_of(opts, i, OptionKind::Block1) || first_of(
        opts,
        i,
        OptionKind::Block2,
    )
}

/// Whether an option number is critical: such an option may not be ignored.
pub open spec fn critical(number: u16) -> bool {
    number & 1 == 1
}

/// Whether option `i` is left over and critical, which fails the request.
pub open spec fn refused(opts: Seq<RequestOption>, i: int) -> bool {
    !taken(opts, i) && critical(opts[i].number)
}

/// The request's resource name: the first readable path option.
pub open spec fn taken_path(opts: Seq<RequestOption>) -> Option<Seq<char>> {
    if exists|i: int| first_of(opts, i, OptionKind::Path) {
        let i = choose|i: int| first_of(opts, i, OptionKind::Path);
        Some(opts[i].value->UriPath_0->Some_0@)
    } else {
        None
    }
}

/// The request's write block option: the first readable one.
pub open spec fn taken_block1(opts: Seq<RequestOption>) -> Option<u32> {
    if exists|i: int| first_of(opts, i, OptionKind::Block1) {
        let i = choose|i: int| first_of(opts, i, OptionKind::Block1);
        Some(opts[i].value->Block1_0->Some_0)
    } else {
        None
    }
}

/// The request's read block option: the first readable one.
pub open spec fn taken_block2(opts: Seq<RequestOption>) -> Option<Block2RequestData> {
    if exists|i: int| first_of(opts, i, OptionKind::Block2) {
        let i = choose|i: int| first_of(opts, i, OptionKind::Block2);
        Some(opts[i].value->Block2_0->Some_0)
    } else {
        None
    }
}

/// The write's outcome, as a write request gives it.
pub open spec fn as_put(r: Result<RequestData, RequestError>) -> PutResult {
    match r {
        Ok(d) => Ok((d.block1, d.status)),
        Err(e) => Err(e),
    }
}

/// What a request with a resource name `path` may do, by its code, in a
/// sandbox whose engine is `e`.
pub open spec fn dispatched<I, E: CapsuleEngine<I>>(
    e: E,
    pre: SandboxState<I>,
    code: u8,
    path: Seq<char>,
    opts: Seq<RequestOption>,
    payload: Seq<u8>,
    r: Result<RequestData, RequestError>,
    post: SandboxState<I>,
) -> bool {
    if code == PUT {
        &&& put_step(e, pre, path, taken_block1(opts), payload, as_put(r), post)
        &&& r matches Ok(d) ==> d.read is None
    } else if code == GET {
        &&& r is Ok
        &&& r->Ok_0.block1 is None
        &&& r->Ok_0.status == StatusCode::Content
        &&& r->Ok_0.read is Some
        &&& r->Ok_0.read->Some_0.0 == taken_block2(opts)
        &&& r->Ok_0.read->Some_0.1@ == path
        &&& post == pre
    } else if code == DELETE {
        &&& r is Ok
        &&& r->Ok_0.block1 is None
        &&& r->Ok_0.status == StatusCode::Deleted
        &&& r->Ok_0.read is None
        &&& post == delete_step(pre, path)
    } else {
        r == Err::<RequestData, RequestError>(RequestError::MethodNotAllowed) && post == pre
    }
}

/// Relies on coap_numbers::option::get_criticality, which tells critical
/// options by the lowest bit of their number.
#[verifier::external_body]
fn is_critical(number: u16) -> (r: bool)
    ensures
        r == critical(number),
{
    match coap_numbers::option::get_criticality(number) {
        coap_numbers::option::Criticality::Critical => true,
        coap_numbers::option::Criticality::Elective => false,
    }
}

proof fn lemma_first_unique(opts: Seq<RequestOption>, i: int, j: int, k: OptionKind)
    requires
        first_of(opts, i, k),
        first_of(opts, j, k),
    ensures
        i == j,
{
    if i < j {
        assert(!is_kind(opts[i], k));
    } else if j < i {
        assert(!is_kind(opts[j], k));
    }
}

impl<I, E: CapsuleEngine<I>> Sandbox<I, E> {
    /// Picks the resource name and the block options out of a request and
    /// carries out what it asks: a write drives the upload, a delete drops the
    /// capsule, a read is left for `build_response`.
    ///
    /// The first readable option of each of the three kinds is taken; a left
    /// over critical option fails the request before anything changes, and so
    /// does a missing resource name.
    pub fn extract_request_data(&mut self, request: Request) -> (r: Result<
        RequestData,
        RequestError,
    >)
        requires
            old(self).wf(),
        ensures
            final(self).wf(),
            final(self).engine() == old(self).engine(),
            (exists|i: int| 0 <= i < request.options@.len() && refused(request.options@, i))
                ==> r == Err::<RequestData, RequestError>(RequestError::BadRequest)
                && final(self)@ == old(self)@,
            (forall|i: int| 0 <= i < request.options@.len() ==> !refused(request.options@, i))
                ==> match taken_path(request.options@) {
                None => r == Err::<RequestData, RequestError>(RequestError::BadRequest)
                    && final(self)@ == old(self)@,
                Some(path) => dispatched(
                    old(self).engine(),
                    old(self)@,
                    request.code,
                    path,
                    request.options@,
                    request.payload@,
                    r,
                    final(self)@,
                ),
            },
    {
        let Request { code, options, payload } = request;
        let ghost opts = options@;
        assert(opts == request.options@);
        let count = options.len();
        let mut rest = options;
        let mut path: Option<String> = None;
        let mut block1: Option<u32> = None;
        let mut block2: Option<Block2RequestData> = None;
        let ghost mut path_at: int = 0;
        let ghost mut block1_at: int = 0;
        let ghost mut block2_at: int = 0;
        let mut i: usize = 0;
        while rest.len() > 0
            invariant
                self.wf(),
                self@ == old(self)@,
                count == opts.len(),
                opts == request.options@,
                i + rest@.len() == opts.len(),
                rest@ == opts.subrange(i as int, opts.len() as int),
                forall|j: int| 0 <= j < i ==> !refused(opts, j),
                path is None ==> forall|j: int|
                    0 <= j < i ==> !is_kind(#[trigger] opts[j], OptionKind::Path),
                path is Some ==> path_at < i && first_of(opts, path_at, OptionKind::Path)
                    && path->Some_0@ == opts[path_at].value->UriPath_0->Some_0@,
                block1 is None ==> forall|j: int|
                    0 <= j < i ==> !is_kind(#[trigger] opts[j], OptionKind::Block1),
                block1 is Some ==> block1_at < i && first_of(opts, block1_at, OptionKind::Block1)
                    && block1->Some_0 == opts[block1_at].value->Block1_0->Some_0,
                block2 is None ==> forall|j: int|
                    0 <= j < i ==> !is_kind(#[trigger] opts[j], OptionKind::Block2),
                block2 is Some ==> block2_at < i && first_of(opts, block2_at, OptionKind::Block2)
                    && block2->Some_0 == opts[block2_at].value->Block2_0->Some_0,
            decreases rest@.len(),
        {
            let o = rest.remove(0);
            let ghost at = i as int;
            assert(o == opts[at]);
            let number = o.number;
            let was_taken = match o.value {
                OptionValue::UriPath(Some(text)) => {
                    if number == URI_PATH && path.is_none() {
                        path = Some(text);
                        proof {
                            path_at = at;
                        }
                        true
                    } else {
                        false
                    }
                },
                OptionValue::Block1(Some(value)) => {
                    if number == BLOCK1 && block1.is_none() {
                        block1 = Some(value);
                        proof {
                            block1_at = at;
                        }
                        true
                    } else {
                        false
                    }
                },
                OptionValue::Block2(Some(value)) => {
                    if number == BLOCK2 && block2.is_none() {
                        block2 = Some(value);
                        proof {
                            block2_at = at;
                        }
                        true
                    } else {
                        false
                    }
                },
                _ => false,
            };
            proof {
                if !was_taken {
                    if is_kind(opts[at], OptionKind::Path) {
                        assert(!is_kind(opts[path_at], OptionKind::Path) ==> false);
                    }
                    if is_kind(opts[at], OptionKind::Block1) {
                        assert(!is_kind(opts[block1_at], OptionKind::Block1) ==> false);
                    }
                    if is_kind(opts[at], OptionKind::Block2) {
                        assert(!is_kind(opts[block2_at], OptionKind::Block2) ==> false);
                    }
                    assert(!taken(opts, at));
                } else {
                    assert(taken(opts, at));
                }
            }
            if !was_taken && is_critical(number) {
                proof {
                    assert(refused(opts, at));
                }
                return Err(RequestError::BadRequest);
            }
            i = i + 1;
        }
        proof {
            if path is Some {
                assert forall|j: int| first_of(opts, j, OptionKind::Path) implies j == path_at by {
                    lemma_first_unique(opts, j, path_at, OptionKind::Path);
                }
            }
            if block1 is Some {
                assert forall|j: int| first_of(opts, j, OptionKind::Block1) implies j
                    == block1_at by {
                    lemma_first_unique(opts, j, block1_at, OptionKind::Block1);
                }
            }
            if block2 is Some {
                assert forall|j: int| first_of(opts, j, OptionKind::Block2) implies j
                    == block2_at by {
                    lemma_first_unique(opts, j, block2_at, OptionKind::Block2);
                }
            }
        }
        let path = match path {
            Some(p) => p,
            None => return Err(RequestError::BadRequest),
        };
        if code == PUT {
            match self.process_put_request(path, block1, payload.as_slice()) {
                Ok((echo, status)) => Ok(RequestData { block1: echo, status, read: None }),
                Err(e) => Err(e),
            }
        } else if code == GET {
            let read = Some((block2, path));
            Ok(RequestData { block1: None, status: StatusCode::Content, read })
        } else if code == DELETE {
            self.delete(&path);
            Ok(RequestData { block1: None, status: StatusCode::Deleted, read: None })
        } else {
            Err(RequestError::MethodNotAllowed)
        }
    }
}

/// The response to a read, by the outcome of the run: the rendered result
/// as the body, or the error that the outcome stands for.
pub open spec fn read_outcome(
    status: StatusCode,
    block2: Option<Block2RequestData>,
    outcome: Result<String, SandboxError>,
) -> Result<Response, RequestError> {
    match outcome {
        Ok(text) => Ok(Response { status, block1: None, body: Some((block2, text)) }),
        Err(SandboxError::NotFound) => Err(RequestError::NotFound),
        Err(SandboxError::WebAssembly) => Err(RequestError::InternalServerError),
    }
}

/// Turns the outcome of a run into the response to a read.
pub fn read_response(
    status: StatusCode,
    block2: Option<Block2RequestData>,
    outcome: Result<String, SandboxError>,
) -> (r: Result<Response, RequestError>)
    ensures
        r == read_outcome(status, block2, outcome),
{
    match outcome {
        Ok(text) => Ok(Response { status, block1: None, body: Some((block2, text)) }),
        Err(SandboxError::NotFound) => Err(RequestError::NotFound),
        Err(SandboxError::WebAssembly) => Err(RequestError::InternalServerError),
    }
}

impl<I, E: CapsuleEngine<I>> Sandbox<I, E> {
    /// Builds the response to a request that `extract_request_data` handled.
    /// A read runs its capsule now, afresh for each block that is asked for.
    pub fn build_response(&mut self, request: RequestData) -> (r: Result<Response, RequestError>)
        requires
            old(self).wf(),
        ensures
            final(self).wf(),
            final(self).engine() == old(self).engine(),
            request.block1 is Some ==> r == Ok::<Response, RequestError>(
                (Response { status: request.status, block1: request.block1, body: None }),
            ) && final(self)@ == old(self)@,
            request.block1 is None && request.read is None ==> r == Ok::<Response, RequestError>(
                (Response { status: request.status, block1: None, body: None }),
            ) && final(self)@ == old(self)@,
            request.block1 is None && request.read is Some ==> exists|
                outcome: Result<String, SandboxError>,
            |
                execute_step(old(self).engine(), old(self)@, request.read->Some_0.1@, outcome, final(self)@) && r
                    == read_outcome(request.status, request.read->Some_0.0, outcome),
    {
        let RequestData { block1, status, read } = request;
        match block1 {
            Some(b) => Ok(Response { status, block1: Some(b), body: None }),
            None => match read {
                None => Ok(Response { status, block1: None, body: None }),
                Some((block2, path)) => {
                    let outcome = self.execute_capsule(&path);
                    read_response(status, block2, outcome)
                },
            },
        }
    }
}

} // verus!
