//! The execution engine, as the sandbox sees it: something that builds a
//! runnable instance from compiled code, and runs such an instance.
use vstd::prelude::*;

verus! {

/// A failure inside the engine: the code could not be loaded or linked, or a
/// run trapped.
#[derive(PartialEq, Eq, Structural, Clone, Copy, Debug)]
pub enum EngineError {
    /// The code was refused: it is malformed, or not made for this engine.
    Rejected,
    /// A run stopped before it returned a value.
    Trap,
}

/// An engine that runs capsules of instance type `I`.
pub trait CapsuleEngine<I> {
    /// Whether `instance` is one that this engine may build from `code`. An
    /// engine that states nothing of its instances allows any.
    closed spec fn builds(&self, code: Seq<u8>, instance: I) -> bool {
        true
    }

    /// Whether a run of an instance that was `before` may leave it `after`
    /// and give `out`. An engine that states nothing of its runs allows any.
    closed spec fn runs(&self, before: I, after: I, out: Result<String, EngineError>) -> bool {
        true
    }

    /// Builds a runnable instance from the complete compiled code of a capsule.
    ///
    /// The sandbox hands over only code that an authenticated, trusted peer
    /// uploaded: the engine need not defend itself against code that was not
    /// produced by its own compiler.
    fn instantiate(&self, code: &[u8]) -> (r: Result<I, EngineError>)
        ensures
            r matches Ok(instance) ==> self.builds(code@, instance),
    ;

    /// Runs an instance once and renders what it returned. Each call is a fresh
    /// run, which may change the instance's own state.
    fn run(&self, instance: &mut I) -> (r: Result<String, EngineError>)
        ensures
            self.runs(*old(instance), *final(instance), r),
    ;
}

} // verus!
