//! The instance registry: live capsule instances, each under a unique resource
//! name.
use vstd::prelude::*;

use crate::engine::{CapsuleEngine, EngineError};
use crate::host::StringRef;

verus! {

/// Why running a capsule produced no value.
#[derive(PartialEq, Eq, Structural, Clone, Copy, Debug)]
pub enum SandboxError {
    /// The engine failed to load or to run the capsule.
    WebAssembly,
    /// No capsule is registered under the name.
    NotFound,
}

/// What a run's outcome comes to for the sandbox: the rendered result, or
/// `WebAssembly` for any failure inside the engine.
pub open spec fn run_outcome(out: Result<String, EngineError>) -> Result<String, SandboxError> {
    match out {
        Ok(text) => Ok(text),
        Err(_) => Err(SandboxError::WebAssembly),
    }
}

/// Turns the outcome of a run into the sandbox's result.
pub fn run_result(out: Result<String, EngineError>) -> (r: Result<String, SandboxError>)
    ensures
        r == run_outcome(out),
{
    match out {
        Ok(text) => Ok(text),
        Err(_) => Err(SandboxError::WebAssembly),
    }
}

/// Maps resource names to live instances. Lookups go by exact name; the order
/// of the names carries no meaning.
pub struct Registry<I> {
    entries: Vec<(String, I)>,
    map: Ghost<Map<Seq<char>, I>>,
}

impl<I> View for Registry<I> {
    type V = Map<Seq<char>, I>;

    closed spec fn view(&self) -> Map<Seq<char>, I> {
        self.map@
    }
}

impl<I> Registry<I> {
    /// The entries hold each name once, and hold exactly what the map says.
    pub closed spec fn wf(&self) -> bool {
        &&& forall|i: int, j: int|
            0 <= i < self.entries@.len() && 0 <= j < self.entries@.len() && i != j
                ==> #[trigger] self.entries@[i].0@ != #[trigger] self.entries@[j].0@
        &&& forall|i: int|
            0 <= i < self.entries@.len() ==> #[trigger] self.map@.contains_key(
                self.entries@[i].0@,
            ) && self.map@[self.entries@[i].0@] == self.entries@[i].1
        &&& forall|k: Seq<char>|
            #[trigger] self.map@.contains_key(k) ==> exists|i: int|
                0 <= i < self.entries@.len() && #[trigger] self.entries@[i].0@ == k
    }

    /// The names in the order in which `report` lists them.
    pub closed spec fn names(&self) -> Seq<Seq<char>> {
        self.entries@.map_values(|e: (String, I)| e.0@)
    }

    /// An empty registry.
    pub fn new() -> (r: Self)
        ensures
            r.wf(),
            r@ == Map::<Seq<char>, I>::empty(),
    {
        Registry { entries: Vec::new(), map: Ghost(Map::empty()) }
    }

    /// The position of the entry under `name`, if there is one.
    fn find(&self, name: &String) -> (r: Option<usize>)
        requires
            self.wf(),
        ensures
            match r {
                Some(i) => i < self.entries@.len() && self.entries@[i as int].0@ == name@,
                None => !self@.contains_key(name@),
            },
    {
        let mut i: usize = 0;
        while i < self.entries.len()
            invariant
                self.wf(),
                i <= self.entries@.len(),
                forall|j: int| 0 <= j < i ==> #[trigger] self.entries@[j].0@ != name@,
            decreases self.entries@.len() - i,
        {
            if self.entries[i].0 == *name {
                return Some(i);
            }
            i = i + 1;
        }
        None
    }

    /// Whether a capsule is registered under `name`.
    pub fn contains(&self, name: &String) -> (r: bool)
        requires
            self.wf(),
        ensures
            r == self@.contains_key(name@),
    {
        match self.find(name) {
            Some(i) => {
                proof {
                    assert(self@.contains_key(self.entries@[i as int].0@));
                }
                true
            },
            None => false,
        }
    }

    /// Number of registered capsules.
    pub fn len(&self) -> (r: usize)
        requires
            self.wf(),
        ensures
            r == self@.len(),
    {
        proof {
            self.lemma_len();
        }
        self.entries.len()
    }

    proof fn lemma_len(&self)
        requires
            self.wf(),
        ensures
            self@.dom().finite(),
            self@.len() == self.entries@.len(),
    {
        self.lemma_names();
        self.names().unique_seq_to_set();
    }

    /// Registers `instance` under `name`, dropping any instance that was there.
    pub fn insert(&mut self, name: String, instance: I)
        requires
            old(self).wf(),
        ensures
            final(self).wf(),
            final(self)@ == old(self)@.insert(name@, instance),
    {
        let ghost key = name@;
        match self.find(&name) {
            Some(i) => {
                self.entries.set(i, (name, instance));
                self.map = Ghost(self.map@.insert(key, instance));
                proof {
                    assert forall|k: Seq<char>| #[trigger]
                        self.map@.contains_key(k) implies exists|j: int|
                        0 <= j < self.entries@.len() && #[trigger] self.entries@[j].0@ == k by {
                        if k != key {
                            let j = choose|j: int|
                                0 <= j < old(self).entries@.len()
                                    && #[trigger] old(self).entries@[j].0@ == k;
                            assert(self.entries@[j].0@ == k);
                        } else {
                            assert(self.entries@[i as int].0@ == k);
                        }
                    }
                }
            },
            None => {
                self.entries.push((name, instance));
                self.map = Ghost(self.map@.insert(key, instance));
                proof {
                    let n = self.entries@.len() - 1;
                    assert forall|a: int| 0 <= a < n implies #[trigger] self.entries@[a].0@
                        != key by {
                        assert(old(self).map@.contains_key(old(self).entries@[a].0@));
                    }
                    assert forall|k: Seq<char>| #[trigger]
                        self.map@.contains_key(k) implies exists|j: int|
                        0 <= j < self.entries@.len() && #[trigger] self.entries@[j].0@ == k by {
                        if k != key {
                            let j = choose|j: int|
                                0 <= j < old(self).entries@.len()
                                    && #[trigger] old(self).entries@[j].0@ == k;
                            assert(self.entries@[j].0@ == k);
                        } else {
                            assert(self.entries@[n].0@ == k);
                        }
                    }
                }
            },
        }
    }

    /// Drops the instance under `name`. A name that is not registered is no
    /// error: the registry then stays as it is.
    pub fn remove(&mut self, name: &String)
        requires
            old(self).wf(),
        ensures
            final(self).wf(),
            final(self)@ == old(self)@.remove(name@),
    {
        match self.find(name) {
            Some(i) => {
                let _ = self.entries.remove(i);
                self.map = Ghost(self.map@.remove(name@));
                proof {
                    let o = old(self).entries@;
                    assert forall|a: int|
                        0 <= a < self.entries@.len() implies #[trigger] self.entries@[a].0@
                        != name@ by {
                        if a < i {
                            assert(o[a] == self.entries@[a]);
                            assert(o[a].0@ != o[i as int].0@);
                        } else {
                            assert(o[a + 1] == self.entries@[a]);
                            assert(o[a + 1].0@ != o[i as int].0@);
                        }
                    }
                    assert forall|k: Seq<char>| #[trigger]
                        self.map@.contains_key(k) implies exists|j: int|
                        0 <= j < self.entries@.len() && #[trigger] self.entries@[j].0@ == k by {
                        let j = choose|j: int| 0 <= j < o.len() && #[trigger] o[j].0@ == k;
                        if j < i {
                            assert(self.entries@[j].0@ == k);
                        } else {
                            assert(self.entries@[j - 1].0@ == k);
                        }
                    }
                    assert forall|a: int, b: int|
                        0 <= a < self.entries@.len() && 0 <= b < self.entries@.len() && a != b
                            implies #[trigger] self.entries@[a].0@
                        != #[trigger] self.entries@[b].0@ by {
                        let a2 = if a < i { a } else { a + 1 };
                        let b2 = if b < i { b } else { b + 1 };
                        assert(o[a2].0@ != o[b2].0@);
                    }
                }
            },
            None => {
                proof {
                    assert(self.map@ =~= self.map@.remove(name@));
                }
            },
        }
    }

    /// Looks up the capsule under `name` and runs it once on `engine`. The set
    /// of names stays as it is, and so does every other instance; the one that
    /// ran may have changed its own state.
    pub fn execute<E: CapsuleEngine<I>>(&mut self, engine: &E, name: &String) -> (r: Result<
        String,
        SandboxError,
    >)
        requires
            old(self).wf(),
        ensures
            final(self).wf(),
            final(self)@.dom() == old(self)@.dom(),
            final(self)@.remove(name@) == old(self)@.remove(name@),
            r == Err::<String, SandboxError>(SandboxError::NotFound) <==> !old(self)@.contains_key(
                name@,
            ),
            old(self)@.contains_key(name@) ==> exists|out: Result<String, EngineError>|
                engine.runs(old(self)@[name@], final(self)@[name@], out) && r == run_outcome(out),
    {
        match self.find(name) {
            None => Err(SandboxError::NotFound),
            Some(i) => {
                let outcome = engine.run(&mut self.entries[i].1);
                let ghost key = self.entries@[i as int].0@;
                self.map = Ghost(self.map@.insert(key, self.entries@[i as int].1));
                proof {
                    let o = old(self).entries@;
                    assert(self.map@.remove(name@) =~= old(self).map@.remove(name@));
                    assert(self.map@.dom() =~= old(self).map@.dom());
                    assert forall|k: Seq<char>| #[trigger]
                        self.map@.contains_key(k) implies exists|j: int|
                        0 <= j < self.entries@.len() && #[trigger] self.entries@[j].0@ == k by {
                        let j = choose|j: int| 0 <= j < o.len() && #[trigger] o[j].0@ == k;
                        assert(self.entries@[j].0@ == k);
                    }
                }
                run_result(outcome)
            },
        }
    }

    /// The names of all registered capsules, each once: a snapshot of the keys.
    pub fn report(&self) -> (r: Vec<StringRef<'_>>)
        requires
            self.wf(),
        ensures
            r@.len() == self.names().len(),
            forall|i: int| 0 <= i < r@.len() ==> #[trigger] r@[i].0@ == self.names()[i],
            r@.map_values(|s: StringRef| s.0@).to_set() == self@.dom(),
            r@.map_values(|s: StringRef| s.0@).no_duplicates(),
    {
        let mut out: Vec<StringRef<'_>> = Vec::new();
        let mut i: usize = 0;
        while i < self.entries.len()
            invariant
                self.wf(),
                i <= self.entries@.len(),
                out@.len() == i,
                forall|j: int| 0 <= j < i ==> #[trigger] out@[j].0@ == self.names()[j],
            decreases self.entries@.len() - i,
        {
            out.push(StringRef(self.entries[i].0.as_str()));
            i = i + 1;
        }
        proof {
            let listed = out@.map_values(|s: StringRef| s.0@);
            assert(listed =~= self.names());
            self.lemma_names();
        }
        out
    }

    proof fn lemma_names(&self)
        requires
            self.wf(),
        ensures
            self.names().to_set() == self@.dom(),
            self.names().no_duplicates(),
    {
        let names = self.names();
        assert forall|i: int, j: int|
            0 <= i < names.len() && 0 <= j < names.len() && i != j implies names[i]
            != names[j] by {
            assert(self.entries@[i].0@ != self.entries@[j].0@);
        }
        assert(names.to_set() =~= self@.dom()) by {
            assert forall|k: Seq<char>| self@.dom().contains(k) implies names.to_set().contains(
                k,
            ) by {
                let i = choose|i: int|
                    0 <= i < self.entries@.len() && #[trigger] self.entries@[i].0@ == k;
                assert(names[i] == k);
            }
            assert forall|k: Seq<char>| names.to_set().contains(k) implies self@.dom().contains(
                k,
            ) by {
                let i = choose|i: int| 0 <= i < names.len() && names[i] == k;
                assert(self@.contains_key(self.entries@[i].0@));
            }
        }
    }
}

} // verus!
