//! The instance lock: at most one live record per schema.
//!
//! The registry is an ordinary value. A host that wants the lock to span the
//! process keeps one registry for the process and hands it to every load.

use crate::error::LoadError;
use vstd::prelude::*;
use vstd::string::StringExecFns;

verus! {

/// What an acquisition does to the set of loaded schemas: `None` where the
/// schema is loaded already, the set with the schema added where it is not.
pub open spec fn acquire_outcome(held: Set<Seq<char>>, schema: Seq<char>) -> Option<
    Set<Seq<char>>,
> {
    if held.contains(schema) {
        None
    } else {
        Some(held.insert(schema))
    }
}

/// The set of loaded schemas after the lock on `schema` is released.
pub open spec fn release_outcome(held: Set<Seq<char>>, schema: Seq<char>) -> Set<Seq<char>> {
    held.remove(schema)
}

/// Single instance: while a schema is loaded a second acquisition of it is
/// refused; once it is released the next one is admitted. Other schemas are
/// admitted or refused as before.
pub proof fn lemma_single_instance(held: Set<Seq<char>>, schema: Seq<char>, other: Seq<char>)
    requires
        acquire_outcome(held, schema) is Some,
        other != schema,
    ensures
        acquire_outcome(acquire_outcome(held, schema)->Some_0, schema) is None,
        acquire_outcome(release_outcome(acquire_outcome(held, schema)->Some_0, schema), schema)
            is Some,
        release_outcome(acquire_outcome(held, schema)->Some_0, schema) == held,
        acquire_outcome(acquire_outcome(held, schema)->Some_0, other) is Some <==> acquire_outcome(
            held,
            other,
        ) is Some,
{
}

/// The proof that a schema was admitted: whoever holds it holds the lock.
#[derive(Debug)]
pub struct InstanceGuard {
    schema: String,
}

impl InstanceGuard {
    /// The schema whose lock this guard holds.
    pub closed spec fn schema(&self) -> Seq<char> {
        self.schema@
    }

    /// The schema whose lock this guard holds.
    pub fn schema_name(&self) -> (name: &String)
        ensures
            name@ == self.schema(),
    {
        &self.schema
    }
}

/// The schemas that are loaded right now.
#[derive(Debug)]
pub struct InstanceRegistry {
    loaded: Vec<String>,
}

impl InstanceRegistry {
    /// The names of the loaded schemas, in the order they were admitted.
    closed spec fn names(&self) -> Seq<Seq<char>> {
        self.loaded@.map_values(|name: String| name@)
    }

    /// The schemas that are loaded right now.
    pub closed spec fn held(&self) -> Set<Seq<char>> {
        self.names().to_set()
    }

    /// A registry in which every schema is free.
    pub fn new() -> (registry: InstanceRegistry)
        ensures
            registry.held() == Set::<Seq<char>>::empty(),
    {
        let registry = InstanceRegistry { loaded: Vec::new() };
        registry
    }

    /// Where `schema` is listed, if it is.
    fn find(&self, schema: &String) -> (at: Option<usize>)
        ensures
            match at {
                Some(i) => i < self.names().len() && self.names()[i as int] == schema@,
                None => !self.names().contains(schema@),
            },
    {
        let mut i: usize = 0;
        while i < self.loaded.len()
            invariant
                i <= self.loaded.len(),
                forall|k: int| 0 <= k < i ==> self.names()[k] != schema@,
            decreases self.loaded.len() - i,
        {
            if self.loaded[i] == *schema {
                return Some(i);
            }
            i += 1;
        }
        None
    }

    /// Whether a record of `schema` is alive.
    pub fn is_loaded(&self, schema: &str) -> (loaded: bool)
        ensures
            loaded == self.held().contains(schema@),
    {
        let wanted = String::from_str(schema);
        self.find(&wanted).is_some()
    }

    /// Takes the lock on `schema`, at once or not at all: where a record of
    /// the schema is alive the call fails with `InstanceAlreadyLoaded` and the
    /// registry stays as it was.
    pub fn try_acquire(&mut self, schema: &str) -> (admitted: Result<InstanceGuard, LoadError>)
        ensures
            match admitted {
                Ok(guard) => {
                    &&& acquire_outcome(old(self).held(), schema@) == Some(final(self).held())
                    &&& guard.schema() == schema@
                },
                Err(error) => {
                    &&& acquire_outcome(old(self).held(), schema@) is None
                    &&& error is InstanceAlreadyLoaded
                    &&& final(self).held() == old(self).held()
                },
            },
    {
        let wanted = String::from_str(schema);
        if self.find(&wanted).is_some() {
            return Err(LoadError::InstanceAlreadyLoaded);
        }
        let ghost before = self.names();
        self.loaded.push(wanted.clone());
        proof {
            assert(self.names() =~= before.push(schema@));
            assert(self.names().to_set() =~= before.to_set().insert(schema@)) by {
                assert forall|name: Seq<char>|
                    self.names().to_set().contains(name) <==> before.to_set().insert(
                        schema@,
                    ).contains(name) by {
                    if before.contains(name) {
                        let k = choose|k: int| 0 <= k < before.len() && before[k] == name;
                        assert(self.names()[k] == name);
                    }
                    if name == schema@ {
                        assert(self.names()[before.len() as int] == name);
                    }
                }
            }
        }
        Ok(InstanceGuard { schema: wanted })
    }

    /// Gives the lock back: the guard's schema is free again.
    pub fn release(&mut self, guard: InstanceGuard)
        ensures
            final(self).held() == release_outcome(old(self).held(), guard.schema()),
    {
        let ghost before = self.names();
        loop
            invariant
                before == old(self).names(),
                self.names().to_set().remove(guard.schema()) == before.to_set().remove(
                    guard.schema(),
                ),
            decreases self.loaded.len(),
        {
            let ghost listed = self.names();
            match self.find(&guard.schema) {
                Some(i) => {
                    let freed = self.loaded.remove(i);
                    proof {
                        assert(self.names() =~= listed.remove(i as int));
                        lemma_remove_occurrence(listed, i as int);
                    }
                },
                None => {
                    return ;
                },
            }
        }
    }
}

/// Taking one occurrence of a name out of a list takes nothing but that name
/// out of the set of names listed.
proof fn lemma_remove_occurrence(names: Seq<Seq<char>>, at: int)
    requires
        0 <= at < names.len(),
    ensures
        names.remove(at).to_set().remove(names[at]) == names.to_set().remove(names[at]),
{
    let rest = names.remove(at);
    assert forall|name: Seq<char>|
        rest.to_set().remove(names[at]).contains(name) <==> names.to_set().remove(
            names[at],
        ).contains(name) by {
        if name != names[at] {
            if rest.contains(name) {
                let k = choose|k: int| 0 <= k < rest.len() && rest[k] == name;
                if k < at {
                    assert(names[k] == name);
                } else {
                    assert(names[k + 1] == name);
                }
            }
            if names.contains(name) {
                let k = choose|k: int| 0 <= k < names.len() && names[k] == name;
                if k < at {
                    assert(rest[k] == name);
                } else {
                    assert(rest[k - 1] == name);
                }
            }
        }
    }
    assert(rest.to_set().remove(names[at]) =~= names.to_set().remove(names[at]));
}

} // verus!
