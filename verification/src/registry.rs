//! The registry of independent sources of uncertainty.

use std::collections::HashMap;
use vstd::prelude::*;

verus! {

broadcast use vstd::std_specs::hash::group_hash_axioms;

/// What a [`Registry`] holds: the identifier it will issue next and the
/// standard deviation recorded for every identifier issued so far.
pub struct RegistryModel<T> {
    pub next_id: u64,
    pub sigmas: Map<u64, T>,
}

impl<T> RegistryModel<T> {
    /// The registry that has issued nothing.
    pub open spec fn empty() -> Self {
        RegistryModel { next_id: 0, sigmas: Map::empty() }
    }

    /// Only identifiers that were issued have a standard deviation.
    pub open spec fn wf(self) -> bool {
        forall|id: u64| self.sigmas.contains_key(id) ==> id < self.next_id
    }

    /// `count` more identifiers can be issued.
    pub open spec fn has_room(self, count: nat) -> bool {
        self.next_id + count <= u64::MAX
    }

    /// The registry after issuing `next_id` for a source of standard
    /// deviation `sigma`.
    pub open spec fn allocate(self, sigma: T) -> Self {
        RegistryModel {
            next_id: (self.next_id + 1) as u64,
            sigmas: self.sigmas.insert(self.next_id, sigma),
        }
    }

    /// The registry after issuing one identifier for each of `sigmas`, in
    /// order: the source of `sigmas[i]` gets the identifier `next_id + i`.
    pub open spec fn allocate_all(self, sigmas: Seq<T>) -> Self {
        RegistryModel {
            next_id: (self.next_id + sigmas.len()) as u64,
            sigmas: Map::new(
                |id: u64|
                    self.sigmas.contains_key(id) || self.next_id <= id < self.next_id
                        + sigmas.len(),
                |id: u64|
                    if self.next_id <= id < self.next_id + sigmas.len() {
                        sigmas[id - self.next_id]
                    } else {
                        self.sigmas[id]
                    },
            ),
        }
    }
}

/// Issuing an identifier keeps the registry well formed and every entry it
/// had as it was: entries are added, never changed or removed.
pub proof fn lemma_allocate_keeps_entries<T>(registry: RegistryModel<T>, sigma: T)
    requires
        registry.wf(),
        registry.has_room(1),
    ensures
        registry.allocate(sigma).wf(),
        !registry.sigmas.contains_key(registry.next_id),
        registry.allocate(sigma).sigmas.contains_key(registry.next_id),
        registry.allocate(sigma).sigmas[registry.next_id] == sigma,
        forall|id: u64| #[trigger]
            registry.sigmas.contains_key(id) ==> registry.allocate(sigma).sigmas.contains_key(id)
                && registry.allocate(sigma).sigmas[id] == registry.sigmas[id],
{
}

/// Issuing identifiers for a sequence of sources is issuing them one by one.
pub proof fn lemma_allocate_all_step<T>(registry: RegistryModel<T>, sigmas: Seq<T>, sigma: T)
    requires
        registry.has_room(sigmas.len() + 1),
    ensures
        registry.allocate_all(sigmas.push(sigma)) == registry.allocate_all(sigmas).allocate(sigma),
{
    let stepwise = registry.allocate_all(sigmas).allocate(sigma);
    let at_once = registry.allocate_all(sigmas.push(sigma));
    assert(at_once.sigmas =~= stepwise.sigmas);
}

/// Issuing identifiers for no source leaves the registry as it is.
pub proof fn lemma_allocate_none<T>(registry: RegistryModel<T>)
    ensures
        registry.allocate_all(Seq::empty()) == registry,
{
    assert(registry.allocate_all(Seq::empty()).sigmas =~= registry.sigmas);
}

/// Issuing identifiers for a sequence of sources keeps the registry well
/// formed and every entry it had as it was.
pub proof fn lemma_allocate_all_keeps_entries<T>(registry: RegistryModel<T>, sigmas: Seq<T>)
    requires
        registry.wf(),
        registry.has_room(sigmas.len()),
    ensures
        registry.allocate_all(sigmas).wf(),
        forall|i: int|
            0 <= i < sigmas.len() ==> !registry.sigmas.contains_key(
                #[trigger] ((registry.next_id + i) as u64),
            ),
        forall|id: u64| #[trigger]
            registry.sigmas.contains_key(id) ==> registry.allocate_all(sigmas).sigmas.contains_key(
                id,
            ) && registry.allocate_all(sigmas).sigmas[id] == registry.sigmas[id],
{
}

/// Maps each independent source of uncertainty to its standard deviation and
/// issues the identifiers of new sources.
///
/// Identifiers are issued in increasing order and never again; an entry, once
/// made, is neither removed nor changed.
pub struct Registry<T> {
    next_id: u64,
    sigmas: HashMap<u64, T>,
}

impl<T> View for Registry<T> {
    type V = RegistryModel<T>;

    closed spec fn view(&self) -> RegistryModel<T> {
        RegistryModel { next_id: self.next_id, sigmas: self.sigmas@ }
    }
}

impl<T: Copy> Registry<T> {
    /// A registry that has issued nothing.
    pub fn new() -> (registry: Self)
        ensures
            registry@ == RegistryModel::<T>::empty(),
            registry@.wf(),
    {
        Registry { next_id: 0, sigmas: HashMap::new() }
    }

    /// Whether `count` more identifiers can be issued.
    pub fn has_room(&self, count: usize) -> (yes: bool)
        ensures
            yes == self@.has_room(count as nat),
    {
        count as u64 <= u64::MAX - self.next_id
    }

    /// Issues a new identifier and records `sigma` as its standard deviation.
    pub fn allocate(&mut self, sigma: T) -> (id: u64)
        requires
            old(self)@.wf(),
            old(self)@.has_room(1),
        ensures
            id == old(self)@.next_id,
            !old(self)@.sigmas.contains_key(id),
            final(self)@ == old(self)@.allocate(sigma),
            final(self)@.wf(),
    {
        let id: u64 = self.next_id;
        self.next_id = id + 1;
        self.sigmas.insert(id, sigma);
        id
    }

    /// The standard deviation recorded for `id`, if `id` was issued here.
    pub fn lookup(&self, id: u64) -> (sigma: Option<T>)
        ensures
            sigma == self@.sigmas.get(id),
    {
        match self.sigmas.get(&id) {
            Some(s) => Some(*s),
            None => None,
        }
    }
}

} // verus!
