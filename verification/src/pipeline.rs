//! The system pipeline: which systems run in a tick, in what order, and on
//! which stores.
//!
//! A pipeline is built by registration. A system names the systems it runs
//! after; those must be registered already, so the dependency graph can hold
//! no cycle and the order of registration is an order every dependency
//! agrees with. The pipeline decides; running the systems is the caller's.

use vstd::prelude::*;

verus! {

/// Identifies a component store or a resource.
pub type StoreId = u32;

/// One registered system.
pub struct SystemEntry {
    /// The system's name; empty for a system nobody can depend on.
    pub name: String,
    /// Positions of the systems that run before this one.
    pub after: Vec<usize>,
    /// Stores the system reads.
    pub reads: Vec<StoreId>,
    /// Stores the system writes.
    pub writes: Vec<StoreId>,
}

/// Why a registration was refused.
#[derive(Debug, Clone, Copy, PartialEq, Eq, Structural)]
pub enum PipelineError {
    /// The dependency at `position` of the list names no registered system.
    UnknownDependency { position: usize },
    /// A system of that name is registered already.
    DuplicateName,
    /// The system reads or writes `store`, which the world does not have.
    UnknownStore { store: StoreId },
}

/// The position of the system called `name` among `names`, if there is one.
/// The empty name is nobody's.
pub open spec fn position_of(names: Seq<Seq<char>>, name: Seq<char>) -> Option<int> {
    if name.len() > 0 && exists|i: int| 0 <= i < names.len() && names[i] == name {
        Some(choose|i: int| 0 <= i < names.len() && names[i] == name)
    } else {
        None
    }
}

/// Whether every name of `wanted[..upto]` is a registered system's.
pub open spec fn all_known(names: Seq<Seq<char>>, wanted: Seq<Seq<char>>, upto: int) -> bool {
    forall|j: int| 0 <= j < upto ==> position_of(names, #[trigger] wanted[j]) is Some
}

/// Whether `wanted[at]` is the first store of `wanted` that is not among
/// `stores`.
pub open spec fn missing_at(stores: Seq<StoreId>, wanted: Seq<StoreId>, at: int) -> bool {
    &&& 0 <= at < wanted.len()
    &&& !stores.contains(wanted[at])
    &&& forall|k: int| 0 <= k < at ==> stores.contains(#[trigger] wanted[k])
}

/// The first store of `wanted` that is not among `stores`, if there is one.
pub open spec fn first_missing(stores: Seq<StoreId>, wanted: Seq<StoreId>) -> Option<StoreId> {
    if exists|at: int| missing_at(stores, wanted, at) {
        Some(wanted[choose|at: int| missing_at(stores, wanted, at)])
    } else {
        None
    }
}

/// Whether two systems may not run at the same time: one writes a store that
/// the other reads or writes.
pub open spec fn systems_conflict(a: SystemEntry, b: SystemEntry) -> bool {
    exists|s: StoreId|
        (a.writes@.contains(s) && (b.reads@.contains(s) || b.writes@.contains(s))) || (
        b.writes@.contains(s) && a.reads@.contains(s))
}

/// An ordered list of systems over a fixed set of stores.
pub struct Pipeline {
    stores: Vec<StoreId>,
    systems: Vec<SystemEntry>,
}

impl Pipeline {
    /// The stores of the world the pipeline is for.
    pub closed spec fn stores(&self) -> Seq<StoreId> {
        self.stores@
    }

    /// The registered systems, in order of registration.
    pub closed spec fn systems(&self) -> Seq<SystemEntry> {
        self.systems@
    }

    /// The names of the registered systems, in order of registration.
    pub open spec fn names(&self) -> Seq<Seq<char>> {
        Seq::new(self.systems().len(), |i: int| self.systems()[i].name@)
    }

    /// Every dependency points to an earlier system, no name is used twice,
    /// and every store a system touches is one of the world's.
    pub open spec fn wf(&self) -> bool {
        &&& forall|i: int, j: int|
            0 <= i < self.systems().len() && 0 <= j < self.systems()[i].after@.len()
                ==> #[trigger] self.systems()[i].after@[j] < i
        &&& forall|i: int, j: int|
            0 <= i < j < self.systems().len() && self.systems()[i].name@.len() > 0
                ==> self.systems()[i].name@ != self.systems()[j].name@
        &&& forall|i: int|
            0 <= i < self.systems().len() ==> first_missing(
                self.stores(),
                #[trigger] self.systems()[i].reads@,
            ) is None && first_missing(self.stores(), self.systems()[i].writes@) is None
    }

    /// An empty pipeline for a world with the given stores.
    pub fn new(stores: Vec<StoreId>) -> (pipeline: Pipeline)
        ensures
            pipeline.wf(),
            pipeline.stores() == stores@,
            pipeline.systems().len() == 0,
    {
        Pipeline { stores, systems: Vec::new() }
    }

    /// How many systems are registered.
    pub fn len(&self) -> (count: usize)
        ensures
            count == self.systems().len(),
    {
        self.systems.len()
    }

    /// The system at `position`.
    pub fn system(&self, position: usize) -> (entry: &SystemEntry)
        requires
            position < self.systems().len(),
        ensures
            *entry == self.systems()[position as int],
    {
        &self.systems[position]
    }

    /// The position of the system called `name`.
    pub fn find(&self, name: &str) -> (found: Option<usize>)
        requires
            self.wf(),
        ensures
            found is Some == position_of(self.names(), name@) is Some,
            found is Some ==> found.unwrap() == position_of(self.names(), name@).unwrap(),
            found is Some ==> found.unwrap() < self.systems().len() && self.systems()[found.unwrap() as int].name@
                == name@,
    {
        if name.unicode_len() == 0 {
            return None;
        }
        let wanted: String = name.to_owned();
        let mut i: usize = 0;
        while i < self.systems.len()
            invariant
                0 <= i <= self.systems.len(),
                wanted@ == name@,
                name@.len() > 0,
                self.wf(),
                forall|k: int| 0 <= k < i ==> self.names()[k] != name@,
            decreases self.systems.len() - i,
        {
            if self.systems[i].name == wanted {
                proof {
                    assert(self.names()[i as int] == name@);
                    let chosen = position_of(self.names(), name@).unwrap();
                    assert(self.names()[chosen] == name@);
                    assert(chosen == i) by {
                        if chosen < i {
                            assert(self.names()[chosen] != name@);
                        } else if chosen > i {
                            assert(self.systems()[i as int].name@ != self.systems()[chosen].name@);
                        }
                    }
                }
                return Some(i);
            }
            i = i + 1;
        }
        None
    }

    /// Whether `store` is one of the world's.
    fn has_store(&self, store: StoreId) -> (yes: bool)
        ensures
            yes == self.stores().contains(store),
    {
        let mut i: usize = 0;
        while i < self.stores.len()
            invariant
                0 <= i <= self.stores.len(),
                forall|k: int| 0 <= k < i ==> self.stores@[k] != store,
            decreases self.stores.len() - i,
        {
            if self.stores[i] == store {
                return true;
            }
            i = i + 1;
        }
        false
    }

    /// The first store of `wanted` that the world lacks.
    fn missing_store(&self, wanted: &Vec<StoreId>) -> (missing: Option<StoreId>)
        ensures
            missing == first_missing(self.stores(), wanted@),
    {
        let mut i: usize = 0;
        while i < wanted.len()
            invariant
                0 <= i <= wanted.len(),
                forall|k: int| 0 <= k < i ==> self.stores().contains(#[trigger] wanted@[k]),
            decreases wanted.len() - i,
        {
            if !self.has_store(wanted[i]) {
                proof {
                    assert(missing_at(self.stores(), wanted@, i as int));
                    let at = choose|at: int| missing_at(self.stores(), wanted@, at);
                    assert(at == i) by {
                        if at < i {
                            assert(self.stores().contains(wanted@[at]));
                        } else if at > i {
                            assert(self.stores().contains(wanted@[i as int]));
                        }
                    }
                }
                return Some(wanted[i]);
            }
            i = i + 1;
        }
        proof {
            assert forall|at: int| !missing_at(self.stores(), wanted@, at) by {
                if 0 <= at < wanted.len() {
                    assert(self.stores().contains(wanted@[at]));
                }
            }
        }
        None
    }

    /// Registers a system that runs after the systems named in `after`.
    ///
    /// The registration is refused, and the pipeline left as it was, when a
    /// dependency names no registered system (the first such is reported),
    /// else when the name is taken, else when the system touches a store the
    /// world lacks (the first such is reported, reads before writes).
    /// Otherwise the system is appended and its position returned.
    pub fn register(
        &mut self,
        name: &str,
        after: &Vec<String>,
        reads: Vec<StoreId>,
        writes: Vec<StoreId>,
    ) -> (result: Result<usize, PipelineError>)
        requires
            old(self).wf(),
        ensures
            final(self).wf(),
            final(self).stores() == old(self).stores(),
            match result {
                Ok(position) => {
                    &&& position == old(self).systems().len()
                    &&& final(self).systems().len() == position + 1
                    &&& final(self).systems().subrange(0, position as int) == old(self).systems()
                    &&& final(self).systems()[position as int].name@ == name@
                    &&& final(self).systems()[position as int].reads == reads
                    &&& final(self).systems()[position as int].writes == writes
                    &&& final(self).systems()[position as int].after@.len() == after@.len()
                    &&& forall|j: int|
                        0 <= j < after@.len() ==> Some(
                            #[trigger] final(self).systems()[position as int].after@[j] as int,
                        ) == position_of(old(self).names(), after@[j]@)
                },
                Err(_) => final(self).systems() == old(self).systems(),
            },
            result == register_outcome(*old(self), name@, dependency_names(after@), reads@, writes@),
    {
        let mut resolved: Vec<usize> = Vec::new();
        let mut j: usize = 0;
        while j < after.len()
            invariant
                0 <= j <= after.len(),
                self.wf(),
                *self == *old(self),
                resolved@.len() == j,
                all_known(self.names(), dependency_names(after@), j as int),
                forall|k: int|
                    0 <= k < j ==> Some(#[trigger] resolved@[k] as int) == position_of(
                        self.names(),
                        after@[k]@,
                    ) && resolved@[k] < self.systems().len(),
            decreases after.len() - j,
        {
            assert(dependency_names(after@)[j as int] == after@[j as int]@);
            match self.find(after[j].as_str()) {
                Some(position) => {
                    resolved.push(position);
                },
                None => {
                    return Err(PipelineError::UnknownDependency { position: j });
                },
            }
            j = j + 1;
        }
        if self.find(name).is_some() {
            return Err(PipelineError::DuplicateName);
        }
        match self.missing_store(&reads) {
            Some(store) => {
                return Err(PipelineError::UnknownStore { store });
            },
            None => {},
        }
        match self.missing_store(&writes) {
            Some(store) => {
                return Err(PipelineError::UnknownStore { store });
            },
            None => {},
        }
        let position = self.systems.len();
        let entry = SystemEntry { name: name.to_owned(), after: resolved, reads, writes };
        self.systems.push(entry);
        proof {
            assert(self.systems().subrange(0, position as int) =~= old(self).systems());
            assert forall|i: int, k: int|
                0 <= i < k < self.systems().len() && self.systems()[i].name@.len()
                    > 0 implies self.systems()[i].name@ != self.systems()[k].name@ by {
                if k == position {
                    assert(old(self).names()[i] == self.systems()[i].name@);
                }
            }
        }
        Ok(position)
    }

    /// The order in which a dispatch runs the systems: each system once, in
    /// order of registration.
    pub fn dispatch_order(&self) -> (order: Vec<usize>)
        ensures
            order@.len() == self.systems().len(),
            forall|i: int| 0 <= i < order@.len() ==> order@[i] == i,
    {
        let mut order: Vec<usize> = Vec::new();
        let mut i: usize = 0;
        while i < self.systems.len()
            invariant
                0 <= i <= self.systems.len(),
                order@.len() == i,
                forall|k: int| 0 <= k < i ==> order@[k] == k,
            decreases self.systems.len() - i,
        {
            order.push(i);
            i = i + 1;
        }
        order
    }

    /// Whether the systems at `first` and `second` may not run at the same
    /// time: one of them writes a store that the other reads or writes.
    pub fn conflict(&self, first: usize, second: usize) -> (yes: bool)
        requires
            first < self.systems().len(),
            second < self.systems().len(),
        ensures
            yes == systems_conflict(self.systems()[first as int], self.systems()[second as int]),
    {
        let a = &self.systems[first];
        let b = &self.systems[second];
        let hit = overlap(&a.writes, &b.reads) || overlap(&a.writes, &b.writes) || overlap(
            &b.writes,
            &a.reads,
        );
        proof {
            if hit {
                let s = if shares(a.writes@, b.reads@) {
                    shared(a.writes@, b.reads@)
                } else if shares(a.writes@, b.writes@) {
                    shared(a.writes@, b.writes@)
                } else {
                    shared(b.writes@, a.reads@)
                };
                assert((a.writes@.contains(s) && (b.reads@.contains(s) || b.writes@.contains(s)))
                    || (b.writes@.contains(s) && a.reads@.contains(s)));
            }
        }
        hit
    }
}

/// The names in a list of strings.
pub open spec fn dependency_names(after: Seq<String>) -> Seq<Seq<char>> {
    Seq::new(after.len(), |j: int| after[j]@)
}

/// The position of the first name of `wanted` that is no registered
/// system's, if there is one.
pub open spec fn first_unknown(names: Seq<Seq<char>>, wanted: Seq<Seq<char>>) -> Option<int> {
    if exists|j: int| 0 <= j < wanted.len() && position_of(names, wanted[j]) is None {
        Some(
            choose|j: int|
                0 <= j < wanted.len() && position_of(names, wanted[j]) is None && all_known(
                    names,
                    wanted,
                    j,
                ),
        )
    } else {
        None
    }
}

/// What a registration answers, by the state of the pipeline and the request.
pub open spec fn register_outcome(
    pipeline: Pipeline,
    name: Seq<char>,
    after: Seq<Seq<char>>,
    reads: Seq<StoreId>,
    writes: Seq<StoreId>,
) -> Result<usize, PipelineError> {
    if !all_known(pipeline.names(), after, after.len() as int) {
        Err(
            PipelineError::UnknownDependency {
                position: first_unknown(pipeline.names(), after).unwrap() as usize,
            },
        )
    } else if position_of(pipeline.names(), name) is Some {
        Err(PipelineError::DuplicateName)
    } else if first_missing(pipeline.stores(), reads) is Some {
        Err(PipelineError::UnknownStore { store: first_missing(pipeline.stores(), reads).unwrap() })
    } else if first_missing(pipeline.stores(), writes) is Some {
        Err(PipelineError::UnknownStore { store: first_missing(pipeline.stores(), writes).unwrap() })
    } else {
        Ok(pipeline.systems().len() as usize)
    }
}

/// Whether two lists of stores have a store in common.
pub open spec fn shares(a: Seq<StoreId>, b: Seq<StoreId>) -> bool {
    exists|s: StoreId| a.contains(s) && b.contains(s)
}

/// A store that two lists have in common.
pub open spec fn shared(a: Seq<StoreId>, b: Seq<StoreId>) -> StoreId {
    choose|s: StoreId| a.contains(s) && b.contains(s)
}

/// Whether two lists of stores have a store in common.
fn overlap(a: &Vec<StoreId>, b: &Vec<StoreId>) -> (yes: bool)
    ensures
        yes == shares(a@, b@),
{
    let mut i: usize = 0;
    while i < a.len()
        invariant
            0 <= i <= a.len(),
            forall|k: int, m: int| 0 <= k < i && 0 <= m < b.len() ==> a@[k] != b@[m],
        decreases a.len() - i,
    {
        let mut j: usize = 0;
        while j < b.len()
            invariant
                0 <= i < a.len(),
                0 <= j <= b.len(),
                forall|k: int, m: int| 0 <= k < i && 0 <= m < b.len() ==> a@[k] != b@[m],
                forall|m: int| 0 <= m < j ==> a@[i as int] != b@[m],
            decreases b.len() - j,
        {
            if a[i] == b[j] {
                assert(a@.contains(a@[i as int]) && b@.contains(b@[j as int]));
                return true;
            }
            j = j + 1;
        }
        i = i + 1;
    }
    false
}

/// The order of dispatch agrees with every dependency: a system runs after
/// each system it names, so no dependency cycle can exist.
pub proof fn lemma_order_respects_dependencies(pipeline: Pipeline, system: int, dependency: int)
    requires
        pipeline.wf(),
        0 <= system < pipeline.systems().len(),
        0 <= dependency < pipeline.systems()[system].after@.len(),
    ensures
        pipeline.systems()[system].after@[dependency] < system,
{
}

/// Systems that only read never conflict, whatever they read; and whether
/// two systems conflict does not depend on the order in which they are
/// asked about.
pub proof fn lemma_readers_never_conflict(a: SystemEntry, b: SystemEntry)
    ensures
        a.writes@.len() == 0 && b.writes@.len() == 0 ==> !systems_conflict(a, b),
        systems_conflict(a, b) == systems_conflict(b, a),
{
    if a.writes@.len() == 0 && b.writes@.len() == 0 {
        assert forall|s: StoreId| !a.writes@.contains(s) && !b.writes@.contains(s) by {}
    }
    if systems_conflict(a, b) {
        let s = choose|s: StoreId|
            (a.writes@.contains(s) && (b.reads@.contains(s) || b.writes@.contains(s))) || (
            b.writes@.contains(s) && a.reads@.contains(s));
        assert((b.writes@.contains(s) && (a.reads@.contains(s) || a.writes@.contains(s))) || (
        a.writes@.contains(s) && b.reads@.contains(s)));
    }
    if systems_conflict(b, a) {
        let s = choose|s: StoreId|
            (b.writes@.contains(s) && (a.reads@.contains(s) || a.writes@.contains(s))) || (
            a.writes@.contains(s) && b.reads@.contains(s));
        assert((a.writes@.contains(s) && (b.reads@.contains(s) || b.writes@.contains(s))) || (
        b.writes@.contains(s) && a.reads@.contains(s)));
    }
}

} // verus!
