//! A minimal system scheduler with typed resource and component stores.
//!
//! Systems run under one of three schedules. The stores are association
//! lists keyed by `u64`; a resource names its own key, an entity's
//! components are keyed by the entity's number.

use vstd::prelude::*;

verus! {

/// When a system runs.
#[derive(Debug, Clone, Copy, Hash, PartialEq, Eq, Structural)]
pub enum Schedule {
    Startup,
    Update,
    Render,
}

/// Why resolving a system's input failed.
#[derive(Debug, Clone, Copy, PartialEq, Eq, Structural)]
pub enum ResolveError {
    NotFound,
    ReadError,
    WriteError,
}

/// The map denoted by an association list keyed by `u64`; an earlier entry
/// for a key shadows every later one.
pub open spec fn keyed_map_of<V>(s: Seq<(u64, V)>) -> Map<u64, V>
    decreases s.len(),
{
    if s.len() == 0 {
        Map::empty()
    } else {
        keyed_map_of(s.drop_first()).insert(s[0].0, s[0].1)
    }
}

pub proof fn lemma_keyed_map_of_dom<V>(s: Seq<(u64, V)>)
    ensures
        forall|k: u64|
            keyed_map_of(s).contains_key(k) <==> exists|i: int|
                0 <= i < s.len() && (#[trigger] s[i]).0 == k,
    decreases s.len(),
{
    if s.len() > 0 {
        lemma_keyed_map_of_dom(s.drop_first());
        assert(keyed_map_of(s) == keyed_map_of(s.drop_first()).insert(s[0].0, s[0].1));
        assert forall|k: u64| keyed_map_of(s).contains_key(k) implies exists|i: int|
            0 <= i < s.len() && (#[trigger] s[i]).0 == k by {
            if k == s[0].0 {
                assert(s[0].0 == k);
            } else {
                assert(keyed_map_of(s.drop_first()).contains_key(k));
                let i = choose|i: int|
                    0 <= i < s.drop_first().len() && (#[trigger] s.drop_first()[i]).0 == k;
                assert(s[i + 1].0 == k);
            }
        }
        assert forall|k: u64|
            (exists|i: int| 0 <= i < s.len() && (#[trigger] s[i]).0 == k) implies keyed_map_of(
            s,
        ).contains_key(k) by {
            let i = choose|i: int| 0 <= i < s.len() && (#[trigger] s[i]).0 == k;
            if i > 0 {
                assert(s.drop_first()[i - 1].0 == k);
            }
        }
    }
}

/// The first entry for a key is the one the map holds.
pub proof fn lemma_keyed_map_of_first<V>(s: Seq<(u64, V)>, i: int)
    requires
        0 <= i < s.len(),
        forall|j: int| 0 <= j < i ==> s[j].0 != s[i].0,
    ensures
        keyed_map_of(s).contains_key(s[i].0),
        keyed_map_of(s)[s[i].0] == s[i].1,
    decreases s.len(),
{
    lemma_keyed_map_of_dom(s);
    if i > 0 {
        assert(s.drop_first()[i - 1] == s[i]);
        assert forall|j: int| 0 <= j < i - 1 implies #[trigger] s.drop_first()[j].0
            != s.drop_first()[i - 1].0 by {
            assert(s.drop_first()[j] == s[j + 1]);
        }
        lemma_keyed_map_of_first(s.drop_first(), i - 1);
        assert(s[0].0 != s[i].0);
    }
}

/// Appending an entry for an absent key denotes an insertion.
pub proof fn lemma_keyed_map_of_push<V>(s: Seq<(u64, V)>, k: u64, v: V)
    requires
        !keyed_map_of(s).contains_key(k),
    ensures
        keyed_map_of(s.push((k, v))) == keyed_map_of(s).insert(k, v),
    decreases s.len(),
{
    lemma_keyed_map_of_dom(s);
    if s.len() == 0 {
        let t = s.push((k, v));
        assert(t.drop_first() =~= Seq::<(u64, V)>::empty());
        assert(keyed_map_of(t.drop_first()) == Map::<u64, V>::empty());
        assert(t[0] == (k, v));
        assert(keyed_map_of(t) == keyed_map_of(t.drop_first()).insert(t[0].0, t[0].1));
        assert(keyed_map_of(t) =~= keyed_map_of(s).insert(k, v));
    } else {
        let t = s.push((k, v));
        assert(t.drop_first() =~= s.drop_first().push((k, v)));
        lemma_keyed_map_of_dom(s.drop_first());
        assert(!keyed_map_of(s.drop_first()).contains_key(k)) by {
            if keyed_map_of(s.drop_first()).contains_key(k) {
                let i = choose|i: int| 0 <= i < s.drop_first().len() && s.drop_first()[i].0 == k;
                assert(s[i + 1].0 == k);
            }
        }
        lemma_keyed_map_of_push(s.drop_first(), k, v);
        assert(s[0].0 != k);
        assert(keyed_map_of(t) =~= keyed_map_of(s).insert(k, v));
    }
}

/// Replacing the first entry for a key denotes an insertion.
pub proof fn lemma_keyed_map_of_update_first<V>(s: Seq<(u64, V)>, i: int, v: V)
    requires
        0 <= i < s.len(),
        forall|j: int| 0 <= j < i ==> s[j].0 != s[i].0,
    ensures
        keyed_map_of(s.update(i, (s[i].0, v))) == keyed_map_of(s).insert(s[i].0, v),
    decreases s.len(),
{
    let t = s.update(i, (s[i].0, v));
    if i == 0 {
        assert(t.drop_first() =~= s.drop_first());
        assert(keyed_map_of(t) =~= keyed_map_of(s).insert(s[0].0, v));
    } else {
        assert(t.drop_first() =~= s.drop_first().update(i - 1, (s.drop_first()[i - 1].0, v)));
        assert(s.drop_first()[i - 1] == s[i]);
        assert forall|j: int| 0 <= j < i - 1 implies #[trigger] s.drop_first()[j].0
            != s.drop_first()[i - 1].0 by {
            assert(s.drop_first()[j] == s[j + 1]);
        }
        lemma_keyed_map_of_update_first(s.drop_first(), i - 1, v);
        assert(s[0].0 != s[i].0);
        assert(keyed_map_of(t) =~= keyed_map_of(s).insert(s[i].0, v));
    }
}

/// A value the resource store can hold, under a key of its own naming.
pub trait Resource: Sized {
    /// The key the resource is stored under.
    spec fn id_spec(&self) -> u64;

    /// The key the resource is stored under.
    fn resource_id(&self) -> (r: u64)
        ensures
            r == self.id_spec(),
    ;
}

impl Resource for i32 {
    open spec fn id_spec(&self) -> u64 {
        0
    }

    fn resource_id(&self) -> u64 {
        0
    }
}

/// The resource store: at most one resource per key.
pub struct Resources<R> {
    resources: Vec<(u64, R)>,
}

impl<R> View for Resources<R> {
    type V = Map<u64, R>;

    closed spec fn view(&self) -> Map<u64, R> {
        keyed_map_of(self.resources@)
    }
}

impl<R> Resources<R> {
    /// An empty store.
    pub fn new() -> (r: Self)
        ensures
            r@ == Map::<u64, R>::empty(),
    {
        Resources { resources: Vec::new() }
    }

    /// Stores a resource under the key it names; the key must be free.
    pub fn add_resource(&mut self, resource: R) where R: Resource
        requires
            !old(self)@.contains_key(resource.id_spec()),
        ensures
            final(self)@ == old(self)@.insert(resource.id_spec(), resource),
    {
        let id = resource.resource_id();
        proof {
            lemma_keyed_map_of_push(self.resources@, id, resource);
        }
        self.resources.push((id, resource));
    }

    /// The resource stored under a key.
    pub fn get(&self, id: u64) -> (r: Result<&R, ResolveError>)
        ensures
            match r {
                Ok(v) => self@.contains_key(id) && *v == self@[id],
                Err(e) => !self@.contains_key(id) && e == ResolveError::NotFound,
            },
    {
        proof {
            lemma_keyed_map_of_dom(self.resources@);
        }
        let n = self.resources.len();
        for i in 0..n
            invariant
                n == self.resources.len(),
                forall|j: int| 0 <= j < i ==> self.resources@[j].0 != id,
                self@ == keyed_map_of(self.resources@),
                forall|k: u64|
                    self@.contains_key(k) <==> exists|j: int|
                        0 <= j < self.resources@.len() && (#[trigger] self.resources@[j]).0 == k,
        {
            if self.resources[i].0 == id {
                proof {
                    lemma_keyed_map_of_first(self.resources@, i as int);
                }
                return Ok(&self.resources[i].1);
            }
        }
        Err(ResolveError::NotFound)
    }

    /// Exclusive access to the resource stored under a key.
    pub fn get_mut(&mut self, id: u64) -> (r: Result<&mut R, ResolveError>)
        ensures
            match r {
                Ok(v) => old(self)@.contains_key(id) && *v == old(self)@[id] && final(self)@ == old(
                    self,
                )@.insert(id, *final(v)),
                Err(e) => !old(self)@.contains_key(id) && final(self)@ == old(self)@ && e
                    == ResolveError::NotFound,
            },
    {
        proof {
            lemma_keyed_map_of_dom(self.resources@);
        }
        let n = self.resources.len();
        let mut i: usize = 0;
        while i < n
            invariant
                n == self.resources.len(),
                i <= n,
                forall|j: int| 0 <= j < i ==> self.resources@[j].0 != id,
                self == old(self),
                self@ == keyed_map_of(self.resources@),
                forall|k: u64|
                    self@.contains_key(k) <==> exists|j: int|
                        0 <= j < self.resources@.len() && (#[trigger] self.resources@[j]).0 == k,
            decreases n - i,
        {
            if self.resources[i].0 == id {
                proof {
                    lemma_keyed_map_of_first(self.resources@, i as int);
                    assert forall|e: (u64, R)| e.0 == id implies #[trigger] keyed_map_of(
                        self.resources@.update(i as int, e),
                    ) == keyed_map_of(self.resources@).insert(id, e.1) by {
                        lemma_keyed_map_of_update_first(self.resources@, i as int, e.1);
                        assert((self.resources@[i as int].0, e.1) == e);
                    }
                }
                let entry = &mut self.resources[i];
                return Ok(&mut entry.1);
            }
            i = i + 1;
        }
        Err(ResolveError::NotFound)
    }
}

/// The component stores, keyed by entity number.
pub struct Entities<C> {
    entities: Vec<(u64, C)>,
    next_id: u64,
}

/// A bundle of components that can enter the store as one entity.
pub trait Entity<C>: Sized {
    /// Stores the bundle's components under a fresh entity number.
    fn add_to_entities(self, entities: &mut Entities<C>);
}

/// A value the component store can hold.
pub trait Component {

}

impl<C> Entities<C> {
    /// The components, by entity number.
    pub closed spec fn components(&self) -> Map<u64, C> {
        keyed_map_of(self.entities@)
    }

    /// The next entity number to hand out.
    pub closed spec fn upcoming(&self) -> u64 {
        self.next_id
    }

    /// An empty store.
    pub fn new() -> (r: Self)
        ensures
            r.components() == Map::<u64, C>::empty(),
            r.upcoming() == 0u64,
    {
        Entities { entities: Vec::new(), next_id: 0 }
    }

    /// Accepts an entity under a chosen number and leaves the store
    /// unchanged: a bundle adds its components itself, through
    /// `Entity::add_to_entities` with numbers from `get_new_id`.
    pub fn add_entity<E: Entity<C>>(&mut self, id: u64, entity: E)
        ensures
            final(self).components() == old(self).components(),
            final(self).upcoming() == old(self).upcoming(),
    {
    }

    /// Stores a component under an entity number not yet used.
    pub fn add_component_to_entity(&mut self, id: u64, comp: C)
        requires
            !old(self).components().contains_key(id),
        ensures
            final(self).components() == old(self).components().insert(id, comp),
            final(self).upcoming() == old(self).upcoming(),
    {
        proof {
            lemma_keyed_map_of_push(self.entities@, id, comp);
        }
        self.entities.push((id, comp));
    }

    /// The component stored under an entity number.
    pub fn get_component(&self, id: u64) -> (r: Option<&C>)
        ensures
            match r {
                Some(c) => self.components().contains_key(id) && *c == self.components()[id],
                None => !self.components().contains_key(id),
            },
    {
        proof {
            lemma_keyed_map_of_dom(self.entities@);
        }
        let n = self.entities.len();
        for i in 0..n
            invariant
                n == self.entities.len(),
                forall|j: int| 0 <= j < i ==> self.entities@[j].0 != id,
                self.components() == keyed_map_of(self.entities@),
                forall|k: u64|
                    self.components().contains_key(k) <==> exists|j: int|
                        0 <= j < self.entities@.len() && (#[trigger] self.entities@[j]).0 == k,
        {
            if self.entities[i].0 == id {
                proof {
                    lemma_keyed_map_of_first(self.entities@, i as int);
                }
                return Some(&self.entities[i].1);
            }
        }
        None
    }

    /// A fresh entity number.
    pub fn get_new_id(&mut self) -> (r: u64)
        requires
            old(self).upcoming() < u64::MAX,
        ensures
            final(self).upcoming() == old(self).upcoming() + 1,
            r == final(self).upcoming(),
            final(self).components() == old(self).components(),
    {
        self.next_id = self.next_id + 1;
        self.next_id
    }
}

/// A unit of work the scheduler runs against the stores.
pub trait System<R, C> {
    /// Performs the work once.
    fn run(&mut self, resources: &Resources<R>, entities: &Entities<C>) -> Result<
        (),
        ResolveError,
    >;
}

/// A value that yields a system.
pub trait IntoSystem<R, C>: Sized {
    type Target: System<R, C>;

    /// The system this value stands for.
    fn into_system(self) -> Self::Target;
}

/// Two systems run back to back: the second runs only once the first has
/// succeeded, and a success of the pair arms the first again.
pub struct Chain<F0, F1> {
    first_finished: bool,
    f0: F0,
    f1: F1,
}

/// The pair of two systems, the first to run first.
pub fn chain<R, C, A: IntoSystem<R, C>, B: IntoSystem<R, C>>(first: A, second: B) -> Chain<
    A::Target,
    B::Target,
> {
    Chain { first_finished: false, f0: first.into_system(), f1: second.into_system() }
}

impl<R, C, F0: System<R, C>, F1: System<R, C>> System<R, C> for Chain<F0, F1> {
    fn run(&mut self, resources: &Resources<R>, entities: &Entities<C>) -> Result<
        (),
        ResolveError,
    > {
        if !self.first_finished {
            match self.f0.run(resources, entities) {
                Ok(_) => {},
                Err(e) => {
                    return Err(e);
                },
            }
            self.first_finished = true;
        }
        match self.f1.run(resources, entities) {
            Ok(_) => {},
            Err(e) => {
                return Err(e);
            },
        }
        self.first_finished = false;
        Ok(())
    }
}

impl<R, C, F0: System<R, C>, F1: System<R, C>> IntoSystem<R, C> for Chain<F0, F1> {
    type Target = Self;

    fn into_system(self) -> Self {
        self
    }
}

/// An input a system draws from the stores.
pub trait SystemInput<R, C>: Sized {
    /// Draws the input, or says why it cannot be drawn.
    fn resolve(resources: &Resources<R>, entities: &Entities<C>) -> Result<Self, ResolveError>;
}

impl<R, C> SystemInput<R, C> for () {
    fn resolve(resources: &Resources<R>, entities: &Entities<C>) -> Result<Self, ResolveError> {
        Ok(())
    }
}

/// A resolved shared view of one resource.
pub struct Res<T> {
    pub value: T,
}

/// A resolved exclusive view of one resource.
pub struct ResMut<T> {
    pub value: T,
}

/// Runs every system of a queue once, in order.
fn run_all<R, C, S: System<R, C>>(
    systems: &mut Vec<S>,
    resources: &Resources<R>,
    entities: &Entities<C>,
)
    ensures
        final(systems)@.len() == old(systems)@.len(),
{
    let n = systems.len();
    for i in 0..n
        invariant
            n == systems@.len(),
    {
        let _ = systems[i].run(resources, entities);
    }
}

/// Queues of systems under three schedules, with the stores they run
/// against.
pub struct Scheduler<S, R, C> {
    startup: Vec<S>,
    update: Vec<S>,
    render: Vec<S>,
    resources: Resources<R>,
    entities: Entities<C>,
}

impl<S, R, C> Scheduler<S, R, C> {
    /// The queue of a schedule.
    pub closed spec fn queue(&self, schedule: Schedule) -> Seq<S> {
        match schedule {
            Schedule::Startup => self.startup@,
            Schedule::Update => self.update@,
            Schedule::Render => self.render@,
        }
    }

    /// The resource store.
    pub closed spec fn resource_map(&self) -> Map<u64, R> {
        self.resources@
    }

    /// The component store.
    pub closed spec fn component_map(&self) -> Map<u64, C> {
        self.entities.components()
    }

    /// An empty scheduler.
    pub fn new() -> (r: Self)
        ensures
            forall|s: Schedule| r.queue(s) == Seq::<S>::empty(),
            r.resource_map() == Map::<u64, R>::empty(),
            r.component_map() == Map::<u64, C>::empty(),
    {
        let r = Scheduler {
            startup: Vec::new(),
            update: Vec::new(),
            render: Vec::new(),
            resources: Resources::new(),
            entities: Entities::new(),
        };
        proof {
            assert forall|s: Schedule| r.queue(s) == Seq::<S>::empty() by {
                assert(r.queue(s) =~= Seq::<S>::empty());
            }
        }
        r
    }

    /// Appends a system to a schedule's queue.
    pub fn add_system(&mut self, schedule: Schedule, system: S)
        ensures
            final(self).queue(schedule) == old(self).queue(schedule).push(system),
            forall|s: Schedule| s != schedule ==> final(self).queue(s) == old(self).queue(s),
            final(self).resource_map() == old(self).resource_map(),
            final(self).component_map() == old(self).component_map(),
    {
        match schedule {
            Schedule::Startup => self.startup.push(system),
            Schedule::Update => self.update.push(system),
            Schedule::Render => self.render.push(system),
        }
    }

    /// Stores a resource under the key it names; the key must be free.
    pub fn add_resource(&mut self, res: R) where R: Resource
        requires
            !old(self).resource_map().contains_key(res.id_spec()),
        ensures
            final(self).resource_map() == old(self).resource_map().insert(res.id_spec(), res),
            forall|s: Schedule| final(self).queue(s) == old(self).queue(s),
            final(self).component_map() == old(self).component_map(),
    {
        self.resources.add_resource(res);
    }

    /// Runs every system of a schedule's queue once, in order. The systems
    /// read the stores but cannot change them, and every queue keeps its
    /// length.
    pub fn run_schedule(&mut self, schedule: Schedule) where S: System<R, C>
        ensures
            forall|s: Schedule| final(self).queue(s).len() == old(self).queue(s).len(),
            final(self).resource_map() == old(self).resource_map(),
            final(self).component_map() == old(self).component_map(),
    {
        match schedule {
            Schedule::Startup => run_all(&mut self.startup, &self.resources, &self.entities),
            Schedule::Update => run_all(&mut self.update, &self.resources, &self.entities),
            Schedule::Render => run_all(&mut self.render, &self.resources, &self.entities),
        }
    }
}

} // verus!
