use std::collections::HashMap;
use vstd::prelude::*;
use vstd::std_specs::iter::IteratorSpec;

use crate::wire::MessageDesc;

verus! {

broadcast use vstd::std_specs::hash::group_hash_axioms;

/// The decode-and-invoke strategy bound to one object.
#[derive(Clone, Copy, Debug, PartialEq, Eq, Structural)]
pub enum Dispatcher {
    /// No handler was attached: every dispatch fails.
    Unimplemented,
    /// A handler is attached, with or without a destructor callback.
    Implemented { destructor: bool },
    /// The handler was dropped; nothing more is invoked through it.
    Destroyed,
}

impl Dispatcher {
    /// Drops the handler. Returns whether the destructor callback is to run:
    /// only the first call on a dispatcher with a destructor says so.
    pub fn destroy(&mut self) -> (run_destructor: bool)
        ensures
            *final(self) == Dispatcher::Destroyed,
            run_destructor == (*old(self) == Dispatcher::Implemented { destructor: true }),
    {
        let run = match *self {
            Dispatcher::Implemented { destructor } => destructor,
            _ => false,
        };
        *self = Dispatcher::Destroyed;
        run
    }
}

/// What the map holds for one live object.
pub struct ObjectMeta {
    pub interface: String,
    pub version: u32,
    /// Cleared, once and for good, when a destructor request reaches the object.
    pub alive: bool,
    /// The interface's requests, by opcode.
    pub requests: Vec<MessageDesc>,
    pub dispatcher: Dispatcher,
}

impl ObjectMeta {
    /// A fresh, alive record with no handler attached.
    pub fn new(interface: String, version: u32, requests: Vec<MessageDesc>) -> (r: ObjectMeta)
        ensures
            r.interface == interface,
            r.version == version,
            r.alive,
            r.requests == requests,
            r.dispatcher == Dispatcher::Unimplemented,
    {
        ObjectMeta { interface, version, alive: true, requests, dispatcher: Dispatcher::Unimplemented }
    }
}

/// The id is already taken in the map.
#[derive(Clone, Copy, Debug, PartialEq, Eq, Structural)]
pub struct IdInUse;

/// The id is not (or no longer) in the map.
#[derive(Clone, Copy, Debug, PartialEq, Eq, Structural)]
pub struct AlreadyRemoved;

/// The table of the objects live on one connection, keyed by object id.
pub struct ObjectMap {
    objects: HashMap<u32, ObjectMeta>,
}

impl View for ObjectMap {
    type V = Map<u32, ObjectMeta>;

    closed spec fn view(&self) -> Map<u32, ObjectMeta> {
        self.objects@
    }
}

impl ObjectMap {
    /// An empty map.
    pub fn new() -> (r: ObjectMap)
        ensures
            r@ == Map::<u32, ObjectMeta>::empty(),
    {
        ObjectMap { objects: HashMap::new() }
    }

    /// The record of `id`, if the object is live.
    pub fn find(&self, id: u32) -> (r: Option<&ObjectMeta>)
        ensures
            r == (if self@.contains_key(id) {
                Some(&self@[id])
            } else {
                None
            }),
    {
        self.objects.get(&id)
    }

    /// Records a new object under `id`; fails, leaving the map as it was,
    /// where `id` is already taken.
    pub fn insert(&mut self, id: u32, meta: ObjectMeta) -> (r: Result<(), IdInUse>)
        ensures
            r is Err <==> old(self)@.contains_key(id),
            r is Ok ==> final(self)@ == old(self)@.insert(id, meta),
            r is Err ==> final(self)@ == old(self)@,
    {
        if self.objects.contains_key(&id) {
            return Err(IdInUse);
        }
        self.objects.insert(id, meta);
        Ok(())
    }

    /// Frees `id` and hands back its record; fails, leaving the map as it
    /// was, where `id` is not in the map.
    pub fn remove(&mut self, id: u32) -> (r: Result<ObjectMeta, AlreadyRemoved>)
        ensures
            r is Err <==> !old(self)@.contains_key(id),
            r matches Ok(m) ==> m == old(self)@[id],
            final(self)@ == old(self)@.remove(id),
    {
        match self.objects.remove(&id) {
            Some(m) => Ok(m),
            None => Err(AlreadyRemoved),
        }
    }

    /// Clears the alive flag of `id`, if it is in the map.
    pub fn mark_dead(&mut self, id: u32)
        ensures
            old(self)@.contains_key(id) ==> final(self)@ == old(self)@.insert(
                id,
                ObjectMeta { alive: false, ..old(self)@[id] },
            ),
            !old(self)@.contains_key(id) ==> final(self)@ == old(self)@,
    {
        match self.objects.remove(&id) {
            Some(m) => {
                let dead = ObjectMeta { alive: false, ..m };
                self.objects.insert(id, dead);
                assert(self@ =~= old(self)@.insert(id, ObjectMeta { alive: false, ..old(self)@[id] }));
            },
            None => {},
        }
    }

    /// Binds `dispatcher` to `id`, if it is in the map.
    pub fn set_dispatcher(&mut self, id: u32, dispatcher: Dispatcher)
        ensures
            old(self)@.contains_key(id) ==> final(self)@ == old(self)@.insert(
                id,
                ObjectMeta { dispatcher, ..old(self)@[id] },
            ),
            !old(self)@.contains_key(id) ==> final(self)@ == old(self)@,
    {
        match self.objects.remove(&id) {
            Some(m) => {
                let bound = ObjectMeta { dispatcher, ..m };
                self.objects.insert(id, bound);
                assert(self@ =~= old(self)@.insert(id, ObjectMeta { dispatcher, ..old(self)@[id] }));
            },
            None => {},
        }
    }
    /// The ids of the live objects, each once, in no particular order.
    pub fn live_ids(&self) -> (r: Vec<u32>)
        ensures
            r@.to_set() == self@.dom(),
            r@.no_duplicates(),
    {
        let mut out: Vec<u32> = Vec::new();
        let keys = self.objects.keys();
        for k in it: keys
            invariant
                out@.len() == it.index(),
                forall|i: int| 0 <= i < it.index() ==> out@[i] == *it.seq()[i],
        {
            out.push(*k);
        }
        assert(out@ =~= keys.remaining().unref());
        out
    }
}

} // verus!
