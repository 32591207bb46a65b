use vstd::prelude::*;

use crate::map::{Dispatcher, ObjectMap, ObjectMeta};

verus! {

/// A handle on an object of one client, tagged with the interface it is
/// used as. It never owns the object: whether the object still lives is
/// looked up in the map on every use.
pub struct Resource {
    pub id: u32,
    pub client: u32,
    pub interface: String,
}

/// Two handles are the same resource when they name the same id of the
/// same client.
impl PartialEq for Resource {
    fn eq(&self, other: &Resource) -> (r: bool) {
        self.id == other.id && self.client == other.client
    }
}

impl vstd::std_specs::cmp::PartialEqSpecImpl for Resource {
    open spec fn obeys_eq_spec() -> bool {
        true
    }

    open spec fn eq_spec(&self, other: &Resource) -> bool {
        self.id == other.id && self.client == other.client
    }
}

/// An object that exists in the map but has no handler attached yet.
/// `implement` consumes it, so a handler is attached at most once.
pub struct NewResource {
    pub id: u32,
    pub client: u32,
    pub interface: String,
}

/// The object map of one client, as handed to the codec and the handlers.
pub struct ResourceMap {
    map: ObjectMap,
    client: u32,
}

impl ResourceMap {
    /// The objects of the map, by id.
    pub closed spec fn objects(&self) -> Map<u32, ObjectMeta> {
        self.map@
    }

    /// The client the map belongs to.
    pub closed spec fn client_id(&self) -> u32 {
        self.client
    }

    /// Wraps the object map of `client`.
    pub fn make(map: ObjectMap, client: u32) -> (r: ResourceMap)
        ensures
            r.objects() == map@,
            r.client_id() == client,
    {
        ResourceMap { map, client }
    }

    /// The client the map belongs to.
    pub fn client(&self) -> (r: u32)
        ensures
            r == self.client_id(),
    {
        self.client
    }

    /// The record of `id`, if the object is live.
    pub fn find(&self, id: u32) -> (r: Option<&ObjectMeta>)
        ensures
            r == (if self.objects().contains_key(id) {
                Some(&self.objects()[id])
            } else {
                None
            }),
    {
        self.map.find(id)
    }

    /// A handle on `id` used as `interface`, or `None` where `id` is not in
    /// the map. The interface is not checked against the record: asking for
    /// the wrong one is a defect of the caller, which `Resource::is_interface`
    /// detects.
    pub fn get(&self, id: u32, interface: &str) -> (r: Option<Resource>)
        ensures
            r is Some <==> self.objects().contains_key(id),
            r matches Some(res) ==> res.id == id && res.client == self.client_id()
                && res.interface@ == interface@,
    {
        match self.map.find(id) {
            Some(_) => Some(Resource { id, client: self.client, interface: interface.to_owned() }),
            None => None,
        }
    }

    /// A handle on the fresh object `id`, to be implemented, or `None` where
    /// `id` is not in the map.
    pub fn get_new(&self, id: u32, interface: &str) -> (r: Option<NewResource>)
        ensures
            r is Some <==> self.objects().contains_key(id),
            r matches Some(res) ==> res.id == id && res.client == self.client_id()
                && res.interface@ == interface@,
    {
        match self.map.find(id) {
            Some(_) => Some(
                NewResource { id, client: self.client, interface: interface.to_owned() },
            ),
            None => None,
        }
    }

    /// Records a new object under `id`; fails where `id` is taken.
    pub fn insert(&mut self, id: u32, meta: ObjectMeta) -> (r: Result<(), crate::map::IdInUse>)
        ensures
            final(self).client_id() == old(self).client_id(),
            r is Err <==> old(self).objects().contains_key(id),
            r is Ok ==> final(self).objects() == old(self).objects().insert(id, meta),
            r is Err ==> final(self).objects() == old(self).objects(),
    {
        self.map.insert(id, meta)
    }

    /// Frees `id` and hands back its record; fails where it is not in the map.
    pub fn remove(&mut self, id: u32) -> (r: Result<ObjectMeta, crate::map::AlreadyRemoved>)
        ensures
            final(self).client_id() == old(self).client_id(),
            r is Err <==> !old(self).objects().contains_key(id),
            r matches Ok(m) ==> m == old(self).objects()[id],
            final(self).objects() == old(self).objects().remove(id),
    {
        self.map.remove(id)
    }

    /// The ids of the live objects, each once, in no particular order.
    pub fn live_ids(&self) -> (r: Vec<u32>)
        ensures
            r@.to_set() == self.objects().dom(),
            r@.no_duplicates(),
    {
        self.map.live_ids()
    }

    /// Clears the alive flag of `id`, if it is in the map.
    pub fn mark_dead(&mut self, id: u32)
        ensures
            final(self).client_id() == old(self).client_id(),
            old(self).objects().contains_key(id) ==> final(self).objects()
                == old(self).objects().insert(
                id,
                ObjectMeta { alive: false, ..old(self).objects()[id] },
            ),
            !old(self).objects().contains_key(id) ==> final(self).objects() == old(
                self,
            ).objects(),
    {
        self.map.mark_dead(id)
    }
}

impl Resource {
    /// Whether the object is still in the map and not yet destroyed.
    pub fn is_alive(&self, map: &ResourceMap) -> (r: bool)
        ensures
            r == (self.client == map.client_id() && map.objects().contains_key(self.id)
                && map.objects()[self.id].alive),
    {
        if self.client != map.client() {
            return false;
        }
        match map.find(self.id) {
            Some(meta) => meta.alive,
            None => false,
        }
    }

    /// Whether the object is in the map with the interface this handle is
    /// tagged with.
    pub fn is_interface(&self, map: &ResourceMap) -> (r: bool)
        ensures
            r == (self.client == map.client_id() && map.objects().contains_key(self.id)
                && map.objects()[self.id].interface@ == self.interface@),
    {
        if self.client != map.client() {
            return false;
        }
        match map.find(self.id) {
            Some(meta) => meta.interface == self.interface,
            None => false,
        }
    }
}

impl NewResource {
    /// Attaches a handler, with a destructor callback or without, to the
    /// object and hands back a live handle on it.
    pub fn implement(self, map: &mut ResourceMap, destructor: bool) -> (r: Resource)
        ensures
            r.id == self.id && r.client == self.client && r.interface == self.interface,
            final(map).client_id() == old(map).client_id(),
            (self.client == old(map).client_id() && old(map).objects().contains_key(self.id))
                ==> final(map).objects() == old(map).objects().insert(
                self.id,
                ObjectMeta {
                    dispatcher: Dispatcher::Implemented { destructor },
                    ..old(map).objects()[self.id]
                },
            ),
            !(self.client == old(map).client_id() && old(map).objects().contains_key(self.id))
                ==> final(map).objects() == old(map).objects(),
    {
        if self.client == map.client {
            map.map.set_dispatcher(self.id, Dispatcher::Implemented { destructor });
        }
        Resource { id: self.id, client: self.client, interface: self.interface }
    }
}

} // verus!
