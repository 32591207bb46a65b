use vstd::prelude::*;

use crate::map::{Dispatcher, IdInUse, ObjectMap, ObjectMeta};
use crate::resources::{NewResource, Resource, ResourceMap};
use crate::wire::{decode, decode_result, DecodeError, Message, Request};

verus! {

/// Where a connection stands.
#[derive(Clone, Copy, Debug, PartialEq, Eq, Structural)]
pub enum ClientState {
    /// Messages are dispatched.
    Connected,
    /// Killed: no message is dispatched any more, scheduled destructors drain.
    Dying,
    /// The object map and the queue are gone.
    Closed,
}

/// Why a message was not dispatched.
#[derive(Clone, Copy, Debug, PartialEq, Eq, Structural)]
pub enum DispatchError {
    /// The connection is dying or closed.
    ClientDead,
    /// No live object has the message's id.
    UnknownObject,
    /// The object has no handler attached.
    Unimplemented,
    /// The message does not decode against the object's interface.
    Decode(DecodeError),
}

/// A decoded message, ready to be delivered to the handler of its object.
pub struct Delivery {
    pub id: u32,
    pub request: Request,
    pub resource: Resource,
}

/// What the caller is to do: invoke the handler of `resource` with `request`.
pub struct Invocation {
    pub request: Request,
    pub resource: Resource,
}

/// One object whose destructor is scheduled, taken out of the map.
pub struct Scheduled {
    pub id: u32,
    pub meta: ObjectMeta,
}

/// The state of one connection, as the contracts speak of it.
pub struct ClientView {
    pub client: u32,
    pub state: ClientState,
    pub objects: Map<u32, ObjectMeta>,
    pub pending: Seq<Scheduled>,
}

/// One connection: its object map, its state and its queue of objects whose
/// destructors are yet to run.
pub struct Client {
    resources: ResourceMap,
    state: ClientState,
    pending: Vec<Scheduled>,
}

impl View for Client {
    type V = ClientView;

    closed spec fn view(&self) -> ClientView {
        ClientView {
            client: self.resources.client_id(),
            state: self.state,
            objects: self.resources.objects(),
            pending: self.pending@,
        }
    }
}

/// What decoding `msg` on connection `c` yields.
pub open spec fn decode_outcome(c: ClientView, msg: Message) -> Result<Delivery, DispatchError> {
    let id = msg.sender_id;
    if c.state != ClientState::Connected {
        Err(DispatchError::ClientDead)
    } else if !c.objects.contains_key(id) {
        Err(DispatchError::UnknownObject)
    } else if !(c.objects[id].dispatcher is Implemented) {
        Err(DispatchError::Unimplemented)
    } else {
        match decode_result(c.objects[id].requests@, msg) {
            Err(e) => Err(DispatchError::Decode(e)),
            Ok(request) => Ok(
                Delivery {
                    id,
                    request,
                    resource: Resource { id, client: c.client, interface: c.objects[id].interface },
                },
            ),
        }
    }
}

/// The connection after delivering `d`. A destructor request marks the
/// object dead, takes it out of the map and schedules its destructor; where
/// the object was already taken out, the connection is killed instead.
pub open spec fn deliver_state(c: ClientView, d: Delivery) -> ClientView {
    if c.state != ClientState::Connected || !d.request.destructor {
        c
    } else if c.objects.contains_key(d.id) {
        ClientView {
            objects: c.objects.remove(d.id),
            pending: c.pending.push(
                Scheduled { id: d.id, meta: ObjectMeta { alive: false, ..c.objects[d.id] } },
            ),
            ..c
        }
    } else {
        ClientView { state: ClientState::Dying, ..c }
    }
}

/// The handler invocation that delivering `d` calls for: one, whatever the
/// bookkeeping gave, unless the connection no longer dispatches.
pub open spec fn deliver_invocation(c: ClientView, d: Delivery) -> Option<Invocation> {
    if c.state != ClientState::Connected {
        None
    } else {
        Some(Invocation { request: d.request, resource: d.resource })
    }
}

/// Whether destroying the object runs a destructor callback.
pub open spec fn has_destructor(meta: ObjectMeta) -> bool {
    meta.dispatcher == Dispatcher::Implemented { destructor: true }
}

/// Whether draining `s` runs its destructor callback.
pub open spec fn runs_destructor(s: Scheduled) -> bool {
    has_destructor(s.meta)
}

/// The live objects whose destructor callbacks run when they are torn down.
pub open spec fn live_destructors(objects: Map<u32, ObjectMeta>) -> Set<u32> {
    objects.dom().filter(|id: u32| has_destructor(objects[id]))
}

/// The ids whose destructor callbacks run when `pending` drains, in order.
pub open spec fn drain_result(pending: Seq<Scheduled>) -> Seq<u32>
    decreases pending.len(),
{
    if pending.len() == 0 {
        Seq::empty()
    } else {
        let rest = drain_result(pending.drop_last());
        if runs_destructor(pending.last()) {
            rest.push(pending.last().id)
        } else {
            rest
        }
    }
}

impl Client {
    /// A connected client with an empty object map.
    pub fn new(client: u32) -> (r: Client)
        ensures
            r@.client == client,
            r@.state == ClientState::Connected,
            r@.objects == Map::<u32, ObjectMeta>::empty(),
            r@.pending == Seq::<Scheduled>::empty(),
    {
        Client {
            resources: ResourceMap::make(ObjectMap::new(), client),
            state: ClientState::Connected,
            pending: Vec::new(),
        }
    }

    /// The state of the connection.
    pub fn state(&self) -> (r: ClientState)
        ensures
            r == self@.state,
    {
        self.state
    }

    /// The object map of the connection.
    pub fn resource_map(&self) -> (r: &ResourceMap)
        ensures
            r.objects() == self@.objects,
            r.client_id() == self@.client,
    {
        &self.resources
    }

    /// The number of objects whose destructors wait for the next drain.
    pub fn pending_len(&self) -> (r: usize)
        ensures
            r == self@.pending.len(),
    {
        self.pending.len()
    }

    /// Records a new object under `id`; fails where `id` is taken.
    pub fn insert_object(&mut self, id: u32, meta: ObjectMeta) -> (r: Result<(), IdInUse>)
        ensures
            r is Err <==> old(self)@.objects.contains_key(id),
            r is Ok ==> final(self)@ == (ClientView {
                objects: old(self)@.objects.insert(id, meta),
                ..old(self)@
            }),
            r is Err ==> final(self)@ == old(self)@,
    {
        self.resources.insert(id, meta)
    }

    /// A handle on the fresh object `id`, to be implemented.
    pub fn get_new(&self, id: u32, interface: &str) -> (r: Option<NewResource>)
        ensures
            r is Some <==> self@.objects.contains_key(id),
            r matches Some(res) ==> res.id == id && res.client == self@.client
                && res.interface@ == interface@,
    {
        self.resources.get_new(id, interface)
    }

    /// A handle on the object `id` used as `interface`.
    pub fn get(&self, id: u32, interface: &str) -> (r: Option<Resource>)
        ensures
            r is Some <==> self@.objects.contains_key(id),
            r matches Some(res) ==> res.id == id && res.client == self@.client
                && res.interface@ == interface@,
    {
        self.resources.get(id, interface)
    }

    /// Attaches a handler to a fresh object of this client.
    pub fn implement(&mut self, new: NewResource, destructor: bool) -> (r: Resource)
        ensures
            r.id == new.id && r.client == new.client && r.interface == new.interface,
            final(self)@.client == old(self)@.client,
            final(self)@.state == old(self)@.state,
            final(self)@.pending == old(self)@.pending,
            (new.client == old(self)@.client && old(self)@.objects.contains_key(new.id))
                ==> final(self)@.objects == old(self)@.objects.insert(
                new.id,
                ObjectMeta {
                    dispatcher: Dispatcher::Implemented { destructor },
                    ..old(self)@.objects[new.id]
                },
            ),
            !(new.client == old(self)@.client && old(self)@.objects.contains_key(new.id))
                ==> final(self)@.objects == old(self)@.objects,
    {
        new.implement(&mut self.resources, destructor)
    }

    /// Kills the connection: no further message is dispatched. Killing a
    /// connection that is not connected changes nothing.
    pub fn kill(&mut self)
        ensures
            final(self)@ == (if old(self)@.state == ClientState::Connected {
                ClientView { state: ClientState::Dying, ..old(self)@ }
            } else {
                old(self)@
            }),
    {
        if self.state == ClientState::Connected {
            self.state = ClientState::Dying;
        }
    }

    /// Resolves the target of `msg` and decodes it. Changes nothing.
    pub fn decode_message(&self, msg: Message) -> (r: Result<Delivery, DispatchError>)
        ensures
            r == decode_outcome(self@, msg),
    {
        if self.state != ClientState::Connected {
            return Err(DispatchError::ClientDead);
        }
        let id = msg.sender_id;
        match self.resources.find(id) {
            None => Err(DispatchError::UnknownObject),
            Some(meta) => {
                match meta.dispatcher {
                    Dispatcher::Implemented { .. } => {},
                    _ => {
                        return Err(DispatchError::Unimplemented);
                    },
                }
                match decode(&meta.requests, msg) {
                    Err(e) => Err(DispatchError::Decode(e)),
                    Ok(request) => {
                        let resource = Resource {
                            id,
                            client: self.resources.client(),
                            interface: meta.interface.clone(),
                        };
                        Ok(Delivery { id, request, resource })
                    },
                }
            },
        }
    }

    /// Delivers a decoded message: does the destructor bookkeeping, before
    /// the handler runs, and says which handler invocation is owed.
    pub fn deliver(&mut self, d: Delivery) -> (r: Option<Invocation>)
        ensures
            final(self)@ == deliver_state(old(self)@, d),
            r == deliver_invocation(old(self)@, d),
    {
        if self.state != ClientState::Connected {
            return None;
        }
        if d.request.destructor {
            self.resources.mark_dead(d.id);
            match self.resources.remove(d.id) {
                Ok(meta) => {
                    self.pending.push(Scheduled { id: d.id, meta });
                },
                Err(_) => {
                    self.kill();
                },
            }
            assert(self@.objects =~= deliver_state(old(self)@, d).objects);
        }
        Some(Invocation { request: d.request, resource: d.resource })
    }

    /// Decodes and delivers `msg`.
    pub fn dispatch(&mut self, msg: Message) -> (r: Result<Invocation, DispatchError>)
        ensures
            match decode_outcome(old(self)@, msg) {
                Err(e) => r == Err::<Invocation, DispatchError>(e) && final(self)@ == old(self)@,
                Ok(d) => r == Ok::<Invocation, DispatchError>(
                    Invocation { request: d.request, resource: d.resource },
                ) && final(self)@ == deliver_state(old(self)@, d),
            },
    {
        match self.decode_message(msg) {
            Err(e) => Err(e),
            Ok(d) => {
                match self.deliver(d) {
                    Some(inv) => Ok(inv),
                    None => Err(DispatchError::ClientDead),
                }
            },
        }
    }

    /// Closes the connection: drains the queue as `drain_destructors` does,
    /// then destroys every live object and discards the map. Returns the ids
    /// whose destructor callbacks are to run: those of the queue, in order,
    /// then each live object with a destructor once, in no particular order.
    pub fn close(&mut self) -> (r: Vec<u32>)
        ensures
            final(self)@ == (ClientView {
                state: ClientState::Closed,
                objects: Map::empty(),
                pending: Seq::empty(),
                ..old(self)@
            }),
            r@.len() >= drain_result(old(self)@.pending).len(),
            r@.take(drain_result(old(self)@.pending).len() as int) == drain_result(
                old(self)@.pending,
            ),
            r@.skip(drain_result(old(self)@.pending).len() as int).to_set() == live_destructors(
                old(self)@.objects,
            ),
            r@.skip(drain_result(old(self)@.pending).len() as int).no_duplicates(),
    {
        let mut out = self.drain_destructors();
        let ghost n0 = out@.len();
        let ghost objs = self@.objects;
        let ids = self.resources.live_ids();
        let mut i: usize = 0;
        while i < ids.len()
            invariant
                i <= ids.len(),
                ids@.to_set() == objs.dom(),
                ids@.no_duplicates(),
                self@.objects == objs,
                self@.client == old(self)@.client,
                self@.state == old(self)@.state,
                self@.pending == Seq::<Scheduled>::empty(),
                out@.len() >= n0,
                out@.take(n0 as int) == drain_result(old(self)@.pending),
                out@.skip(n0 as int).no_duplicates(),
                forall|k: u32|
                    #[trigger] out@.skip(n0 as int).contains(k) <==> (ids@.take(i as int).contains(k)
                        && has_destructor(objs[k])),
            decreases ids.len() - i,
        {
            let ghost before = out@;
            assert(forall|k: u32|
                #[trigger] before.skip(n0 as int).contains(k) <==> (ids@.take(i as int).contains(k)
                    && has_destructor(objs[k])));
            let id = ids[i];
            assert(ids@.to_set().contains(id));
            let meta = self.resources.find(id);
            let mut d = match meta {
                Some(m) => m.dispatcher,
                None => Dispatcher::Destroyed,
            };
            let run = d.destroy();
            if run {
                out.push(id);
            }
            proof {
                let t = ids@.take(i as int);
                let t1 = ids@.take(i as int + 1);
                assert(t1 =~= t.push(id));
                assert(!t.contains(id)) by {
                    if t.contains(id) {
                        let j = choose|j: int| 0 <= j < t.len() && t[j] == id;
                        assert(ids@[j] == ids@[i as int]);
                    }
                }
                if run {
                    assert(out@.take(n0 as int) =~= before.take(n0 as int));
                    assert(out@.skip(n0 as int) =~= before.skip(n0 as int).push(id));
                } else {
                    assert(out@ == before);
                }
                assert(objs.contains_key(id));
                assert(run == has_destructor(objs[id]));
                let bs = before.skip(n0 as int);
                let os = out@.skip(n0 as int);
                assert forall|k: u32|
                    os.contains(k) <==> (t1.contains(k) && has_destructor(objs[k])) by {
                    if os.contains(k) {
                        let j = choose|j: int| 0 <= j < os.len() && os[j] == k;
                        if j < bs.len() {
                            assert(bs[j] == k);
                            assert(bs.contains(k));
                            assert(t.contains(k) && has_destructor(objs[k]));
                            let m = choose|m: int| 0 <= m < t.len() && t[m] == k;
                            assert(t1[m] == k);
                        } else {
                            assert(k == id);
                            assert(t1[i as int] == id);
                        }
                    }
                    if t1.contains(k) && has_destructor(objs[k]) {
                        if k == id {
                            assert(os[os.len() - 1] == id);
                        } else {
                            let m = choose|m: int| 0 <= m < t1.len() && t1[m] == k;
                            assert(t[m] == k);
                            assert(t.contains(k));
                            assert(bs.contains(k));
                            let j = choose|j: int| 0 <= j < bs.len() && bs[j] == k;
                            assert(os[j] == k);
                        }
                    }
                }
                if run {
                    assert forall|a: int, b: int|
                        0 <= a < os.len() && 0 <= b < os.len() && a != b implies os[a]
                        != os[b] by {
                        if a == os.len() - 1 {
                            assert(bs.contains(os[b]));
                        } else if b == os.len() - 1 {
                            assert(bs.contains(os[a]));
                        }
                    }
                }
            }
            i = i + 1;
        }
        proof {
            assert(ids@.take(ids@.len() as int) =~= ids@);
            let tail = out@.skip(n0 as int);
            assert forall|k: u32| tail.to_set().contains(k) <==> live_destructors(objs).contains(
                k,
            ) by {
                if objs.contains_key(k) {
                    assert(ids@.to_set().contains(k));
                }
                if ids@.contains(k) {
                    assert(ids@.to_set().contains(k));
                }
            }
            assert(tail.to_set() =~= live_destructors(objs));
        }
        let client = self.resources.client();
        self.resources = ResourceMap::make(ObjectMap::new(), client);
        self.state = ClientState::Closed;
        proof {
            assert(self@.objects =~= Map::<u32, ObjectMeta>::empty());
        }
        out
    }

    /// Destroys the dispatcher of every scheduled object, oldest first, and
    /// empties the queue. Returns the ids whose destructor callbacks are to
    /// run, in that order.
    pub fn drain_destructors(&mut self) -> (r: Vec<u32>)
        ensures
            r@ == drain_result(old(self)@.pending),
            final(self)@ == (ClientView { pending: Seq::empty(), ..old(self)@ }),
    {
        let mut out: Vec<u32> = Vec::new();
        let mut i: usize = 0;
        let n = self.pending.len();
        while i < n
            invariant
                n == self.pending.len(),
                i <= n,
                self@ == old(self)@,
                out@ == drain_result(self@.pending.take(i as int)),
            decreases n - i,
        {
            let mut d = self.pending[i].meta.dispatcher;
            let run = d.destroy();
            if run {
                out.push(self.pending[i].id);
            }
            proof {
                let p = self@.pending.take(i as int + 1);
                assert(p.drop_last() =~= self@.pending.take(i as int));
                assert(p.last() == self@.pending[i as int]);
            }
            i = i + 1;
        }
        assert(self@.pending.take(n as int) =~= self@.pending);
        self.pending = Vec::new();
        out
    }
}

} // verus!
