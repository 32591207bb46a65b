use vstd::prelude::*;

use crate::client::{Client, ClientState, ClientView};
use crate::map::{ObjectMeta, Dispatcher};
use crate::resources::NewResource;
use crate::wire::MessageDesc;

verus! {

/// A capability advertised to clients under a stable name.
pub struct Global {
    pub name: u32,
    pub interface: String,
    pub version: u32,
    /// The clients allowed to see the global; `None` lets every client see it.
    pub allowed: Option<Vec<u32>>,
}

/// Whether `client` sees `g`.
pub open spec fn visible(g: Global, client: u32) -> bool {
    match g.allowed {
        None => true,
        Some(v) => v@.contains(client),
    }
}

/// Why binding a global failed.
#[derive(Clone, Copy, Debug, PartialEq, Eq, Structural)]
pub enum BindError {
    /// The client is dying or closed.
    ClientDead,
    /// No global of that name is visible to the client.
    UnknownGlobal,
    /// The version asked for is 0 or above the global's.
    BadVersion,
    /// The client already has an object with the new id.
    IdInUse,
}

/// Every name has been handed out.
#[derive(Clone, Copy, Debug, PartialEq, Eq, Structural)]
pub struct NamesExhausted;

/// The globals as the contracts speak of them.
pub struct RegistryView {
    pub globals: Seq<Global>,
    pub next_name: u32,
}

/// The globals of a display, in the order they were advertised.
pub struct Registry {
    globals: Vec<Global>,
    next_name: u32,
}

impl View for Registry {
    type V = RegistryView;

    closed spec fn view(&self) -> RegistryView {
        RegistryView { globals: self.globals@, next_name: self.next_name }
    }
}

/// The names of the globals of `gs` that `client` sees, in order.
pub open spec fn announced(gs: Seq<Global>, client: u32) -> Seq<u32>
    decreases gs.len(),
{
    if gs.len() == 0 {
        Seq::empty()
    } else {
        let rest = announced(gs.drop_last(), client);
        if visible(gs.last(), client) {
            rest.push(gs.last().name)
        } else {
            rest
        }
    }
}

/// The global of `gs` named `name`, where there is one.
pub open spec fn global_named(gs: Seq<Global>, name: u32) -> Global {
    gs[choose|i: int| 0 <= i < gs.len() && gs[i].name == name]
}

/// Whether some global of `gs` has the name `name`.
pub open spec fn has_name(gs: Seq<Global>, name: u32) -> bool {
    exists|i: int| 0 <= i < gs.len() && #[trigger] gs[i].name == name
}

impl Registry {
    /// Names are handed out in increasing order, never twice.
    pub open spec fn wf(&self) -> bool {
        &&& forall|i: int, j: int|
            0 <= i < j < self@.globals.len() ==> #[trigger] self@.globals[i].name
                < #[trigger] self@.globals[j].name
        &&& forall|i: int|
            0 <= i < self@.globals.len() ==> #[trigger] self@.globals[i].name < self@.next_name
    }

    /// A registry with no globals.
    pub fn new() -> (r: Registry)
        ensures
            r.wf(),
            r@.globals == Seq::<Global>::empty(),
            r@.next_name == 1,
    {
        Registry { globals: Vec::new(), next_name: 1 }
    }

    /// The number of globals advertised.
    pub fn len(&self) -> (r: usize)
        ensures
            r == self@.globals.len(),
    {
        self.globals.len()
    }

    /// Advertises a global under a fresh name, which it returns; fails once
    /// every name has been handed out.
    pub fn advertise(&mut self, interface: String, version: u32, allowed: Option<Vec<u32>>) -> (r:
        Result<u32, NamesExhausted>)
        requires
            old(self).wf(),
        ensures
            final(self).wf(),
            r is Err <==> old(self)@.next_name == u32::MAX,
            r is Err ==> final(self)@ == old(self)@,
            r matches Ok(name) ==> name == old(self)@.next_name && final(self)@ == (RegistryView {
                globals: old(self)@.globals.push(Global { name, interface, version, allowed }),
                next_name: (name + 1) as u32,
            }),
    {
        if self.next_name == u32::MAX {
            return Err(NamesExhausted);
        }
        let name = self.next_name;
        self.globals.push(Global { name, interface, version, allowed });
        self.next_name = name + 1;
        Ok(name)
    }

    /// The position of the global named `name`.
    pub fn position(&self, name: u32) -> (r: Option<usize>)
        ensures
            r is None <==> !has_name(self@.globals, name),
            r matches Some(i) ==> i < self@.globals.len() && self@.globals[i as int].name == name,
    {
        let mut i: usize = 0;
        while i < self.globals.len()
            invariant
                i <= self.globals.len(),
                forall|j: int| 0 <= j < i ==> #[trigger] self@.globals[j].name != name,
            decreases self.globals.len() - i,
        {
            if self.globals[i].name == name {
                return Some(i);
            }
            i = i + 1;
        }
        None
    }

    /// Withdraws the global named `name`, if there is one. Objects already
    /// bound to it are left as they are; no client can bind it any more.
    pub fn remove(&mut self, name: u32) -> (r: bool)
        requires
            old(self).wf(),
        ensures
            final(self).wf(),
            r == has_name(old(self)@.globals, name),
            final(self)@.next_name == old(self)@.next_name,
            !has_name(final(self)@.globals, name),
            forall|n: u32|
                n != name ==> (has_name(final(self)@.globals, n) == has_name(old(self)@.globals, n)),
            !r ==> final(self)@ == old(self)@,
    {
        match self.position(name) {
            None => false,
            Some(i) => {
                let ghost g = self@.globals;
                self.globals.remove(i);
                let ghost h = self@.globals;
                assert(h =~= g.remove(i as int));
                assert forall|n: u32| n != name implies has_name(h, n) == has_name(g, n) by {
                    if has_name(g, n) {
                        let k = choose|k: int| 0 <= k < g.len() && #[trigger] g[k].name == n;
                        if k < i {
                            assert(h[k].name == n);
                        } else {
                            assert(h[k - 1].name == n);
                        }
                    }
                    if has_name(h, n) {
                        let k = choose|k: int| 0 <= k < h.len() && #[trigger] h[k].name == n;
                        if k < i {
                            assert(g[k].name == n);
                        } else {
                            assert(g[k + 1].name == n);
                        }
                    }
                }
                assert(!has_name(h, name)) by {
                    if has_name(h, name) {
                        let k = choose|k: int| 0 <= k < h.len() && #[trigger] h[k].name == name;
                        if k < i {
                            assert(g[k].name == h[k].name);
                            assert(g[k].name < g[i as int].name);
                        } else {
                            assert(g[k + 1].name == h[k].name);
                            assert(g[i as int].name < g[k + 1].name);
                        }
                    }
                }
                true
            },
        }
    }

    /// Whether `client` sees the global at position `i`.
    fn visible_at(&self, i: usize, client: u32) -> (r: bool)
        requires
            i < self@.globals.len(),
        ensures
            r == visible(self@.globals[i as int], client),
    {
        match &self.globals[i].allowed {
            None => true,
            Some(v) => {
                let mut k: usize = 0;
                while k < v.len()
                    invariant
                        i < self@.globals.len(),
                        self@.globals[i as int].allowed == Some(*v),
                        k <= v.len(),
                        forall|j: int| 0 <= j < k ==> v@[j] != client,
                    decreases v.len() - k,
                {
                    if v[k] == client {
                        assert(v@[k as int] == client);
                        return true;
                    }
                    k = k + 1;
                }
                false
            },
        }
    }

    /// The names of the globals that `client` sees, in the order they were
    /// advertised.
    pub fn announcements(&self, client: u32) -> (r: Vec<u32>)
        ensures
            r@ == announced(self@.globals, client),
    {
        let mut out: Vec<u32> = Vec::new();
        let mut i: usize = 0;
        while i < self.globals.len()
            invariant
                i <= self.globals.len(),
                out@ == announced(self@.globals.take(i as int), client),
            decreases self.globals.len() - i,
        {
            let seen = self.visible_at(i, client);
            proof {
                let t1 = self@.globals.take(i as int + 1);
                assert(t1.drop_last() =~= self@.globals.take(i as int));
                assert(t1.last() == self@.globals[i as int]);
            }
            if seen {
                out.push(self.globals[i].name);
            }
            i = i + 1;
        }
        assert(self@.globals.take(self.globals.len() as int) =~= self@.globals);
        out
    }

    /// Binds the global `name` for `client`: records a fresh object `id` of
    /// the global's interface, at `version`, whose requests `requests`
    /// describes, and hands it back to be implemented.
    pub fn bind(
        &self,
        client: &mut Client,
        name: u32,
        id: u32,
        version: u32,
        requests: Vec<MessageDesc>,
    ) -> (r: Result<NewResource, BindError>)
        requires
            self.wf(),
        ensures
            ({
                let c = old(client)@;
                let gs = self@.globals;
                let g = global_named(gs, name);
                if c.state != ClientState::Connected {
                    r == Err::<NewResource, BindError>(BindError::ClientDead)
                } else if !(has_name(gs, name) && visible(g, c.client)) {
                    r == Err::<NewResource, BindError>(BindError::UnknownGlobal)
                } else if !(1 <= version <= g.version) {
                    r == Err::<NewResource, BindError>(BindError::BadVersion)
                } else if c.objects.contains_key(id) {
                    r == Err::<NewResource, BindError>(BindError::IdInUse)
                } else {
                    &&& r == Ok::<NewResource, BindError>(
                        NewResource { id, client: c.client, interface: g.interface },
                    )
                    &&& final(client)@ == (ClientView {
                        objects: c.objects.insert(
                            id,
                            ObjectMeta {
                                interface: g.interface,
                                version,
                                alive: true,
                                requests,
                                dispatcher: Dispatcher::Unimplemented,
                            },
                        ),
                        ..c
                    })
                }
            }),
            r is Err ==> final(client)@ == old(client)@,
    {
        if client.state() != ClientState::Connected {
            return Err(BindError::ClientDead);
        }
        let cid = client.resource_map().client();
        let i = match self.position(name) {
            None => {
                return Err(BindError::UnknownGlobal);
            },
            Some(i) => i,
        };
        proof {
            let gs = self@.globals;
            let j = choose|j: int| 0 <= j < gs.len() && gs[j].name == name;
            if j < i {
                assert(gs[j].name < gs[i as int].name);
            } else if j > i {
                assert(gs[i as int].name < gs[j].name);
            }
            assert(global_named(gs, name) == gs[i as int]);
        }
        if !self.visible_at(i, cid) {
            return Err(BindError::UnknownGlobal);
        }
        let g = &self.globals[i];
        if version < 1 || version > g.version {
            return Err(BindError::BadVersion);
        }
        let meta = ObjectMeta::new(g.interface.clone(), version, requests);
        match client.insert_object(id, meta) {
            Err(_) => Err(BindError::IdInUse),
            Ok(()) => Ok(NewResource { id, client: cid, interface: g.interface.clone() }),
        }
    }
}

} // verus!
