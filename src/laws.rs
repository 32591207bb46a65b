use vstd::prelude::*;

use crate::client::{
    decode_outcome, deliver_invocation, deliver_state, drain_result, live_destructors,
    runs_destructor, ClientState, ClientView, Delivery, DispatchError, Invocation, Scheduled,
};
use crate::map::ObjectMeta;
use crate::wire::Message;

verus! {

/// An id inserted into an object map is found until it is removed; other
/// insertions and removals leave it there; once removed, a second removal
/// finds nothing and reports it already removed.
pub proof fn lemma_find_until_removed(m: Map<u32, ObjectMeta>, id: u32, meta: ObjectMeta)
    requires
        !m.contains_key(id),
    ensures
        m.insert(id, meta).contains_key(id),
        m.insert(id, meta)[id] == meta,
        forall|j: u32, other: ObjectMeta|
            j != id ==> #[trigger] m.insert(id, meta).insert(j, other).contains_key(id),
        forall|j: u32| j != id ==> #[trigger] m.insert(id, meta).remove(j).contains_key(id),
        !m.insert(id, meta).remove(id).contains_key(id),
{
}

/// Draining two queues one after the other runs the same destructor
/// callbacks, in the same order, as draining them joined.
pub proof fn lemma_drain_append(p: Seq<Scheduled>, q: Seq<Scheduled>)
    ensures
        drain_result(p + q) == drain_result(p) + drain_result(q),
    decreases q.len(),
{
    if q.len() == 0 {
        assert(p + q =~= p);
        assert(drain_result(p) + drain_result(q) =~= drain_result(p));
    } else {
        lemma_drain_append(p, q.drop_last());
        assert((p + q).drop_last() =~= p + q.drop_last());
        assert((p + q).last() == q.last());
        if runs_destructor(q.last()) {
            assert(drain_result(p + q) =~= drain_result(p) + drain_result(q));
        } else {
            assert(drain_result(p + q) =~= drain_result(p) + drain_result(q));
        }
    }
}

/// A scheduled object yields at most one destructor callback: exactly one
/// where its handler has a destructor, none otherwise; an empty queue
/// yields none.
pub proof fn lemma_destructor_runs_once(p: Seq<Scheduled>, s: Scheduled)
    ensures
        drain_result(Seq::<Scheduled>::empty()) == Seq::<u32>::empty(),
        drain_result(p.push(s)) == drain_result(p) + (if runs_destructor(s) {
            seq![s.id]
        } else {
            Seq::<u32>::empty()
        }),
{
    assert(p.push(s).drop_last() =~= p);
    if runs_destructor(s) {
        assert(drain_result(p.push(s)) =~= drain_result(p) + seq![s.id]);
    } else {
        assert(drain_result(p.push(s)) =~= drain_result(p) + Seq::<u32>::empty());
    }
}

/// Dispatching a destructor request on object `id` takes `id` out of the
/// map and schedules its record, marked dead, for destruction; the handler
/// is still invoked, with a handle on `id` as it was used; and no later
/// message to `id` reaches a handler.
pub proof fn lemma_destructor_dispatch(c: ClientView, msg: Message, later: Message)
    requires
        decode_outcome(c, msg) is Ok,
        decode_outcome(c, msg)->Ok_0.request.destructor,
        later.sender_id == msg.sender_id,
    ensures
        ({
            let id = msg.sender_id;
            let d = decode_outcome(c, msg)->Ok_0;
            let after = deliver_state(c, d);
            &&& !after.objects.contains_key(id)
            &&& after.state == ClientState::Connected
            &&& after.pending == c.pending.push(
                Scheduled { id, meta: ObjectMeta { alive: false, ..c.objects[id] } },
            )
            &&& deliver_invocation(c, d) == Some(
                Invocation { request: d.request, resource: d.resource },
            )
            &&& d.resource.id == id && d.resource.interface == c.objects[id].interface
            &&& decode_outcome(after, later) == Err::<Delivery, DispatchError>(
                DispatchError::UnknownObject,
            )
        }),
{
}

/// Two dispatches of one destructor request that were decoded before
/// either was delivered: the first takes the object out of the map, the
/// second finds it gone and kills the connection. The object is scheduled
/// once, so its destructor callback runs at most once.
pub proof fn lemma_racing_destructors(c: ClientView, msg: Message)
    requires
        decode_outcome(c, msg) is Ok,
        decode_outcome(c, msg)->Ok_0.request.destructor,
    ensures
        ({
            let id = msg.sender_id;
            let d = decode_outcome(c, msg)->Ok_0;
            let first = deliver_state(c, d);
            let second = deliver_state(first, d);
            let s = Scheduled { id, meta: ObjectMeta { alive: false, ..c.objects[id] } };
            &&& first.state == ClientState::Connected
            &&& second.state == ClientState::Dying
            &&& second.pending == c.pending.push(s)
            &&& !second.objects.contains_key(id)
            &&& drain_result(second.pending) == drain_result(c.pending) + (if runs_destructor(s) {
                seq![id]
            } else {
                Seq::<u32>::empty()
            })
        }),
{
    let id = msg.sender_id;
    let s = Scheduled { id, meta: ObjectMeta { alive: false, ..c.objects[id] } };
    lemma_destructor_runs_once(c.pending, s);
}

/// A connection that is not connected dispatches nothing: every message
/// is refused and no delivery invokes a handler.
pub proof fn lemma_no_dispatch_unless_connected(c: ClientView, msg: Message, d: Delivery)
    requires
        c.state != ClientState::Connected,
    ensures
        decode_outcome(c, msg) == Err::<Delivery, DispatchError>(DispatchError::ClientDead),
        deliver_invocation(c, d) is None,
        deliver_state(c, d) == c,
{
}

/// Once a connection is closed, its queue and map are empty: closing or
/// draining it again runs no destructor callback, so none runs twice.
pub proof fn lemma_nothing_left_after_close(c: ClientView)
    requires
        c.objects == Map::<u32, ObjectMeta>::empty(),
        c.pending == Seq::<Scheduled>::empty(),
    ensures
        drain_result(c.pending) == Seq::<u32>::empty(),
        live_destructors(c.objects) == Set::<u32>::empty(),
{
    assert(live_destructors(c.objects) =~= Set::<u32>::empty());
}

} // verus!
