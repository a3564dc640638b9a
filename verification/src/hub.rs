//! The subscriber hub: the registry of downstream sinks and the plan of a
//! broadcast to them.
//!
//! The hub owns the sinks but never writes to one. A broadcast is planned
//! here and carried out by the caller, who makes every delivery of the plan
//! and then hands back the handles of the sinks that failed; those sinks
//! are unregistered, the others stay as they are.

use vstd::prelude::*;

verus! {

/// A registered sink and the handle it was given.
struct Subscriber<S> {
    handle: u64,
    sink: S,
}

/// The registry of sinks, in the order of their registration.
pub struct SubscriberHub<S> {
    subscribers: Vec<Subscriber<S>>,
    next_handle: u64,
}

/// One message to hand to one sink.
#[derive(Debug, PartialEq, Eq)]
pub struct Delivery {
    pub handle: u64,
    pub payload: String,
}

/// The test that every subscriber but the one with the given handle passes.
pub open spec fn other_than<S>(handle: u64) -> spec_fn((u64, S)) -> bool {
    |entry: (u64, S)| entry.0 != handle
}

/// The subscribers that are left when the one with the given handle leaves.
pub open spec fn without<S>(subscribers: Seq<(u64, S)>, handle: u64) -> Seq<(u64, S)> {
    subscribers.filter(other_than(handle))
}

/// The test that a subscriber passes when its handle is in the list.
pub open spec fn among<S>(handles: Seq<u64>) -> spec_fn((u64, S)) -> bool {
    |entry: (u64, S)| handles.contains(entry.0)
}

/// The test that a subscriber passes when its handle is not in the list.
pub open spec fn not_among<S>(handles: Seq<u64>) -> spec_fn((u64, S)) -> bool {
    |entry: (u64, S)| !handles.contains(entry.0)
}

/// The subscribers that are left when all those with a handle of the list
/// leave.
pub open spec fn without_all<S>(subscribers: Seq<(u64, S)>, handles: Seq<u64>) -> Seq<(u64, S)> {
    subscribers.filter(not_among(handles))
}

/// The sinks of a sequence of subscribers.
pub open spec fn sinks_of<S>(subscribers: Seq<(u64, S)>) -> Seq<S> {
    Seq::new(subscribers.len(), |i: int| subscribers[i].1)
}

/// Whether some subscriber has the given handle.
pub open spec fn has_handle<S>(subscribers: Seq<(u64, S)>, handle: u64) -> bool {
    exists|i: int| 0 <= i < subscribers.len() && (#[trigger] subscribers[i]).0 == handle
}

/// The handles are in strictly rising order, hence no two are the same.
pub open spec fn rising<S>(subscribers: Seq<(u64, S)>) -> bool {
    forall|i: int, j: int|
        0 <= i < j < subscribers.len() ==> (#[trigger] subscribers[i]).0 < (
        #[trigger] subscribers[j]).0
}

/// The text of the event that carries a candle: a JSON object with the
/// members `type`, which is `candle`, and `value`, the candle as JSON.
pub open spec fn candle_event(candle_json: Seq<char>) -> Seq<char> {
    "{\"type\":\"candle\",\"value\":"@ + candle_json + "}"@
}

proof fn lemma_filter_keeps_all<A>(s: Seq<A>, pred: spec_fn(A) -> bool)
    requires
        forall|i: int| 0 <= i < s.len() ==> pred(#[trigger] s[i]),
    ensures
        s.filter(pred) == s,
    decreases s.len(),
{
    reveal(Seq::filter);
    if s.len() > 0 {
        let front = s.drop_last();
        lemma_filter_keeps_all(front, pred);
    }
}

/// Where exactly one entry fails a test, filtering by the test removes that
/// entry.
proof fn lemma_filter_removes_one<A>(s: Seq<A>, pred: spec_fn(A) -> bool, at: int)
    requires
        0 <= at < s.len(),
        !pred(s[at]),
        forall|i: int| 0 <= i < s.len() && i != at ==> pred(#[trigger] s[i]),
    ensures
        s.filter(pred) == s.remove(at),
{
    let front = s.take(at);
    let middle = seq![s[at]];
    let back = s.skip(at + 1);
    assert(s =~= front + (middle + back));
    Seq::filter_distributes_over_add(front, middle + back, pred);
    Seq::filter_distributes_over_add(middle, back, pred);
    lemma_filter_keeps_all(front, pred);
    lemma_filter_keeps_all(back, pred);
    assert(middle.filter(pred) =~= Seq::<A>::empty()) by {
        reveal_with_fuel(Seq::filter, 2);
    }
}

impl<S> View for SubscriberHub<S> {
    type V = Seq<(u64, S)>;

    closed spec fn view(&self) -> Seq<(u64, S)> {
        Seq::new(
            self.subscribers@.len(),
            |i: int| (self.subscribers@[i].handle, self.subscribers@[i].sink),
        )
    }
}

impl<S> SubscriberHub<S> {
    /// Number of handles given out so far.
    pub closed spec fn issued(&self) -> nat {
        self.next_handle as nat
    }

    /// Handles rise in the order of registration, and every handle in use
    /// was given out.
    pub closed spec fn wf(&self) -> bool {
        &&& rising(self@)
        &&& forall|i: int| 0 <= i < self@.len() ==> (#[trigger] self@[i]).0 < self.next_handle
    }

    /// A hub without subscribers.
    pub fn new() -> (hub: SubscriberHub<S>)
        ensures
            hub.wf(),
            hub@.len() == 0,
            hub.issued() == 0,
    {
        SubscriberHub { subscribers: Vec::new(), next_handle: 0 }
    }

    /// Number of subscribers.
    pub fn len(&self) -> (n: usize)
        ensures
            n == self@.len(),
    {
        self.subscribers.len()
    }

    /// Handle of the subscriber at a position of the registry.
    pub fn handle_at(&self, index: usize) -> (handle: u64)
        requires
            index < self@.len(),
        ensures
            handle == self@[index as int].0,
    {
        self.subscribers[index].handle
    }

    /// Sink of the subscriber at a position of the registry.
    pub fn sink_at(&self, index: usize) -> (sink: &S)
        requires
            index < self@.len(),
        ensures
            *sink == self@[index as int].1,
    {
        &self.subscribers[index].sink
    }

    fn find(&self, handle: u64) -> (found: Option<usize>)
        requires
            self.wf(),
        ensures
            found is Some <==> has_handle(self@, handle),
            found matches Some(at) ==> at < self@.len() && self@[at as int].0 == handle,
    {
        let mut i: usize = 0;
        while i < self.subscribers.len()
            invariant
                i <= self.subscribers@.len(),
                forall|k: int| 0 <= k < i ==> (#[trigger] self@[k]).0 != handle,
            decreases self.subscribers@.len() - i,
        {
            if self.subscribers[i].handle == handle {
                assert(self@[i as int].0 == handle);
                return Some(i);
            }
            i += 1;
        }
        None
    }

    /// The sink registered under a handle, while it is registered.
    pub fn sink(&self, handle: u64) -> (found: Option<&S>)
        requires
            self.wf(),
        ensures
            found is Some <==> has_handle(self@, handle),
            found matches Some(sink) ==> exists|i: int|
                0 <= i < self@.len() && #[trigger] self@[i] == (handle, *sink),
    {
        match self.find(handle) {
            Some(at) => {
                Some(&self.subscribers[at].sink)
            },
            None => None,
        }
    }
}

/// Registers a sink. The handle is the number of handles given out before,
/// so it was never in use; the sink is placed behind all registered ones.
/// `None`, with the hub unchanged, only when all handles have been given out.
pub fn add_client<S>(hub: &mut SubscriberHub<S>, client: S) -> (handle: Option<u64>)
    requires
        old(hub).wf(),
    ensures
        final(hub).wf(),
        handle is Some <==> old(hub).issued() < u64::MAX,
        match handle {
            Some(given) => {
                &&& given == old(hub).issued()
                &&& !has_handle(old(hub)@, given)
                &&& final(hub)@ == old(hub)@.push((given, client))
                &&& final(hub).issued() == old(hub).issued() + 1
            },
            None => final(hub)@ == old(hub)@ && final(hub).issued() == old(hub).issued(),
        },
{
    if hub.next_handle == u64::MAX {
        return None;
    }
    let given = hub.next_handle;
    let ghost before = hub@;
    hub.subscribers.push(Subscriber { handle: given, sink: client });
    hub.next_handle = given + 1;
    assert(hub@ =~= before.push((given, client)));
    Some(given)
}

/// Unregisters the sink with the given handle and hands it back; the other
/// sinks keep their order. Where no sink has the handle, nothing changes.
pub fn remove_client<S>(hub: &mut SubscriberHub<S>, handle: u64) -> (removed: Option<S>)
    requires
        old(hub).wf(),
    ensures
        final(hub).wf(),
        final(hub).issued() == old(hub).issued(),
        final(hub)@ == without(old(hub)@, handle),
        !has_handle(final(hub)@, handle),
        removed is Some <==> has_handle(old(hub)@, handle),
        removed matches Some(sink) ==> exists|i: int|
            0 <= i < old(hub)@.len() && #[trigger] old(hub)@[i] == (handle, sink),
        removed is None ==> final(hub)@ == old(hub)@,
{
    let ghost before = hub@;
    let ghost kept = other_than::<S>(handle);
    match hub.find(handle) {
        Some(at) => {
            let subscriber = hub.subscribers.remove(at);
            proof {
                assert(hub@ =~= before.remove(at as int));
                lemma_filter_removes_one(before, kept, at as int);
            }
            Some(subscriber.sink)
        },
        None => {
            proof {
                lemma_filter_keeps_all(before, kept);
            }
            None
        },
    }
}

fn listed(handles: &Vec<u64>, handle: u64) -> (found: bool)
    ensures
        found == handles@.contains(handle),
{
    let mut i: usize = 0;
    while i < handles.len()
        invariant
            i <= handles@.len(),
            forall|k: int| 0 <= k < i ==> handles@[k] != handle,
        decreases handles@.len() - i,
    {
        if handles[i] == handle {
            return true;
        }
        i += 1;
    }
    false
}

/// Settles a broadcast: unregisters every sink whose delivery failed and
/// hands those sinks back, in the order of their registration. The sinks
/// whose handle is not in the list stay, in their order; a handle of the
/// list that no sink has changes nothing.
pub fn drop_failed<S>(hub: &mut SubscriberHub<S>, failed: &Vec<u64>) -> (removed: Vec<S>)
    requires
        old(hub).wf(),
    ensures
        final(hub).wf(),
        final(hub).issued() == old(hub).issued(),
        final(hub)@ == without_all(old(hub)@, failed@),
        removed@ == sinks_of(old(hub)@.filter(among(failed@))),
{
    let ghost before = hub@;
    let ghost keep = not_among::<S>(failed@);
    let ghost gone = among::<S>(failed@);
    let mut removed: Vec<S> = Vec::new();
    let mut i: usize = 0;
    let ghost mut seen: int = 0;
    proof {
        reveal(Seq::filter);
        assert(before.take(0) =~= Seq::<(u64, S)>::empty());
        assert(hub@ =~= before.take(0).filter(keep) + before.skip(0));
        assert(removed@ =~= sinks_of(before.take(0).filter(gone)));
    }
    while i < hub.subscribers.len()
        invariant
            hub.wf(),
            hub.issued() == old(hub).issued(),
            before == old(hub)@,
            keep == not_among::<S>(failed@),
            gone == among::<S>(failed@),
            0 <= seen <= before.len(),
            i == before.take(seen).filter(keep).len(),
            hub@ == before.take(seen).filter(keep) + before.skip(seen),
            removed@ == sinks_of(before.take(seen).filter(gone)),
        decreases hub.subscribers@.len() - i,
    {
        let ghost kept_so_far = before.take(seen).filter(keep);
        let ghost gone_so_far = before.take(seen).filter(gone);
        let ghost here = hub@;
        proof {
            assert(here[i as int] == before.skip(seen)[0]);
            assert(before.take(seen + 1) =~= before.take(seen).push(before[seen]));
            before.take(seen).lemma_filter_push(before[seen], keep);
            before.take(seen).lemma_filter_push(before[seen], gone);
        }
        if listed(failed, hub.subscribers[i].handle) {
            let subscriber = hub.subscribers.remove(i);
            removed.push(subscriber.sink);
            proof {
                assert(hub@ =~= here.remove(i as int));
                assert(hub@ =~= kept_so_far + before.skip(seen + 1));
                assert(removed@ =~= sinks_of(gone_so_far.push(before[seen])));
            }
        } else {
            i += 1;
            proof {
                assert(hub@ =~= kept_so_far.push(before[seen]) + before.skip(seen + 1));
                assert(removed@ =~= sinks_of(gone_so_far));
            }
        }
        proof {
            seen = seen + 1;
        }
    }
    proof {
        assert(before.skip(seen).len() == 0);
        assert(before.take(seen) =~= before);
        assert(hub@ =~= before.filter(keep));
    }
    removed
}

/// Plans the broadcast of a message: one delivery of the same text to every
/// registered sink, in the order of registration.
pub fn send_message_to_clients<S>(hub: &SubscriberHub<S>, message: &str) -> (plan: Vec<Delivery>)
    ensures
        plan@.len() == hub@.len(),
        forall|i: int|
            0 <= i < plan@.len() ==> (#[trigger] plan@[i]).handle == hub@[i].0 && plan@[i].payload@
                == message@,
{
    let mut plan: Vec<Delivery> = Vec::new();
    let mut i: usize = 0;
    while i < hub.subscribers.len()
        invariant
            i <= hub.subscribers@.len(),
            plan@.len() == i,
            forall|k: int|
                0 <= k < i ==> (#[trigger] plan@[k]).handle == hub@[k].0 && plan@[k].payload@
                    == message@,
        decreases hub.subscribers@.len() - i,
    {
        plan.push(Delivery { handle: hub.subscribers[i].handle, payload: message.to_owned() });
        i += 1;
    }
    plan
}

/// Wraps the JSON text of a candle into the event that subscribers receive
/// and plans its broadcast. The text is written once and handed, unchanged,
/// to every registered sink.
pub fn send_candle<S>(hub: &SubscriberHub<S>, candle_json: &str) -> (plan: Vec<Delivery>)
    ensures
        plan@.len() == hub@.len(),
        forall|i: int|
            0 <= i < plan@.len() ==> (#[trigger] plan@[i]).handle == hub@[i].0 && plan@[i].payload@
                == candle_event(candle_json@),
{
    let mut message = String::from_str("{\"type\":\"candle\",\"value\":");
    message.append(candle_json);
    message.append("}");
    send_message_to_clients(hub, message.as_str())
}

/// Unregistering the sink that was registered last gives the registry as
/// it was before that registration.
pub proof fn lemma_register_then_unregister<S>(subscribers: Seq<(u64, S)>, handle: u64, sink: S)
    requires
        !has_handle(subscribers, handle),
    ensures
        without(subscribers.push((handle, sink)), handle) == subscribers,
{
    let kept = other_than::<S>(handle);
    subscribers.lemma_filter_push((handle, sink), kept);
    lemma_filter_keeps_all(subscribers, kept);
}

/// Unregistering is idempotent: a handle that has left cannot leave again.
pub proof fn lemma_unregister_twice<S>(subscribers: Seq<(u64, S)>, handle: u64)
    ensures
        without(without(subscribers, handle), handle) == without(subscribers, handle),
{
    let kept = other_than::<S>(handle);
    let left = subscribers.filter(kept);
    lemma_filter_keeps_all(left, kept);
}

/// Two tests that agree on every entry of a sequence leave the same
/// entries.
proof fn lemma_filter_agrees<A>(s: Seq<A>, first: spec_fn(A) -> bool, second: spec_fn(A) -> bool)
    requires
        forall|i: int| 0 <= i < s.len() ==> first(#[trigger] s[i]) == second(s[i]),
    ensures
        s.filter(first) == s.filter(second),
    decreases s.len(),
{
    reveal(Seq::filter);
    if s.len() > 0 {
        let front = s.drop_last();
        assert forall|i: int| 0 <= i < front.len() implies first(#[trigger] front[i]) == second(
            front[i],
        ) by {
            assert(front[i] == s[i]);
        }
        lemma_filter_agrees(front, first, second);
    }
}

/// Dropping a single failed sink is unregistering it, and dropping none
/// changes nothing.
pub proof fn lemma_drop_one_or_none<S>(subscribers: Seq<(u64, S)>, handle: u64)
    ensures
        without_all(subscribers, seq![handle]) == without(subscribers, handle),
        without_all(subscribers, Seq::<u64>::empty()) == subscribers,
{
    let one = seq![handle];
    assert forall|i: int| 0 <= i < subscribers.len() implies not_among::<S>(one)(
        #[trigger] subscribers[i],
    ) == other_than::<S>(handle)(subscribers[i]) by {
        if subscribers[i].0 == handle {
            assert(one[0] == handle);
        }
    }
    lemma_filter_agrees(subscribers, not_among::<S>(one), other_than::<S>(handle));
    lemma_filter_keeps_all(subscribers, not_among::<S>(Seq::<u64>::empty()));
}

} // verus!
