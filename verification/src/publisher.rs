use vstd::prelude::*;

use crate::event::DynEvent;
use crate::event::Event;
use crate::handler::DynHandle;
use crate::handler::DynHandleMut;
use crate::handler::Handler;

verus! {

/// How a stored handler must be invoked during dispatch.
#[derive(Clone, Copy, PartialEq, Eq, Structural)]
pub enum HandlerKind {
    /// Read-only: its invocations may run concurrently on worker threads.
    Shared,
    /// Mutating: every invocation runs under exclusive access, never
    /// concurrently with another mutating invocation.
    Exclusive,
}

/// One registry entry: the subscription id it was stored under, the tag of
/// the event type its handler is bound to, and how the handler must be
/// invoked.
#[derive(Clone, Copy, PartialEq, Eq, Structural)]
pub struct Subscription {
    pub id: usize,
    pub tag: u64,
    pub kind: HandlerKind,
}

/// Every id in the registry was issued: it is at least one and at most the
/// number of ids handed out so far.
pub open spec fn ids_issued(subs: Seq<Subscription>, issued: int) -> bool {
    forall|i: int| 0 <= i < subs.len() ==> 1 <= (#[trigger] subs[i]).id <= issued
}

/// Registry entries are kept in strictly increasing id order, so every id
/// occurs at most once.
pub open spec fn ids_increasing(subs: Seq<Subscription>) -> bool {
    forall|i: int, j: int|
        0 <= i < j < subs.len() ==> (#[trigger] subs[i]).id < (#[trigger] subs[j]).id
}

/// The registry without the entry stored under `id`: all other entries, in
/// their original order.
pub open spec fn without_id(subs: Seq<Subscription>, id: usize) -> Seq<Subscription>
    decreases subs.len(),
{
    if subs.len() == 0 {
        Seq::empty()
    } else {
        let rest = without_id(subs.drop_last(), id);
        if subs.last().id == id {
            rest
        } else {
            rest.push(subs.last())
        }
    }
}

/// The ids a published event is routed to among handlers of one kind: the
/// ids of the entries whose tag equals the event's tag, in registry order.
pub open spec fn matching_ids(subs: Seq<Subscription>, tag: u64, kind: HandlerKind) -> Seq<usize>
    decreases subs.len(),
{
    if subs.len() == 0 {
        Seq::empty()
    } else {
        let rest = matching_ids(subs.drop_last(), tag, kind);
        if subs.last().tag == tag && subs.last().kind == kind {
            rest.push(subs.last().id)
        } else {
            rest
        }
    }
}

/// The routing decision of one publish: which subscription ids receive the
/// event, split into the group that may be fanned out to worker threads and
/// the group that must run serially under exclusive access.
pub struct Dispatch {
    /// Ids of matching read-only handlers, in registry order.
    pub shared: Vec<usize>,
    /// Ids of matching mutating handlers, in registry order.
    pub exclusive: Vec<usize>,
}

/// The subscription registry and routing core of the dispatcher.
///
/// It records, for every live subscription, the id it was issued, the tag of
/// the event type its handler accepts, and whether the handler is read-only
/// or mutating.  Ids start at one, increase strictly, and are never reused,
/// so removing a stale id is always a safe no-op.
pub struct Publisher {
    count: usize,
    entries: Vec<Subscription>,
}

impl Publisher {
    /// How many subscription ids have been issued over this publisher's
    /// lifetime; the next subscription receives one more than this.
    pub closed spec fn issued(&self) -> int {
        self.count as int
    }

    /// The live registry entries, in strictly increasing id order.
    pub closed spec fn subs(&self) -> Seq<Subscription> {
        self.entries@
    }

    /// The registry's invariant: every stored id was issued, and entries are
    /// kept in strictly increasing id order.
    pub open spec fn wf(&self) -> bool {
        &&& ids_issued(self.subs(), self.issued())
        &&& ids_increasing(self.subs())
    }

    /// Some live entry is stored under `id`.
    pub open spec fn contains_id(&self, id: usize) -> bool {
        exists|i: int| 0 <= i < self.subs().len() && (#[trigger] self.subs()[i]).id == id
    }

    /// A publisher with an empty registry and no ids issued yet.
    pub fn new() -> (p: Publisher)
        ensures
            p.wf(),
            p.issued() == 0,
            p.subs() == Seq::<Subscription>::empty(),
    {
        Publisher { count: 0, entries: Vec::new() }
    }

    /// How many subscription ids have been issued so far; callers use this
    /// to see that the id counter has room before subscribing.
    pub fn issued_count(&self) -> (n: usize)
        ensures
            n == self.issued(),
    {
        self.count
    }

    /// Store one entry under a fresh id and return the id.
    fn store(&mut self, tag: u64, kind: HandlerKind) -> (id: usize)
        requires
            old(self).wf(),
            old(self).issued() < usize::MAX,
        ensures
            final(self).wf(),
            id == old(self).issued() + 1,
            final(self).issued() == id,
            final(self).subs() == old(self).subs().push(Subscription { id, tag, kind }),
    {
        let id = self.count + 1;
        self.entries.push(Subscription { id, tag, kind });
        self.count = id;
        id
    }

    /// Subscribe a read-only handler: record it in the registry under a
    /// fresh id — one more than the last id issued — and return that id,
    /// which is what `unsubscribe` takes.  The caller keeps the handler and
    /// invokes it when a publish routes to this id.
    pub fn subscribe<H: DynHandle>(&mut self, handler: &H) -> (id: usize)
        requires
            old(self).wf(),
            old(self).issued() < usize::MAX,
        ensures
            final(self).wf(),
            id == old(self).issued() + 1,
            final(self).issued() == id,
            final(self).subs() == old(self).subs().push(
                Subscription { id, tag: handler.bound_tag(), kind: HandlerKind::Shared },
            ),
    {
        let tag = handler.erased_tag();
        self.store(tag, HandlerKind::Shared)
    }

    /// Subscribe a bare function or closure to events of its input type:
    /// wrap it as a read-only handler, record the handler under a fresh id,
    /// and return the id together with the handler for the caller to keep.
    pub fn subscribe_with<T: Event, F: Fn(T)>(&mut self, f: F) -> (r: (usize, Handler<T, F>))
        requires
            old(self).wf(),
            old(self).issued() < usize::MAX,
            forall|v: T| call_requires(f, (v,)),
        ensures
            final(self).wf(),
            r.0 == old(self).issued() + 1,
            final(self).issued() == r.0,
            r.1.bound_tag() == T::tag_spec(),
            final(self).subs() == old(self).subs().push(
                Subscription { id: r.0, tag: T::tag_spec(), kind: HandlerKind::Shared },
            ),
    {
        let wrapped = Handler::new(f);
        let id = self.subscribe(&wrapped);
        (id, wrapped)
    }

    /// Subscribe a mutating handler: record it in the registry under a fresh
    /// id drawn from the same counter as read-only subscriptions, and return
    /// the id.  During dispatch it will only ever be invoked under exclusive
    /// access.
    pub fn subscribe_mut<H: DynHandleMut>(&mut self, handler: &H) -> (id: usize)
        requires
            old(self).wf(),
            old(self).issued() < usize::MAX,
        ensures
            final(self).wf(),
            id == old(self).issued() + 1,
            final(self).issued() == id,
            final(self).subs() == old(self).subs().push(
                Subscription { id, tag: handler.bound_tag(), kind: HandlerKind::Exclusive },
            ),
    {
        let tag = handler.erased_tag();
        self.store(tag, HandlerKind::Exclusive)
    }

    /// Remove the entry stored under `id`, so that the handler stops
    /// receiving events.  Removing an id that is absent — never issued, or
    /// already removed — is a silent no-op, never an error, and no id is
    /// ever reissued.
    pub fn unsubscribe(&mut self, id: usize)
        requires
            old(self).wf(),
        ensures
            final(self).wf(),
            final(self).issued() == old(self).issued(),
            final(self).subs() == without_id(old(self).subs(), id),
            !final(self).contains_id(id),
    {
        let ghost old_subs = self.entries@;
        let mut kept: Vec<Subscription> = Vec::new();
        let mut i: usize = 0;
        while i < self.entries.len()
            invariant
                0 <= i <= self.entries.len(),
                self.entries@ == old_subs,
                kept@ == without_id(old_subs.take(i as int), id),
            decreases self.entries.len() - i,
        {
            proof {
                assert(old_subs.take(i + 1).drop_last() =~= old_subs.take(i as int));
                assert(old_subs.take(i + 1).last() == old_subs[i as int]);
            }
            let entry = self.entries[i];
            if entry.id != id {
                kept.push(entry);
            }
            i += 1;
        }
        proof {
            assert(old_subs.take(old_subs.len() as int) =~= old_subs);
        }
        self.entries = kept;
        proof {
            lemma_without_id_shape(old_subs, id);
            lemma_without_id_keeps_order(old_subs, id, old(self).issued());
        }
    }

    /// Remove the entry of a mutating handler.  Subscriptions of both kinds
    /// live in one registry, so this is removal by id, exactly as
    /// [`Publisher::unsubscribe`].
    pub fn unsubscribe_mut(&mut self, id: usize)
        requires
            old(self).wf(),
        ensures
            final(self).wf(),
            final(self).issued() == old(self).issued(),
            final(self).subs() == without_id(old(self).subs(), id),
            !final(self).contains_id(id),
    {
        self.unsubscribe(id)
    }

    /// Route one published event: decide, from the registry alone, which
    /// subscription ids receive an event of this type — exactly those whose
    /// recorded tag equals the event's tag — split into the read-only group
    /// and the mutating group, each in registry order.  An empty registry,
    /// or one with no matching entry, yields an empty plan.
    pub fn publish<E: Event>(&self, event: &E) -> (plan: Dispatch)
        requires
            self.wf(),
        ensures
            plan.shared@ == matching_ids(self.subs(), E::tag_spec(), HandlerKind::Shared),
            plan.exclusive@ == matching_ids(self.subs(), E::tag_spec(), HandlerKind::Exclusive),
    {
        let tag = event.get_data();
        let mut shared: Vec<usize> = Vec::new();
        let mut exclusive: Vec<usize> = Vec::new();
        let mut i: usize = 0;
        while i < self.entries.len()
            invariant
                0 <= i <= self.entries.len(),
                tag == E::tag_spec(),
                shared@ == matching_ids(self.entries@.take(i as int), tag, HandlerKind::Shared),
                exclusive@ == matching_ids(
                    self.entries@.take(i as int),
                    tag,
                    HandlerKind::Exclusive,
                ),
            decreases self.entries.len() - i,
        {
            proof {
                assert(self.entries@.take(i + 1).drop_last() =~= self.entries@.take(i as int));
                assert(self.entries@.take(i + 1).last() == self.entries@[i as int]);
            }
            let entry = self.entries[i];
            if entry.tag == tag {
                match entry.kind {
                    HandlerKind::Shared => shared.push(entry.id),
                    HandlerKind::Exclusive => exclusive.push(entry.id),
                }
            }
            i += 1;
        }
        proof {
            assert(self.entries@.take(self.entries@.len() as int) =~= self.entries@);
        }
        Dispatch { shared, exclusive }
    }
}

impl Default for Publisher {
    /// A publisher with an empty registry and no ids issued yet.
    fn default() -> (p: Publisher)
        ensures
            p.wf(),
            p.issued() == 0,
            p.subs() == Seq::<Subscription>::empty(),
    {
        Publisher::new()
    }
}

/// Whatever id is removed, the remaining entries are a selection of the old
/// ones: none is stored under the removed id, and each was in the registry
/// before.
pub proof fn lemma_without_id_shape(subs: Seq<Subscription>, id: usize)
    ensures
        forall|k: int|
            0 <= k < without_id(subs, id).len() ==> (#[trigger] without_id(subs, id)[k]).id != id
                && subs.contains(without_id(subs, id)[k]),
    decreases subs.len(),
{
    if subs.len() > 0 {
        lemma_without_id_shape(subs.drop_last(), id);
        assert forall|k: int| 0 <= k < without_id(subs, id).len() implies (#[trigger] without_id(
            subs,
            id,
        )[k]).id != id && subs.contains(without_id(subs, id)[k]) by {
            let rest = without_id(subs.drop_last(), id);
            if k < rest.len() {
                assert(without_id(subs, id)[k] == rest[k]);
                let j = choose|j: int|
                    0 <= j < subs.drop_last().len() && subs.drop_last()[j] == rest[k];
                assert(subs[j] == rest[k]);
            } else {
                assert(without_id(subs, id)[k] == subs.last());
                assert(subs[subs.len() - 1] == subs.last());
            }
        }
    }
}

/// Removal by id keeps the registry invariant: the remaining entries still
/// carry issued ids in strictly increasing order.
pub proof fn lemma_without_id_keeps_order(subs: Seq<Subscription>, id: usize, issued: int)
    requires
        ids_issued(subs, issued),
        ids_increasing(subs),
    ensures
        ids_issued(without_id(subs, id), issued),
        ids_increasing(without_id(subs, id)),
    decreases subs.len(),
{
    if subs.len() > 0 {
        assert(subs.drop_last() =~= subs.take(subs.len() - 1));
        lemma_without_id_keeps_order(subs.drop_last(), id, issued);
        let rest = without_id(subs.drop_last(), id);
        lemma_without_id_shape(subs.drop_last(), id);
        if subs.last().id != id {
            let r = without_id(subs, id);
            assert forall|i: int, j: int| 0 <= i < j < r.len() implies (#[trigger] r[i]).id < (
            #[trigger] r[j]).id by {
                if j < rest.len() {
                } else {
                    assert(r[j] == subs.last());
                    assert(r[i] == rest[i]);
                    let m = choose|m: int|
                        0 <= m < subs.drop_last().len() && subs.drop_last()[m] == rest[i];
                    assert(subs[m] == rest[i]);
                    assert(subs[m].id < subs.last().id);
                }
            }
        }
    }
}

/// The routing of one publish is exact: an id is routed to, among handlers
/// of one kind, precisely when the registry holds an entry under that id
/// with the event's tag and that kind.
pub proof fn lemma_matching_ids_membership(subs: Seq<Subscription>, tag: u64, kind: HandlerKind)
    ensures
        forall|x: usize|
            #[trigger] matching_ids(subs, tag, kind).contains(x) <==> subs.contains(
                Subscription { id: x, tag, kind },
            ),
    decreases subs.len(),
{
    if subs.len() > 0 {
        lemma_matching_ids_membership(subs.drop_last(), tag, kind);
        assert forall|x: usize| #[trigger] matching_ids(subs, tag, kind).contains(x) <==> subs
            .contains(Subscription { id: x, tag, kind }) by {
            let rest = matching_ids(subs.drop_last(), tag, kind);
            let whole = matching_ids(subs, tag, kind);
            if whole.contains(x) {
                let k = choose|k: int| 0 <= k < whole.len() && whole[k] == x;
                if k < rest.len() {
                    assert(rest[k] == x);
                    assert(rest.contains(x));
                    let j = choose|j: int|
                        0 <= j < subs.drop_last().len() && subs.drop_last()[j] == Subscription {
                            id: x,
                            tag,
                            kind,
                        };
                    assert(subs[j] == Subscription { id: x, tag, kind });
                } else {
                    assert(whole[k] == subs.last().id);
                    assert(subs[subs.len() - 1] == Subscription { id: x, tag, kind });
                }
            }
            if subs.contains(Subscription { id: x, tag, kind }) {
                let j = choose|j: int|
                    0 <= j < subs.len() && subs[j] == Subscription { id: x, tag, kind };
                if j < subs.len() - 1 {
                    assert(subs.drop_last()[j] == Subscription { id: x, tag, kind });
                    assert(subs.drop_last().contains(Subscription { id: x, tag, kind }));
                    assert(rest.contains(x));
                    let k = choose|k: int| 0 <= k < rest.len() && rest[k] == x;
                    assert(whole[k] == x);
                    assert(whole.contains(x));
                } else {
                    assert(subs.last() == Subscription { id: x, tag, kind });
                    assert(whole.last() == x);
                    assert(whole.contains(x));
                }
            }
        }
    }
}

/// Routing never duplicates a handler: with registry ids in strictly
/// increasing order, the routed ids are strictly increasing too, so one
/// publish routes to each matching handler exactly once.
pub proof fn lemma_matching_ids_once(subs: Seq<Subscription>, tag: u64, kind: HandlerKind)
    requires
        ids_increasing(subs),
    ensures
        forall|i: int, j: int|
            0 <= i < j < matching_ids(subs, tag, kind).len() ==> #[trigger] matching_ids(
                subs,
                tag,
                kind,
            )[i] < #[trigger] matching_ids(subs, tag, kind)[j],
    decreases subs.len(),
{
    if subs.len() > 0 {
        assert(subs.drop_last() =~= subs.take(subs.len() - 1));
        lemma_matching_ids_once(subs.drop_last(), tag, kind);
        let rest = matching_ids(subs.drop_last(), tag, kind);
        let whole = matching_ids(subs, tag, kind);
        lemma_matching_ids_membership(subs.drop_last(), tag, kind);
        assert forall|i: int, j: int| 0 <= i < j < whole.len() implies #[trigger] whole[i]
            < #[trigger] whole[j] by {
            if j < rest.len() {
            } else if j == rest.len() && whole.len() > rest.len() {
                assert(whole[j] == subs.last().id);
                assert(whole[i] == rest[i]);
                assert(rest.contains(rest[i]));
                let m = choose|m: int|
                    0 <= m < subs.drop_last().len() && subs.drop_last()[m] == Subscription {
                        id: rest[i],
                        tag,
                        kind,
                    };
                assert(subs[m].id == rest[i]);
                assert(subs[m].id < subs.last().id);
            }
        }
    }
}

/// Type filtering is exact: a publish of an event routes, among handlers of
/// one kind, to precisely the ids registered for the event's tag — each
/// exactly once — and a handler registered for any other tag is never
/// routed to.
pub proof fn lemma_routing_exact(p: &Publisher, tag: u64, kind: HandlerKind)
    requires
        p.wf(),
    ensures
        forall|x: usize|
            #[trigger] matching_ids(p.subs(), tag, kind).contains(x) <==> p.subs().contains(
                Subscription { id: x, tag, kind },
            ),
        forall|i: int, j: int|
            0 <= i < j < matching_ids(p.subs(), tag, kind).len() ==> #[trigger] matching_ids(
                p.subs(),
                tag,
                kind,
            )[i] != #[trigger] matching_ids(p.subs(), tag, kind)[j],
{
    lemma_matching_ids_membership(p.subs(), tag, kind);
    lemma_matching_ids_once(p.subs(), tag, kind);
}

/// Ids are never reused: every id the registry holds is at most the number
/// of ids issued, so an id above that — in particular the next one to be
/// issued — is not in the registry, and a subscription under it is fresh.
pub proof fn lemma_issued_id_fresh(p: &Publisher, id: usize)
    requires
        p.wf(),
        id > p.issued(),
    ensures
        !p.contains_id(id),
{
}

/// An unsubscribed handler is never routed to again: once its id is removed
/// from the registry, no publish of any event type routes to that id.
pub proof fn lemma_unsubscribed_not_routed(
    subs: Seq<Subscription>,
    id: usize,
    tag: u64,
    kind: HandlerKind,
)
    ensures
        !matching_ids(without_id(subs, id), tag, kind).contains(id),
{
    lemma_without_id_shape(subs, id);
    lemma_matching_ids_membership(without_id(subs, id), tag, kind);
    let remaining = without_id(subs, id);
    if matching_ids(remaining, tag, kind).contains(id) {
        assert(remaining.contains(Subscription { id, tag, kind }));
        let j = choose|j: int|
            0 <= j < remaining.len() && remaining[j] == Subscription { id, tag, kind };
        assert(remaining[j].id != id);
    }
}

/// An empty registry routes an event of any type to nothing: the publish
/// succeeds without invoking a handler.
pub proof fn lemma_empty_registry_routes_nothing(p: &Publisher, tag: u64, kind: HandlerKind)
    requires
        p.subs().len() == 0,
    ensures
        matching_ids(p.subs(), tag, kind) == Seq::<usize>::empty(),
{
    assert(matching_ids(p.subs(), tag, kind) =~= Seq::<usize>::empty());
}

} // verus!
