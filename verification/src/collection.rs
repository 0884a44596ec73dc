use vstd::prelude::*;

use crate::arena::HandleModel;
use crate::arena::StrongRef;
use crate::arena::SubscriberArena;
use crate::arena::WeakRef;
use crate::subscriber::Subscriber;
use crate::subscriber::notify_chain;
use crate::subscriber::lemma_notify_chain_step;

verus! {

/// The entries that survive a notification pass over `arena`: the live ones,
/// in their original relative order. Pruning is a stable in-place filter,
/// never a re-sort.
pub open spec fn live_entries<S>(entries: Seq<WeakRef>, arena: SubscriberArena<S>) -> Seq<WeakRef>
    decreases entries.len(),
{
    if entries.len() == 0 {
        Seq::empty()
    } else {
        let rest = live_entries(entries.drop_last(), arena);
        if arena.live(entries.last()@) {
            rest.push(entries.last())
        } else {
            rest
        }
    }
}

/// How many deliveries the subscriber incarnation `m` receives when the
/// handles in `entries` are notified: the number of entries that denote it.
pub open spec fn deliveries(entries: Seq<WeakRef>, m: HandleModel) -> nat
    decreases entries.len(),
{
    if entries.len() == 0 {
        0
    } else {
        deliveries(entries.drop_last(), m) + if entries.last()@ == m {
            1nat
        } else {
            0nat
        }
    }
}

/// Law (duplicate registration): registering a handle once more raises the
/// delivery count of its subscriber by exactly one, and of no other.
pub proof fn lemma_deliveries_push(entries: Seq<WeakRef>, w: WeakRef, m: HandleModel)
    ensures
        deliveries(entries.push(w), m) == deliveries(entries, m) + if w@ == m {
            1nat
        } else {
            0nat
        },
{
    assert(entries.push(w).drop_last() =~= entries);
}

/// Law: a subscriber no entry denotes receives no delivery.
pub proof fn lemma_deliveries_absent(entries: Seq<WeakRef>, m: HandleModel)
    requires
        forall|j: int| 0 <= j < entries.len() ==> (#[trigger] entries[j])@ != m,
    ensures
        deliveries(entries, m) == 0,
    decreases entries.len(),
{
    if entries.len() > 0 {
        assert(forall|j: int|
            0 <= j < entries.len() - 1 ==> (#[trigger] entries.drop_last()[j]) == entries[j]);
        lemma_deliveries_absent(entries.drop_last(), m);
    }
}

/// Law (single delivery): a subscriber denoted by exactly one entry receives
/// exactly one delivery.
pub proof fn lemma_deliveries_once(entries: Seq<WeakRef>, m: HandleModel, i: int)
    requires
        0 <= i < entries.len(),
        entries[i]@ == m,
        forall|j: int| 0 <= j < entries.len() && j != i ==> (#[trigger] entries[j])@ != m,
    ensures
        deliveries(entries, m) == 1,
    decreases entries.len(),
{
    assert(forall|j: int|
        0 <= j < entries.len() - 1 ==> (#[trigger] entries.drop_last()[j]) == entries[j]);
    if i == entries.len() - 1 {
        lemma_deliveries_absent(entries.drop_last(), m);
    } else {
        lemma_deliveries_once(entries.drop_last(), m, i);
    }
}

/// Law (delivery to all live entries, in order): when every entry is live,
/// a notification pass keeps all of them, in the order they were added.
pub proof fn lemma_live_entries_all_live<S>(entries: Seq<WeakRef>, arena: SubscriberArena<S>)
    requires
        forall|j: int| 0 <= j < entries.len() ==> arena.live((#[trigger] entries[j])@),
    ensures
        live_entries(entries, arena) == entries,
    decreases entries.len(),
{
    if entries.len() > 0 {
        assert(forall|j: int|
            0 <= j < entries.len() - 1 ==> (#[trigger] entries.drop_last()[j]) == entries[j]);
        lemma_live_entries_all_live(entries.drop_last(), arena);
        assert(entries.drop_last().push(entries.last()) =~= entries);
    }
}

/// Law (expiry): identity lookup can never report a handle whose subscriber
/// incarnation is not live, whatever entries the collection holds.
pub proof fn lemma_expired_never_found<S>(
    entries: Seq<WeakRef>,
    arena: SubscriberArena<S>,
    m: HandleModel,
)
    requires
        !arena.live(m),
    ensures
        !(exists|j: int|
            0 <= j < entries.len() && arena.live((#[trigger] entries[j])@) && entries[j]@ == m),
{
}

proof fn lemma_live_entries_take_step<S>(entries: Seq<WeakRef>, arena: SubscriberArena<S>, i: int)
    requires
        0 <= i < entries.len(),
    ensures
        live_entries(entries.take(i + 1), arena) == if arena.live(entries[i]@) {
            live_entries(entries.take(i), arena).push(entries[i])
        } else {
            live_entries(entries.take(i), arena)
        },
{
    assert(entries.take(i + 1).drop_last() =~= entries.take(i));
    assert(entries.take(i + 1).last() == entries[i]);
}

proof fn lemma_deliveries_take_step(entries: Seq<WeakRef>, m: HandleModel, i: int)
    requires
        0 <= i < entries.len(),
    ensures
        deliveries(entries.take(i + 1), m) == deliveries(entries.take(i), m) + if entries[i]@
            == m {
            1nat
        } else {
            0nat
        },
{
    assert(entries.take(i + 1).drop_last() =~= entries.take(i));
    assert(entries.take(i + 1).last() == entries[i]);
}

/// An ordered registry of weak subscriber handles. It owns no subscriber:
/// entries expire when their subscriber is destroyed elsewhere, are skipped
/// and pruned by the next `notify` pass that reaches them, and are observed
/// (but never pruned) by `has_subscriber`.
pub struct SubscriberCollection {
    entries: Vec<WeakRef>,
}

impl View for SubscriberCollection {
    type V = Seq<WeakRef>;

    closed spec fn view(&self) -> Seq<WeakRef> {
        self.entries@
    }
}

impl Default for SubscriberCollection {
    fn default() -> (c: Self)
        ensures
            c@ == Seq::<WeakRef>::empty(),
    {
        SubscriberCollection { entries: Vec::new() }
    }
}

impl SubscriberCollection {
    /// An empty collection.
    pub fn new() -> (c: Self)
        ensures
            c@ == Seq::<WeakRef>::empty(),
    {
        SubscriberCollection { entries: Vec::new() }
    }

    /// Appends a weak handle at the end of the sequence. No uniqueness check:
    /// adding the same subscriber twice is legal, and gives it two deliveries
    /// per notification pass.
    pub fn add(&mut self, subscriber: WeakRef)
        ensures
            final(self)@ == old(self)@.push(subscriber),
    {
        self.entries.push(subscriber);
    }

    /// How many entries the collection currently holds, expired ones
    /// included: only `notify` prunes.
    pub fn len(&self) -> (n: usize)
        ensures
            n == self@.len(),
    {
        self.entries.len()
    }

    /// The entry at position `i` of the internal sequence, when there is one:
    /// read access for callers that want to inspect the registry's order.
    pub fn entry(&self, i: usize) -> (w: Option<WeakRef>)
        ensures
            w == if i < self@.len() {
                Some(self@[i as int])
            } else {
                None::<WeakRef>
            },
    {
        if i < self.entries.len() {
            Some(self.entries[i])
        } else {
            None
        }
    }

    /// Delivers `value` to every subscriber that is still alive, in insertion
    /// order, and prunes every entry whose subscriber is gone.
    ///
    /// The contract states, for every subscriber incarnation `m` that is live
    /// at the start of the pass, that its state undergoes exactly
    /// `deliveries(old(self)@, m)` notify transitions with `value`: one per
    /// entry that denotes it, so a subscriber registered once is notified
    /// exactly once, and one registered twice exactly twice. The surviving
    /// entries are the live ones in their original order, so a pass never
    /// reorders, and a pruned entry is gone for good. Destroyed subscribers
    /// are not an error: their entries are silently dropped.
    ///
    /// Re-entrancy is ruled out by construction: a subscriber's `notify` sees
    /// only its own state and the value, never the collection or the arena,
    /// and both are exclusively borrowed for the whole pass.
    pub fn notify<T, S: Subscriber<T>>(&mut self, arena: &mut SubscriberArena<S>, value: &T)
        requires
            old(arena).wf(),
        ensures
            final(arena).wf(),
            final(self)@ == live_entries(old(self)@, *old(arena)),
            final(arena)@.len() == old(arena)@.len(),
            forall|m: HandleModel| #[trigger] final(arena).live(m) == old(arena).live(m),
            forall|m: HandleModel| #[trigger]
                old(arena).live(m) ==> notify_chain(
                    old(arena).value_at(m.slot),
                    *value,
                    final(arena).value_at(m.slot),
                    deliveries(old(self)@, m),
                ),
            forall|k: int|
                0 <= k < final(self)@.len() ==> final(arena).live((#[trigger] final(self)@[k])@),
            forall|m: HandleModel| #[trigger]
                old(arena).superseded(m) ==> final(arena).superseded(m),
    {
        let mut kept: Vec<WeakRef> = Vec::new();
        let n = self.entries.len();
        let mut i: usize = 0;
        while i < n
            invariant
                i <= n,
                n == old(self)@.len(),
                self@ == old(self)@,
                arena.wf(),
                arena@.len() == old(arena)@.len(),
                forall|i: int|
                    0 <= i < old(arena)@.len() ==> (#[trigger] arena@[i]).generation == old(
                        arena,
                    )@[i].generation,
                forall|m: HandleModel| #[trigger] arena.live(m) == old(arena).live(m),
                kept@ == live_entries(old(self)@.take(i as int), *old(arena)),
                forall|k: int|
                    0 <= k < kept@.len() ==> old(arena).live((#[trigger] kept@[k])@),
                forall|m: HandleModel| #[trigger]
                    old(arena).live(m) ==> notify_chain(
                        old(arena).value_at(m.slot),
                        *value,
                        arena.value_at(m.slot),
                        deliveries(old(self)@.take(i as int), m),
                    ),
            decreases n - i,
        {
            let w = self.entries[i];
            let ghost arena_prev = *arena;
            let was_live = arena.notify_entry(&w, value);
            if was_live {
                kept.push(w);
            }
            proof {
                lemma_live_entries_take_step(old(self)@, *old(arena), i as int);
                lemma_deliveries_take_step(old(self)@, w@, i as int);
                assert forall|m: HandleModel| #[trigger] old(arena).live(m) implies notify_chain(
                    old(arena).value_at(m.slot),
                    *value,
                    arena.value_at(m.slot),
                    deliveries(old(self)@.take(i as int + 1), m),
                ) by {
                    lemma_deliveries_take_step(old(self)@, m, i as int);
                    if m == w@ {
                        lemma_notify_chain_step(
                            old(arena).value_at(m.slot),
                            *value,
                            arena_prev.value_at(m.slot),
                            arena.value_at(m.slot),
                            deliveries(old(self)@.take(i as int), m),
                        );
                    } else {
                        if m.slot == w@.slot && arena_prev.live(w@) {
                            assert(m.generation == arena_prev@[m.slot].generation);
                            assert(w@.generation == arena_prev@[w@.slot].generation);
                            assert(false);
                        }
                        assert(arena.value_at(m.slot) == arena_prev.value_at(m.slot));
                    }
                }
            }
            i += 1;
        }
        proof {
            assert(old(self)@.take(n as int) =~= old(self)@);
        }
        self.entries = kept;
    }

    /// Whether some entry denotes the very subscriber the strong handle owns:
    /// identity, not structural equality, and no pruning — the collection is
    /// only read. An expired registration is never reported, even when the
    /// candidate handle denotes its old incarnation.
    pub fn has_subscriber<S>(
        &self,
        arena: &SubscriberArena<S>,
        subscriber: &StrongRef,
    ) -> (found: bool)
        ensures
            found == exists|j: int|
                0 <= j < self@.len() && arena.live((#[trigger] self@[j])@) && self@[j]@
                    == subscriber@,
    {
        let n = self.entries.len();
        let mut i: usize = 0;
        while i < n
            invariant
                i <= n,
                n == self@.len(),
                forall|j: int|
                    0 <= j < i ==> !(arena.live((#[trigger] self@[j])@) && self@[j]@
                        == subscriber@),
            decreases n - i,
        {
            let w = self.entries[i];
            if arena.is_live(&w) && w.refers_to(subscriber) {
                return true;
            }
            i += 1;
        }
        false
    }
}

} // verus!
