use vstd::prelude::*;

use crate::subscriber::Subscriber;

verus! {

/// The identity of one incarnation of an arena slot: which slot, and which
/// generation of that slot. Two handles denote the same subscriber exactly
/// when their models are equal, however the handles were obtained.
pub ghost struct HandleModel {
    pub slot: int,
    pub generation: u64,
}

/// One storage cell of the arena: the generation it is currently at, and the
/// subscriber it holds, if the subscriber has not been destroyed.
pub struct Slot<S> {
    pub generation: u64,
    pub value: Option<S>,
}

/// A non-owning handle to a subscriber in an arena. Holding or copying it
/// never keeps the subscriber alive; whether it still refers to a live
/// subscriber is discovered only by checking it against the arena.
#[derive(Clone, Copy)]
pub struct WeakRef {
    slot: usize,
    generation: u64,
}

/// The owning handle to a subscriber in an arena: the sole right to destroy
/// it. It cannot be copied, and destruction consumes it.
pub struct StrongRef {
    slot: usize,
    generation: u64,
}

impl View for WeakRef {
    type V = HandleModel;

    closed spec fn view(&self) -> HandleModel {
        HandleModel { slot: self.slot as int, generation: self.generation }
    }
}

impl View for StrongRef {
    type V = HandleModel;

    closed spec fn view(&self) -> HandleModel {
        HandleModel { slot: self.slot as int, generation: self.generation }
    }
}

impl StrongRef {
    /// A weak handle to the same subscriber incarnation.
    pub fn downgrade(&self) -> (w: WeakRef)
        ensures
            w@ == self@,
    {
        WeakRef { slot: self.slot, generation: self.generation }
    }
}

impl WeakRef {
    /// True exactly when the two handles denote the same subscriber
    /// incarnation, whatever path each handle was constructed by.
    pub fn refers_to(&self, other: &StrongRef) -> (same: bool)
        ensures
            same == (self@ == other@),
    {
        self.slot == other.slot && self.generation == other.generation
    }
}

/// Law (expiry is permanent): a superseded handle is dead. Together with the
/// arena operations' promise to keep superseded handles superseded, a handle
/// is dead forever once its subscriber is destroyed, whatever is inserted,
/// destroyed or notified afterwards.
pub proof fn lemma_superseded_is_dead<S>(arena: SubscriberArena<S>, m: HandleModel)
    requires
        arena.superseded(m),
    ensures
        !arena.live(m),
{
}

/// The weak/strong reference primitive the registry is built on: an arena of
/// generation-checked slots that owns the subscribers' storage. Upgrading a
/// weak handle is a generation check plus a liveness test; destroying a
/// subscriber clears its slot and advances the slot's generation, so every
/// handle to the destroyed incarnation is dead from then on.
pub struct SubscriberArena<S> {
    slots: Vec<Slot<S>>,
}

impl<S> View for SubscriberArena<S> {
    type V = Seq<Slot<S>>;

    closed spec fn view(&self) -> Seq<Slot<S>> {
        self.slots@
    }
}

impl<S> SubscriberArena<S> {
    /// Well-formed: every slot that still holds a subscriber can advance its
    /// generation once more when that subscriber is destroyed.
    pub open spec fn wf(self) -> bool {
        forall|i: int|
            0 <= i < self@.len() && (#[trigger] self@[i]).value is Some ==> self@[i].generation
                < u64::MAX
    }

    /// A handle is live when its slot exists, the slot is still at the
    /// handle's generation, and the slot still holds a subscriber.
    pub open spec fn live(self, m: HandleModel) -> bool {
        &&& 0 <= m.slot < self@.len()
        &&& self@[m.slot].generation == m.generation
        &&& self@[m.slot].value is Some
    }

    /// A handle whose slot has moved past the handle's generation. Once a
    /// subscriber is destroyed its handles become superseded, and every
    /// operation of the arena leaves them so: the slot may be reused, but
    /// only at a newer generation, so a superseded handle can never come
    /// back to life.
    pub open spec fn superseded(self, m: HandleModel) -> bool {
        0 <= m.slot < self@.len() && m.generation < self@[m.slot].generation
    }

    /// The subscriber stored in slot `i`.
    pub open spec fn value_at(self, i: int) -> S
        recommends
            0 <= i < self@.len(),
            self@[i].value is Some,
    {
        self@[i].value->0
    }

    /// An arena with no slots.
    pub fn new() -> (a: Self)
        ensures
            a@ == Seq::<Slot<S>>::empty(),
            a.wf(),
    {
        SubscriberArena { slots: Vec::new() }
    }

    /// Stores a subscriber and hands its owner the strong handle. A dead slot
    /// is reused when one is available (at the generation its last
    /// destruction advanced it to, so the handles of every earlier incarnation
    /// stay dead); otherwise a fresh slot is appended.
    pub fn insert(&mut self, subscriber: S) -> (h: StrongRef)
        requires
            old(self).wf(),
        ensures
            final(self).wf(),
            final(self).live(h@),
            !old(self).live(h@),
            final(self).value_at(h@.slot) == subscriber,
            forall|m: HandleModel| #[trigger]
                final(self).live(m) == (old(self).live(m) || m == h@),
            forall|m: HandleModel| #[trigger]
                old(self).live(m) ==> final(self).value_at(m.slot) == old(self).value_at(m.slot),
            old(self)@.len() <= final(self)@.len(),
            h@.slot < old(self)@.len() ==> old(self)@[h@.slot].value is None && h@.generation
                == old(self)@[h@.slot].generation,
            h@.slot >= old(self)@.len() ==> h@.slot == old(self)@.len() && h@.generation == 0,
            forall|m: HandleModel| #[trigger]
                old(self).superseded(m) ==> final(self).superseded(m),
    {
        let n = self.slots.len();
        let mut i: usize = 0;
        while i < n
            invariant
                i <= n,
                n == self@.len(),
                *self == *old(self),
                old(self).wf(),
            decreases n - i,
        {
            let reusable = self.slots[i].value.is_none() && self.slots[i].generation < u64::MAX;
            if reusable {
                let g = self.slots[i].generation;
                self.slots[i] = Slot { generation: g, value: Some(subscriber) };
                proof {
                    assert forall|j: int|
                        0 <= j < self@.len() && (#[trigger] self@[j]).value is Some
                        implies self@[j].generation < u64::MAX by {
                        if j != i as int {
                            assert(self@[j] == old(self)@[j]);
                        }
                    }
                }
                return StrongRef { slot: i, generation: g };
            }
            i += 1;
        }
        self.slots.push(Slot { generation: 0, value: Some(subscriber) });
        StrongRef { slot: n, generation: 0 }
    }

    /// Destroys the subscriber the handle owns, consuming the handle: the
    /// slot is cleared and its generation advanced, so the destroyed
    /// incarnation's handles are dead from now on. A handle whose incarnation
    /// is already gone changes nothing.
    pub fn destroy(&mut self, h: StrongRef)
        requires
            old(self).wf(),
        ensures
            final(self).wf(),
            final(self)@.len() == old(self)@.len(),
            forall|m: HandleModel| #[trigger]
                final(self).live(m) == (old(self).live(m) && m != h@),
            forall|m: HandleModel| #[trigger]
                final(self).live(m) ==> final(self).value_at(m.slot) == old(self).value_at(m.slot),
            old(self).live(h@) ==> final(self)@[h@.slot].generation == h@.generation + 1,
            !old(self).live(h@) ==> final(self)@ == old(self)@,
            old(self).live(h@) ==> final(self).superseded(h@),
            forall|m: HandleModel| #[trigger]
                old(self).superseded(m) ==> final(self).superseded(m),
    {
        if h.slot < self.slots.len() {
            let live_now = self.slots[h.slot].generation == h.generation && self.slots[h.slot]
                .value
                .is_some();
            if live_now {
                let g = self.slots[h.slot].generation;
                let slot = &mut self.slots[h.slot];
                slot.value = None;
                slot.generation = g + 1;
            }
        }
    }

    /// The upgrade check: whether the handle's subscriber is still alive.
    pub fn is_live(&self, w: &WeakRef) -> (live: bool)
        ensures
            live == self.live(w@),
    {
        w.slot < self.slots.len() && self.slots[w.slot].generation == w.generation
            && self.slots[w.slot].value.is_some()
    }

    /// Read access to the subscriber a weak handle refers to, for as long as
    /// the handle is live.
    pub fn get(&self, w: &WeakRef) -> (r: Option<&S>)
        ensures
            r is Some <==> self.live(w@),
            r is Some ==> *r->0 == self.value_at(w@.slot),
    {
        if w.slot < self.slots.len() && self.slots[w.slot].generation == w.generation {
            match &self.slots[w.slot].value {
                Some(s) => Some(s),
                None => None,
            }
        } else {
            None
        }
    }

    /// Upgrades one weak handle for the duration of a single delivery: when
    /// the handle is live, its subscriber receives `value` through one
    /// `notify` call; when it is dead, nothing happens. Liveness, generations
    /// and every other slot are untouched either way.
    pub(crate) fn notify_entry<T>(&mut self, w: &WeakRef, value: &T) -> (was_live: bool) where
        S: Subscriber<T>,

        ensures
            was_live == old(self).live(w@),
            final(self)@.len() == old(self)@.len(),
            forall|m: HandleModel| #[trigger] final(self).live(m) == old(self).live(m),
            forall|i: int|
                0 <= i < old(self)@.len() && i != w@.slot ==> final(self)@[i] == old(self)@[i],
            !was_live ==> final(self)@ == old(self)@,
            was_live ==> S::after_notify(
                old(self).value_at(w@.slot),
                *value,
                final(self).value_at(w@.slot),
            ),
            old(self).wf() ==> final(self).wf(),
            forall|i: int|
                0 <= i < old(self)@.len() ==> (#[trigger] final(self)@[i]).generation == old(
                    self,
                )@[i].generation,
    {
        if w.slot < self.slots.len() && self.slots[w.slot].generation == w.generation {
            let slot = &mut self.slots[w.slot];
            let taken = slot.value.take();
            match taken {
                Some(mut s) => {
                    s.notify(value);
                    slot.value = Some(s);
                    true
                },
                None => false,
            }
        } else {
            false
        }
    }
}

} // verus!
