use vstd::prelude::*;

verus! {

/// The capability a subscriber object exposes: it can receive a notified
/// value of type `T`, with read-only access to the value and mutable access
/// to its own state.
///
/// `after_notify(pre, value, post)` is the implementer's statement of what
/// one delivery does: it must hold of the states before and after every call
/// of `notify`. The collection's contracts speak of deliveries through this
/// relation, so an implementer's choice of `after_notify` decides how much a
/// caller learns about the subscriber's state after a notification pass.
pub trait Subscriber<T>: Sized {
    /// What one delivery of `value` does to the subscriber's state.
    spec fn after_notify(pre: Self, value: T, post: Self) -> bool;

    /// Receives one notified value.
    fn notify(&mut self, value: &T)
        ensures
            Self::after_notify(*old(self), *value, *final(self)),
    ;
}

/// `notify_chain(pre, value, post, k)` holds when `post` can arise from `pre`
/// by exactly `k` successive deliveries of `value`.
pub open spec fn notify_chain<T, S: Subscriber<T>>(pre: S, value: T, post: S, k: nat) -> bool
    decreases k,
{
    if k == 0 {
        post == pre
    } else {
        exists|mid: S|
            notify_chain(pre, value, mid, (k - 1) as nat) && S::after_notify(mid, value, post)
    }
}

/// Law: one delivery is exactly one `notify` transition.
pub proof fn lemma_notify_chain_one<T, S: Subscriber<T>>(pre: S, value: T, post: S)
    ensures
        notify_chain(pre, value, post, 1) <==> S::after_notify(pre, value, post),
{
    if notify_chain(pre, value, post, 1) {
        let mid = choose|mid: S|
            notify_chain(pre, value, mid, 0) && S::after_notify(mid, value, post);
        assert(mid == pre);
    }
    if S::after_notify(pre, value, post) {
        assert(notify_chain(pre, value, pre, 0));
        assert(notify_chain(pre, value, pre, 0) && S::after_notify(pre, value, post));
    }
}

/// Law: a chain of `k` deliveries followed by one more is a chain of `k + 1`.
pub proof fn lemma_notify_chain_step<T, S: Subscriber<T>>(pre: S, value: T, mid: S, post: S, k: nat)
    requires
        notify_chain(pre, value, mid, k),
        S::after_notify(mid, value, post),
    ensures
        notify_chain(pre, value, post, k + 1),
{
    assert(notify_chain(pre, value, mid, ((k + 1) - 1) as nat));
}

/// A subscriber that keeps every value delivered to it, in delivery order.
/// Its state makes the collection's delivery guarantees observable: after a
/// notification pass, its sequence of received values says exactly how many
/// times it was notified, and with what.
pub struct RecordingSubscriber<T> {
    received: Vec<T>,
}

impl<T> View for RecordingSubscriber<T> {
    type V = Seq<T>;

    closed spec fn view(&self) -> Seq<T> {
        self.received@
    }
}

impl<T> RecordingSubscriber<T> {
    /// A subscriber that has received nothing yet.
    pub fn new() -> (s: Self)
        ensures
            s@ == Seq::<T>::empty(),
    {
        RecordingSubscriber { received: Vec::new() }
    }

    /// The values received so far, oldest first.
    pub fn received(&self) -> (v: &Vec<T>)
        ensures
            v@ == self@,
    {
        &self.received
    }
}

impl<T: Copy> Subscriber<T> for RecordingSubscriber<T> {
    open spec fn after_notify(pre: Self, value: T, post: Self) -> bool {
        post@ == pre@.push(value)
    }

    fn notify(&mut self, value: &T) {
        self.received.push(*value);
    }
}

/// Law: `k` deliveries of `value` to a recording subscriber append exactly
/// `k` copies of `value` to its record.
pub proof fn lemma_recording_chain<T: Copy>(
    pre: RecordingSubscriber<T>,
    value: T,
    post: RecordingSubscriber<T>,
    k: nat,
)
    requires
        notify_chain(pre, value, post, k),
    ensures
        post@ == pre@ + Seq::new(k, (|j: int| value)),
    decreases k,
{
    if k == 0 {
        assert(pre@ + Seq::new(0, (|j: int| value)) =~= pre@);
    } else {
        let mid = choose|mid: RecordingSubscriber<T>|
            notify_chain(pre, value, mid, (k - 1) as nat)
                && <RecordingSubscriber<T> as Subscriber<T>>::after_notify(mid, value, post);
        lemma_recording_chain(pre, value, mid, (k - 1) as nat);
        assert(post@ =~= pre@ + Seq::new(k, (|j: int| value)));
    }
}

} // verus!
