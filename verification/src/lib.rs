//! An observer/subscriber registry: a collection that holds weak (non-owning)
//! handles to subscriber objects, delivers notifications to every subscriber
//! that is still alive, and silently prunes entries whose subscriber has been
//! destroyed.
//!
//! Subscribers live in a [`SubscriberArena`], the library's weak/strong
//! reference primitive: an arena of generation-checked slots, where upgrading
//! a weak handle is a generation check plus a liveness test, and destroying a
//! subscriber clears its slot and advances the slot's generation. A
//! [`SubscriberCollection`] stores only [`WeakRef`] handles, so it never
//! keeps a subscriber alive.

mod arena;
mod collection;
mod subscriber;

pub use arena::HandleModel;
pub use arena::Slot;
pub use arena::StrongRef;
pub use arena::SubscriberArena;
pub use arena::WeakRef;
pub use arena::lemma_superseded_is_dead;
pub use collection::SubscriberCollection;
pub use collection::deliveries;
pub use collection::lemma_deliveries_absent;
pub use collection::lemma_deliveries_once;
pub use collection::lemma_deliveries_push;
pub use collection::lemma_expired_never_found;
pub use collection::lemma_live_entries_all_live;
pub use collection::live_entries;
pub use subscriber::RecordingSubscriber;
pub use subscriber::Subscriber;
pub use subscriber::lemma_notify_chain_one;
pub use subscriber::lemma_notify_chain_step;
pub use subscriber::lemma_recording_chain;
pub use subscriber::notify_chain;
