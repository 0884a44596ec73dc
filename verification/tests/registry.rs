use subscribers::RecordingSubscriber;
use subscribers::SubscriberArena;
use subscribers::SubscriberCollection;

#[test]
fn delivery_to_all_live_in_order() {
    let mut arena: SubscriberArena<RecordingSubscriber<i32>> = SubscriberArena::new();
    let mut c = SubscriberCollection::new();
    let ha = arena.insert(RecordingSubscriber::new());
    let hb = arena.insert(RecordingSubscriber::new());
    let hc = arena.insert(RecordingSubscriber::new());
    c.add(ha.downgrade());
    c.add(hb.downgrade());
    c.add(hc.downgrade());
    assert_eq!(c.len(), 3);
    c.notify(&mut arena, &7);
    assert_eq!(c.len(), 3);
    for h in [&ha, &hb, &hc] {
        let w = h.downgrade();
        let s = arena.get(&w).unwrap();
        assert_eq!(s.received().as_slice(), &[7]);
    }
    assert!(c.entry(0).unwrap().refers_to(&ha));
    assert!(c.entry(1).unwrap().refers_to(&hb));
    assert!(c.entry(2).unwrap().refers_to(&hc));
}

#[test]
fn second_notify_delivers_again() {
    let mut arena: SubscriberArena<RecordingSubscriber<i32>> = SubscriberArena::new();
    let mut c = SubscriberCollection::new();
    let h = arena.insert(RecordingSubscriber::new());
    c.add(h.downgrade());
    c.notify(&mut arena, &1);
    c.notify(&mut arena, &2);
    let w = h.downgrade();
    assert_eq!(arena.get(&w).unwrap().received().as_slice(), &[1, 2]);
}

#[test]
fn pruning_skips_destroyed() {
    let mut arena: SubscriberArena<RecordingSubscriber<i32>> = SubscriberArena::new();
    let mut c = SubscriberCollection::new();
    let h = arena.insert(RecordingSubscriber::new());
    let w = h.downgrade();
    c.add(w);
    arena.destroy(h);
    assert!(!arena.is_live(&w));
    c.notify(&mut arena, &9);
    assert_eq!(c.len(), 0);
    assert!(arena.get(&w).is_none());
}

#[test]
fn order_preserved_under_pruning() {
    let mut arena: SubscriberArena<RecordingSubscriber<i32>> = SubscriberArena::new();
    let mut c = SubscriberCollection::new();
    let ha = arena.insert(RecordingSubscriber::new());
    let hb = arena.insert(RecordingSubscriber::new());
    let hc = arena.insert(RecordingSubscriber::new());
    c.add(ha.downgrade());
    c.add(hb.downgrade());
    c.add(hc.downgrade());
    arena.destroy(hb);
    c.notify(&mut arena, &5);
    assert_eq!(c.len(), 2);
    assert!(c.entry(0).unwrap().refers_to(&ha));
    assert!(c.entry(1).unwrap().refers_to(&hc));
    assert!(c.entry(2).is_none());
    let wa = ha.downgrade();
    let wc = hc.downgrade();
    assert_eq!(arena.get(&wa).unwrap().received().as_slice(), &[5]);
    assert_eq!(arena.get(&wc).unwrap().received().as_slice(), &[5]);
}

#[test]
fn duplicate_registration_delivers_twice() {
    let mut arena: SubscriberArena<RecordingSubscriber<i32>> = SubscriberArena::new();
    let mut c = SubscriberCollection::new();
    let h = arena.insert(RecordingSubscriber::new());
    c.add(h.downgrade());
    c.add(h.downgrade());
    c.notify(&mut arena, &3);
    let w = h.downgrade();
    assert_eq!(arena.get(&w).unwrap().received().as_slice(), &[3, 3]);
    assert_eq!(c.len(), 2);
    arena.destroy(h);
    c.notify(&mut arena, &4);
    assert_eq!(c.len(), 0);
}

#[test]
fn identity_lookup() {
    let mut arena: SubscriberArena<RecordingSubscriber<i32>> = SubscriberArena::new();
    let mut c = SubscriberCollection::new();
    let registered = arena.insert(RecordingSubscriber::new());
    let stranger = arena.insert(RecordingSubscriber::new());
    c.add(registered.downgrade());
    assert!(c.has_subscriber(&arena, &registered));
    assert!(!c.has_subscriber(&arena, &stranger));
}

#[test]
fn lookup_false_for_expired_and_for_reused_slot() {
    let mut arena: SubscriberArena<RecordingSubscriber<i32>> = SubscriberArena::new();
    let mut c = SubscriberCollection::new();
    let h1 = arena.insert(RecordingSubscriber::new());
    c.add(h1.downgrade());
    arena.destroy(h1);
    // The next subscriber reuses the freed slot, at a fresh generation: the
    // expired entry must not be mistaken for it.
    let h2 = arena.insert(RecordingSubscriber::new());
    assert!(!c.has_subscriber(&arena, &h2));
    c.add(h2.downgrade());
    assert!(c.has_subscriber(&arena, &h2));
}

#[test]
fn lookup_does_not_prune() {
    let mut arena: SubscriberArena<RecordingSubscriber<i32>> = SubscriberArena::new();
    let mut c = SubscriberCollection::new();
    let h1 = arena.insert(RecordingSubscriber::new());
    let h2 = arena.insert(RecordingSubscriber::new());
    c.add(h1.downgrade());
    c.add(h2.downgrade());
    arena.destroy(h1);
    assert!(c.has_subscriber(&arena, &h2));
    assert_eq!(c.len(), 2);
}

#[test]
fn registration_does_not_extend_ownership() {
    let mut arena: SubscriberArena<RecordingSubscriber<i32>> = SubscriberArena::new();
    let mut c = SubscriberCollection::new();
    let h = arena.insert(RecordingSubscriber::new());
    let w = h.downgrade();
    c.add(w);
    assert!(arena.is_live(&w));
    arena.destroy(h);
    assert!(!arena.is_live(&w));
    assert!(arena.get(&w).is_none());
}

#[test]
fn scenario_two_subscribers_one_destroyed() {
    let mut arena: SubscriberArena<RecordingSubscriber<i32>> = SubscriberArena::new();
    let mut c = SubscriberCollection::new();
    let h1 = arena.insert(RecordingSubscriber::new());
    let h2 = arena.insert(RecordingSubscriber::new());
    c.add(h1.downgrade());
    c.add(h2.downgrade());
    arena.destroy(h1);
    assert_eq!(c.len(), 2);
    c.notify(&mut arena, &42);
    assert_eq!(c.len(), 1);
    let w2 = h2.downgrade();
    assert_eq!(arena.get(&w2).unwrap().received().as_slice(), &[42]);
}

#[test]
fn empty_collection() {
    let mut arena: SubscriberArena<RecordingSubscriber<i32>> = SubscriberArena::new();
    let mut c = SubscriberCollection::new();
    c.notify(&mut arena, &1);
    assert_eq!(c.len(), 0);
    let h = arena.insert(RecordingSubscriber::new());
    assert!(!c.has_subscriber(&arena, &h));
}

#[test]
fn default_collection_is_empty() {
    let c: SubscriberCollection = Default::default();
    assert_eq!(c.len(), 0);
}

#[test]
fn recording_subscriber_starts_empty() {
    let s: RecordingSubscriber<i32> = RecordingSubscriber::new();
    assert!(s.received().is_empty());
}

#[test]
fn weak_handle_to_reused_slot_stays_dead() {
    let mut arena: SubscriberArena<RecordingSubscriber<i32>> = SubscriberArena::new();
    let h1 = arena.insert(RecordingSubscriber::new());
    let w1 = h1.downgrade();
    arena.destroy(h1);
    let h2 = arena.insert(RecordingSubscriber::new());
    let w2 = h2.downgrade();
    assert!(!arena.is_live(&w1));
    assert!(arena.is_live(&w2));
    assert!(arena.get(&w1).is_none());
    assert!(!w1.refers_to(&h2));
}

enum MixedSubscriber {
    Recorder(Vec<i32>),
    Counter(u64),
}

impl subscribers::Subscriber<i32> for MixedSubscriber {
    // The delivery relation is ghost state: it is never run, and any body
    // satisfies the compiled trait.
    fn after_notify(_pre: Self, _value: i32, _post: Self) -> bool {
        true
    }

    fn notify(&mut self, value: &i32) {
        match self {
            MixedSubscriber::Recorder(seen) => seen.push(*value),
            MixedSubscriber::Counter(n) => *n += 1,
        }
    }
}

#[test]
fn mixed_subscriber_kinds_in_one_collection() {
    let mut arena: SubscriberArena<MixedSubscriber> = SubscriberArena::new();
    let mut c = SubscriberCollection::new();
    let hr = arena.insert(MixedSubscriber::Recorder(Vec::new()));
    let hc = arena.insert(MixedSubscriber::Counter(0));
    c.add(hr.downgrade());
    c.add(hc.downgrade());
    c.notify(&mut arena, &8);
    c.notify(&mut arena, &9);
    match arena.get(&hr.downgrade()).unwrap() {
        MixedSubscriber::Recorder(seen) => assert_eq!(seen.as_slice(), &[8, 9]),
        MixedSubscriber::Counter(_) => panic!("wrong variant"),
    }
    match arena.get(&hc.downgrade()).unwrap() {
        MixedSubscriber::Counter(n) => assert_eq!(*n, 2),
        MixedSubscriber::Recorder(_) => panic!("wrong variant"),
    }
}
