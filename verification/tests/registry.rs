use cipher_relay::peer::PeerId;
use cipher_relay::registry::{PeerRecord, PeerRegistry};

const A: PeerId = PeerId(0xa);
const B: PeerId = PeerId(0xb);
const C: PeerId = PeerId(0xc);

fn ids(registry: &PeerRegistry<&'static str>, seeker: PeerId) -> Vec<PeerId> {
    registry.others(seeker).iter().map(|record| record.id).collect()
}

#[test]
fn new_registry_is_empty() {
    let registry: PeerRegistry<&str> = PeerRegistry::new();
    assert_eq!(registry.len(), 0);
    assert!(!registry.contains(A));
    assert_eq!(registry.find(A), None);
    assert_eq!(registry.find_other(A), None);
    assert!(registry.others(A).is_empty());
}

#[test]
fn register_enters_a_record_without_a_key() {
    let mut registry = PeerRegistry::new();
    registry.register(A, "to a");
    assert_eq!(registry.len(), 1);
    assert!(registry.contains(A));
    assert_eq!(
        registry.find(A),
        Some(&PeerRecord { id: A, outbound: "to a", public_value: None })
    );
}

#[test]
fn register_then_unregister_leaves_nothing_to_find() {
    let mut registry = PeerRegistry::new();
    registry.register(A, "to a");
    registry.register(B, "to b");
    registry.unregister(B);
    assert!(!registry.contains(B));
    assert_eq!(registry.find(B), None);
    assert_eq!(registry.find_other(A), None);
    assert_eq!(registry.find_other(C), registry.find(A));
    assert_eq!(registry.len(), 1);
}

#[test]
fn unregister_is_idempotent() {
    let mut registry = PeerRegistry::new();
    registry.unregister(A);
    assert_eq!(registry.len(), 0);
    registry.register(A, "to a");
    registry.register(B, "to b");
    registry.unregister(A);
    registry.unregister(A);
    assert_eq!(registry.len(), 1);
    assert!(registry.contains(B));
    assert_eq!(registry.find(B).map(|record| record.outbound), Some("to b"));
}

#[test]
fn unregister_keeps_the_order_of_the_rest() {
    let mut registry = PeerRegistry::new();
    for (n, handle) in ["zero", "one", "two", "three", "four"].into_iter().enumerate() {
        registry.register(PeerId(n as u128), handle);
    }
    registry.unregister(PeerId(2));
    registry.unregister(PeerId(0));
    assert_eq!(ids(&registry, PeerId(99)), vec![PeerId(1), PeerId(3), PeerId(4)]);
    registry.unregister(PeerId(4));
    assert_eq!(ids(&registry, PeerId(99)), vec![PeerId(1), PeerId(3)]);
}

#[test]
fn many_distinct_ids_give_as_many_records() {
    let mut registry = PeerRegistry::new();
    let n = 500u128;
    for value in (0..n).rev() {
        registry.register(PeerId(value * 7919), value);
    }
    assert_eq!(registry.len(), n as usize);
    for value in 0..n {
        let found = registry.find(PeerId(value * 7919)).unwrap();
        assert_eq!(found.outbound, value);
        assert_eq!(found.public_value, None);
    }
    let all = registry.others(PeerId(1));
    assert_eq!(all.len(), n as usize);
    for i in 0..all.len() {
        for j in i + 1..all.len() {
            assert_ne!(all[i].id, all[j].id);
        }
    }
}

#[test]
fn try_register_refuses_a_taken_identifier() {
    let mut registry = PeerRegistry::new();
    assert!(registry.try_register(A, "first"));
    assert!(!registry.try_register(A, "second"));
    assert!(registry.try_register(B, "third"));
    assert_eq!(registry.len(), 2);
    assert_eq!(registry.find(A).map(|record| record.outbound), Some("first"));
}

#[test]
fn set_public_value_changes_one_record() {
    let mut registry = PeerRegistry::new();
    registry.register(A, "to a");
    registry.register(B, "to b");
    registry.set_public_value(B, 17);
    assert_eq!(registry.find(A).unwrap().public_value, None);
    assert_eq!(
        registry.find(B),
        Some(&PeerRecord { id: B, outbound: "to b", public_value: Some(17) })
    );
    registry.set_public_value(B, 4);
    assert_eq!(registry.find(B).unwrap().public_value, Some(4));
    assert_eq!(registry.len(), 2);
}

#[test]
fn set_public_value_passes_over_a_peer_that_has_gone() {
    let mut registry = PeerRegistry::new();
    registry.register(A, "to a");
    registry.set_public_value(B, 17);
    assert_eq!(registry.len(), 1);
    assert!(!registry.contains(B));
    assert_eq!(registry.find(A).unwrap().public_value, None);
}

#[test]
fn find_other_takes_the_first_that_differs() {
    let mut registry = PeerRegistry::new();
    registry.register(A, "to a");
    assert_eq!(registry.find_other(A), None);
    assert_eq!(registry.find_other(B).map(|record| record.id), Some(A));
    registry.register(B, "to b");
    registry.register(C, "to c");
    assert_eq!(registry.find_other(A).map(|record| record.id), Some(B));
    assert_eq!(registry.find_other(B).map(|record| record.id), Some(A));
    assert_eq!(registry.find_other(C).map(|record| record.id), Some(A));
}

#[test]
fn others_are_all_but_the_seeker_in_order() {
    let mut registry = PeerRegistry::new();
    registry.register(A, "to a");
    registry.register(B, "to b");
    registry.register(C, "to c");
    assert_eq!(ids(&registry, A), vec![B, C]);
    assert_eq!(ids(&registry, B), vec![A, C]);
    assert_eq!(ids(&registry, C), vec![A, B]);
    assert_eq!(ids(&registry, PeerId(0)), vec![A, B, C]);
    let handles: Vec<&str> = registry.others(B).iter().map(|record| record.outbound).collect();
    assert_eq!(handles, vec!["to a", "to c"]);
}
