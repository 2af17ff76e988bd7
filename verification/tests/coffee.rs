use std::cmp::Ordering;

use growable_sequence::coffee::{generate_coffee, Coffee};
use growable_sequence::sequence::GrowableSequence;

#[test]
fn generate_coffee_hands_out_the_fixed_record() {
    let c = generate_coffee();
    assert_eq!(c.id, 10000);
    assert_eq!(c.count, 50);
}

#[test]
fn coffees_order_by_count_alone() {
    let scarce = Coffee { id: 3000, count: 1 };
    let plentiful = Coffee { id: 1000, count: 500 };
    assert_eq!(scarce.partial_cmp(&plentiful), Some(Ordering::Less));
    assert_eq!(plentiful.partial_cmp(&scarce), Some(Ordering::Greater));
    let same_count = Coffee { id: 9999, count: 1 };
    assert_eq!(scarce.partial_cmp(&same_count), Some(Ordering::Equal));
    // equality still compares both fields
    assert_ne!(scarce, same_count);
    assert_eq!(scarce, Coffee { id: 3000, count: 1 });
}

#[test]
fn a_container_of_coffees() {
    let mut shelf: GrowableSequence<Coffee> = GrowableSequence::create_empty();
    shelf.append(Coffee { id: 1000, count: 10 });
    shelf.append(Coffee { id: 2000, count: 20 });
    shelf.append(generate_coffee());
    assert_eq!(shelf.len(), 3);
    assert_eq!(shelf.index(2).id, 10000);
    // a deep copy of the shelf changes independently
    let mut copy = shelf.clone();
    assert_eq!(copy.replace_at(0, Coffee { id: 1000, count: 0 }).map(|c| c.count), Ok(10));
    assert_eq!(shelf.index(0).count, 10);
    assert_eq!(copy.index(0).count, 0);
    // keep only the well-stocked coffees
    shelf.retain(|c: &Coffee| c.count >= 20);
    assert_eq!(shelf.len(), 2);
    assert_eq!(shelf.index(0).id, 2000);
    assert_eq!(shelf.index(1).id, 10000);
}
