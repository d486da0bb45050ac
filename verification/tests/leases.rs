use leasemap::Entry;
use leasemap::HashMap;
use leasemap::MarkOnDrop;

#[test]
fn new_map_is_empty() {
    let mut wm: HashMap<u32, u8> = HashMap::new();
    assert_eq!(wm.len(), 0);
    assert_eq!(wm.get(&0), None);
    assert_eq!(wm.get_mut(&0), None);
    assert_eq!(wm.len(), 0);
}

#[test]
fn default_map_is_empty() {
    let mut wm: HashMap<u32, u8> = HashMap::default();
    assert_eq!(wm.len(), 0);
    assert_eq!(wm.get(&0), None);
}

#[test]
fn inserted_value_is_returned_while_lease_is_held() {
    let mut wm: HashMap<u64, String> = HashMap::new();
    let (lease, previous) = wm.insert(7, String::from("seven"));
    assert_eq!(previous, None);
    assert_eq!(wm.get(&7), Some(&String::from("seven")));
    assert_eq!(wm.get(&7), Some(&String::from("seven")));
    assert_eq!(wm.len(), 1);
    drop(lease);
}

#[test]
fn dropped_lease_hides_value_without_collection() {
    let mut wm: HashMap<u32, u8> = HashMap::new();
    let mut held = Vec::new();
    for k in 0..10u32 {
        let (lease, _) = wm.insert(k, 1);
        held.push(lease);
    }
    let (lease, _) = wm.insert(10, 2);
    assert_eq!(wm.get(&10), Some(&2));
    drop(lease);
    // one release among eleven entries: no pass is due, the entry is still there
    assert_eq!(wm.len(), 11);
    assert_eq!(wm.get(&10), None);
    // the lookup removed it
    assert_eq!(wm.len(), 10);
    assert_eq!(wm.get(&10), None);
    assert_eq!(wm.len(), 10);
    assert_eq!(wm.get(&3), Some(&1));
}

#[test]
fn dropped_lease_of_vacant_insert_hides_value() {
    let mut wm: HashMap<u32, u8> = HashMap::new();
    let mut held = None;
    match wm.entry(4) {
        Entry::Occupied(_) => panic!("the map is empty"),
        Entry::Vacant(vacant) => {
            let value = vacant.insert_with(|lease| {
                held = Some(lease);
                9
            });
            assert_eq!(*value, 9);
        }
    }
    assert_eq!(wm.get(&4), Some(&9));
    drop(held);
    assert_eq!(wm.get(&4), None);
    assert_eq!(wm.len(), 0);
}

#[test]
fn reinsert_over_released_reports_no_previous_value() {
    let mut wm: HashMap<u32, u8> = HashMap::new();
    let mut held = Vec::new();
    for k in 100..110u32 {
        let (lease, _) = wm.insert(k, 0);
        held.push(lease);
    }
    let (lease1, previous) = wm.insert(1, 11);
    assert_eq!(previous, None);
    drop(lease1);
    // the released entry is still in the table when the second insertion meets it
    assert_eq!(wm.len(), 11);
    let (lease2, previous) = wm.insert(1, 22);
    assert_eq!(previous, None);
    assert_eq!(wm.len(), 11);
    assert_eq!(wm.get(&1), Some(&22));
    drop(lease2);
    assert_eq!(wm.get(&1), None);
}

#[test]
fn reinsert_over_live_reports_previous_value() {
    let mut wm: HashMap<u32, u8> = HashMap::new();
    let (lease1, previous) = wm.insert(1, 11);
    assert_eq!(previous, None);
    let (lease2, previous) = wm.insert(1, 22);
    assert_eq!(previous, Some(11));
    assert_eq!(wm.len(), 1);
    assert_eq!(wm.get(&1), Some(&22));
    // the first lease is orphaned: dropping it does not touch the new entry
    drop(lease1);
    assert_eq!(wm.get(&1), Some(&22));
    drop(lease2);
    assert_eq!(wm.get(&1), None);
}

#[test]
fn len_counts_released_entries_until_they_are_removed() {
    let mut wm: HashMap<u32, u8> = HashMap::new();
    let mut held = Vec::new();
    for k in 0..8u32 {
        assert_eq!(wm.len(), k as usize);
        let (lease, _) = wm.insert(k, 0);
        held.push(lease);
    }
    assert_eq!(wm.len(), 8);
    // lookups of live and of missing keys leave the size alone
    assert_eq!(wm.get(&0), Some(&0));
    assert_eq!(wm.get(&99), None);
    assert_eq!(wm.get_mut(&99), None);
    assert_eq!(wm.len(), 8);
    // a release alone removes nothing
    drop(held.pop());
    assert_eq!(wm.len(), 8);
    // the read that meets the released entry does
    assert_eq!(wm.get_mut(&7), None);
    assert_eq!(wm.len(), 7);
}

#[test]
fn collection_pass_fires_at_half_and_clears_the_counter() {
    let mut wm: HashMap<u32, u8> = HashMap::new();
    let mut held: Vec<MarkOnDrop> = Vec::new();
    for k in 0..10u32 {
        let (lease, _) = wm.insert(k, 0);
        held.push(lease);
    }
    assert_eq!(wm.len(), 10);
    // four releases among ten entries: below half, no pass
    for _ in 0..4 {
        drop(held.remove(0));
    }
    wm.gc();
    assert_eq!(wm.len(), 10);
    // the fifth release reaches half: the pass removes all five
    drop(held.remove(0));
    wm.gc();
    assert_eq!(wm.len(), 5);
    // the pass cleared the counter: one release among five entries is below
    // half again, so nothing is removed
    drop(held.remove(0));
    wm.gc();
    assert_eq!(wm.len(), 5);
    // the second release since the pass reaches half of five, rounded down
    drop(held.remove(0));
    wm.gc();
    assert_eq!(wm.len(), 3);
    assert_eq!(wm.get(&9), Some(&0));
    assert_eq!(wm.get(&6), None);
}

#[test]
fn collection_check_given_a_count() {
    let mut wm: HashMap<u32, u8> = HashMap::new();
    let mut held: Vec<MarkOnDrop> = Vec::new();
    for k in 0..5u32 {
        let (lease, _) = wm.insert(k, 0);
        held.push(lease);
    }
    drop(held.remove(0));
    // half of five is two
    wm.gc_given(0);
    assert_eq!(wm.len(), 5);
    wm.gc_given(1);
    assert_eq!(wm.len(), 5);
    wm.gc_given(2);
    assert_eq!(wm.len(), 4);
    // a pass removes released entries only
    wm.gc_given(usize::MAX);
    assert_eq!(wm.len(), 4);
    drop(held);
    wm.gc_given(1);
    assert_eq!(wm.len(), 4);
    wm.gc_given(2);
    assert_eq!(wm.len(), 0);
    // on an empty table a pass is always due, and removes nothing
    wm.gc_given(0);
    assert_eq!(wm.len(), 0);
}

#[test]
fn insertion_runs_the_collection_check_first() {
    let mut wm: HashMap<u32, u8> = HashMap::new();
    let mut held: Vec<MarkOnDrop> = Vec::new();
    for k in 0..6u32 {
        let (lease, _) = wm.insert(k, 0);
        held.push(lease);
    }
    for _ in 0..3 {
        drop(held.remove(0));
    }
    assert_eq!(wm.len(), 6);
    // three releases among six entries: the pass runs before the new entry goes in
    let (lease, previous) = wm.insert(6, 1);
    assert_eq!(previous, None);
    assert_eq!(wm.len(), 4);
    drop(lease);
}

#[test]
fn lookup_given_what_the_flag_read() {
    let mut wm: HashMap<u32, u8> = HashMap::new();
    let (lease, _) = wm.insert(1, 5);
    assert_eq!(wm.get_given(&1, false), Some(&5));
    assert_eq!(wm.len(), 1);
    assert_eq!(wm.get_given(&2, false), None);
    assert_eq!(wm.get_given(&2, true), None);
    assert_eq!(wm.len(), 1);
    assert_eq!(wm.get_given(&1, true), None);
    assert_eq!(wm.len(), 0);
    assert_eq!(wm.get_given(&1, false), None);
    drop(lease);
}

#[test]
fn lookup_for_writing_changes_the_stored_value() {
    let mut wm: HashMap<u32, u8> = HashMap::new();
    let (lease, _) = wm.insert(1, 5);
    let (other, _) = wm.insert(2, 6);
    match wm.get_mut(&1) {
        Some(value) => {
            assert_eq!(*value, 5);
            *value = 50;
        }
        None => panic!("the lease is held"),
    }
    assert_eq!(wm.get(&1), Some(&50));
    assert_eq!(wm.get(&2), Some(&6));
    match wm.get_mut_given(&2, false) {
        Some(value) => *value = 60,
        None => panic!("the entry is there"),
    }
    assert_eq!(wm.get(&2), Some(&60));
    assert_eq!(wm.get_mut_given(&2, true), None);
    assert_eq!(wm.len(), 1);
    // the lease still governs the entry that was written to
    drop(lease);
    assert_eq!(wm.get_mut(&1), None);
    assert_eq!(wm.len(), 0);
    drop(other);
}

#[test]
fn insertion_given_what_the_flag_read() {
    let mut wm: HashMap<u32, u8> = HashMap::new();
    let (first, previous) = wm.insert_given(1, 5, false);
    assert_eq!(previous, None);
    let (second, previous) = wm.insert_given(1, 6, false);
    assert_eq!(previous, Some(5));
    let (third, previous) = wm.insert_given(1, 7, true);
    assert_eq!(previous, None);
    let (fourth, previous) = wm.insert_given(2, 8, true);
    assert_eq!(previous, None);
    assert_eq!(wm.len(), 2);
    assert_eq!(wm.get(&1), Some(&7));
    // only the lease of the last insertion at a key governs the entry
    drop(first);
    drop(second);
    assert_eq!(wm.get(&1), Some(&7));
    drop(third);
    assert_eq!(wm.get(&1), None);
    assert_eq!(wm.get(&2), Some(&8));
    drop(fourth);
    assert_eq!(wm.get(&2), None);
}

#[test]
fn factory_runs_once_on_vacant_and_not_on_occupied() {
    let mut wm: HashMap<u32, u8> = HashMap::new();
    let mut calls = 0;
    let mut held = None;
    {
        let value = wm.entry(1).or_insert_with(|lease| {
            calls += 1;
            held = Some(lease);
            2
        });
        assert_eq!(*value, 2);
    }
    assert_eq!(calls, 1);
    let mut spare = None;
    {
        let value = wm.entry(1).or_insert_with(|lease| {
            calls += 1;
            spare = Some(lease);
            9
        });
        assert_eq!(*value, 2);
        *value = 4;
    }
    assert_eq!(calls, 1);
    assert!(spare.is_none());
    assert_eq!(wm.get(&1), Some(&4));
    // a released occupant makes the slot vacant again
    drop(held);
    let mut again = None;
    {
        let value = wm.entry(1).or_insert_with(|lease| {
            calls += 1;
            again = Some(lease);
            7
        });
        assert_eq!(*value, 7);
    }
    assert_eq!(calls, 2);
    assert_eq!(wm.get(&1), Some(&7));
    assert_eq!(wm.len(), 1);
    drop(again);
    assert_eq!(wm.get(&1), None);
}

#[test]
fn entry_is_occupied_exactly_when_a_value_is_visible() {
    let mut wm: HashMap<u32, u8> = HashMap::new();
    assert!(matches!(wm.entry(1), Entry::Vacant(_)));
    // a handle that is not used leaves the table as it was
    assert_eq!(wm.len(), 0);
    let (lease, _) = wm.insert(1, 5);
    match wm.entry(1) {
        Entry::Occupied(occupied) => {
            let value = occupied.into_mut();
            assert_eq!(*value, 5);
            *value = 6;
        }
        Entry::Vacant(_) => panic!("the lease is held"),
    }
    assert_eq!(wm.get(&1), Some(&6));
    assert!(matches!(wm.entry_given(1, false), Entry::Occupied(_)));
    assert!(matches!(wm.entry_given(2, false), Entry::Vacant(_)));
    assert_eq!(wm.len(), 1);
    assert!(matches!(wm.entry_given(1, true), Entry::Vacant(_)));
    assert_eq!(wm.len(), 0);
    drop(lease);
    let (lease, _) = wm.insert(3, 1);
    drop(lease);
    assert!(matches!(wm.entry(3), Entry::Vacant(_)));
    assert_eq!(wm.len(), 0);
}

#[test]
fn leases_of_one_map_do_not_touch_another() {
    let mut a: HashMap<u32, u8> = HashMap::new();
    let mut b: HashMap<u32, u8> = HashMap::new();
    let (lease_a, _) = a.insert(1, 1);
    let (lease_b, _) = b.insert(1, 2);
    drop(lease_a);
    assert_eq!(a.get(&1), None);
    assert_eq!(b.get(&1), Some(&2));
    drop(lease_b);
    assert_eq!(b.get(&1), None);
}

fn crosses_threads<T: Send + Sync>(_value: &T) -> bool {
    true
}

#[test]
fn lease_and_map_may_move_between_threads() {
    let mut wm: HashMap<u32, u8> = HashMap::new();
    let (lease, _) = wm.insert(1, 1);
    assert!(crosses_threads(&lease));
    assert!(crosses_threads(&wm));
    drop(lease);
    assert_eq!(wm.get(&1), None);
}
