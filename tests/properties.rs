use slot_vector::{Handle, Vector, INVALID_ID};
use std::collections::HashSet;

#[test]
fn insertions_give_distinct_ids_that_resolve() {
    let mut vec = Vector::default();
    let mut seen = HashSet::new();
    let mut handles = Vec::new();
    for i in 0..50u32 {
        let id = vec.push(i * 3);
        assert!(seen.insert(id));
        let h = vec.create_handle(id).unwrap();
        assert_eq!(vec.get(&h), Some(&(i * 3)));
        handles.push((h, i * 3));
    }
    for (h, x) in &handles {
        assert_eq!(vec.get(h), Some(x));
    }
}

#[test]
fn erased_handle_stays_absent_through_later_operations() {
    let mut vec = Vector::default();
    let a = vec.push(1);
    let b = vec.push(2);
    let ha = vec.create_handle(a).unwrap();
    vec.erase_by_handle(&ha);
    assert_eq!(vec.get(&ha), None);
    for i in 0..10 {
        let id = vec.push(100 + i);
        assert_eq!(vec.get(&ha), None);
        let h = vec.create_handle(id).unwrap();
        vec.erase_by_handle(&h);
        assert_eq!(vec.get(&ha), None);
    }
    let hb = vec.create_handle(b).unwrap();
    assert_eq!(vec.get(&hb), Some(&2));
}

#[test]
fn erasing_the_middle_keeps_other_handles() {
    let mut vec = Vector::default();
    let ids: Vec<usize> = (0..5).map(|i| vec.push(i * 10)).collect();
    let hs: Vec<Handle<i32>> = ids.iter().map(|&id| vec.create_handle(id).unwrap()).collect();
    vec.erase_by_id(ids[2]);
    assert_eq!(vec.get(&hs[2]), None);
    for (k, h) in hs.iter().enumerate() {
        if k != 2 {
            assert_eq!(vec.get(h), Some(&(k as i32 * 10)));
        }
    }
    // The last object moved into the vacated position.
    assert_eq!(vec.get_data(), &vec![0, 10, 40, 30]);
    assert_eq!(vec.get_data_index(ids[4]), 2);
}

#[test]
fn reused_id_carries_a_new_generation() {
    let mut vec = Vector::default();
    let id = vec.push(10);
    let old = vec.create_handle(id).unwrap();
    assert_eq!(old.validity_id, 0);
    vec.erase_by_id(id);
    assert_eq!(vec.get_validity_id(id), 1);
    assert_eq!(vec.get_next_id(), id);
    let again = vec.push(20);
    assert_eq!(again, id);
    let new = vec.create_handle(again).unwrap();
    assert_eq!(new.validity_id, 2);
    assert_ne!(old, new);
    assert_eq!(vec.get(&old), None);
    assert_eq!(vec.get(&new), Some(&20));
}

#[test]
fn clear_invalidates_every_handle_even_after_reuse() {
    let mut vec = Vector::default();
    let hs: Vec<Handle<u8>> = (0..4u8)
        .map(|i| {
            let id = vec.push(i);
            vec.create_handle(id).unwrap()
        })
        .collect();
    vec.clear();
    assert_eq!(vec.len(), 0);
    for h in &hs {
        assert_eq!(vec.get(h), None);
    }
    let id = vec.push(9);
    assert_eq!(id, 0);
    for h in &hs {
        assert_eq!(vec.get(h), None);
    }
    assert_eq!(vec.get_validity_id(0), 2);
    assert_eq!(vec.get_validity_id(3), 1);
}

#[test]
fn len_counts_insertions_minus_erasures() {
    let mut vec = Vector::default();
    let mut ids = Vec::new();
    for i in 0..6 {
        ids.push(vec.push(i));
    }
    vec.erase_by_id(ids[0]);
    vec.erase_by_id(ids[3]);
    assert_eq!(vec.len(), 4);
    vec.push(7);
    assert_eq!(vec.len(), 5);
    assert!(!vec.is_empty());
}

#[test]
fn doubling_through_iter_mut_is_seen_by_handles() {
    let mut vec = Vector::default();
    let ids: Vec<usize> = [10, 20, 30].iter().map(|&x| vec.push(x)).collect();
    let hs: Vec<Handle<i64>> = ids.iter().map(|&id| vec.create_handle(id).unwrap()).collect();
    vec.erase_by_id(ids[0]);
    let sum: i64 = vec.iter().sum();
    assert_eq!(sum, 50);
    for x in vec.iter_mut() {
        *x *= 2;
    }
    assert_eq!(vec.get(&hs[0]), None);
    assert_eq!(vec.get(&hs[1]), Some(&40));
    assert_eq!(vec.get(&hs[2]), Some(&60));
}

#[test]
fn get_rejects_unknown_and_wrong_generation() {
    let mut vec = Vector::default();
    let id = vec.push('a');
    assert_eq!(vec.get(&Handle::new(5, 0)), None);
    assert_eq!(vec.get(&Handle::new(id, 1)), None);
    assert_eq!(vec.get(&Handle::new(id, 0)), Some(&'a'));
    assert!(vec.get_mut(&Handle::new(id, 3)).is_none());
    assert_eq!(vec.get(&Handle::new(INVALID_ID, 0)), None);
}

#[test]
fn forged_handle_to_a_free_slot_is_absent() {
    let mut vec = Vector::default();
    let id = vec.push(1);
    vec.erase_by_id(id);
    // The slot's generation is now 1, but no object lives there.
    assert!(vec.is_valid(id, 1));
    assert_eq!(vec.get(&Handle::new(id, 1)), None);
    assert!(vec.create_handle(id).is_none());
}

#[test]
fn handles_from_dense_positions() {
    let mut vec = Vector::default();
    let a = vec.push("a");
    let b = vec.push("b");
    vec.erase_by_id(a);
    let h = vec.create_handle_from_data(0).unwrap();
    assert_eq!(h.id, b);
    assert_eq!(vec.get(&h), Some(&"b"));
    assert!(vec.create_handle_from_data(1).is_none());
}

#[test]
fn erase_by_data_removes_the_object_there() {
    let mut vec = Vector::default();
    let a = vec.push(1);
    let b = vec.push(2);
    let c = vec.push(3);
    vec.erase_by_data(1);
    assert_eq!(vec.len(), 2);
    assert!(vec.create_handle(b).is_none());
    assert_eq!(*vec.index(a), 1);
    assert_eq!(*vec.index(c), 3);
    assert_eq!(vec.get_next_id(), b);
}

#[test]
fn index_access_by_id() {
    let mut vec = Vector::default();
    let a = vec.push(5);
    let b = vec.push(6);
    *vec.index_mut(b) += 10;
    assert_eq!(*vec.index(a), 5);
    assert_eq!(*vec.index(b), 16);
}

#[test]
fn next_id_validity_and_capacity() {
    let mut vec: Vector<u16> = Vector::default();
    assert_eq!(vec.get_next_id(), 0);
    assert!(!vec.is_valid_id(0));
    assert!(vec.first().is_none());
    vec.reserve(16);
    assert!(vec.capacity() >= 16);
    assert_eq!(vec.len(), 0);
    let id = vec.push(4);
    assert_eq!(vec.get_next_id(), 1);
    assert!(vec.is_valid_id(id));
    assert!(vec.is_valid(id, 0));
    assert!(!vec.is_valid(id, 1));
    assert_eq!(vec.first(), Some(&4));
    assert!(vec.capacity() >= vec.len());
}

#[test]
fn data_access_through_get_data_mut() {
    let mut vec = Vector::default();
    let a = vec.push(1);
    let h = vec.create_handle(a).unwrap();
    vec.get_data_mut()[0] = 8;
    assert_eq!(vec.get(&h), Some(&8));
    let all: Vec<i32> = vec.into_iter().collect();
    assert_eq!(all, vec![8]);
}

#[test]
fn clear_reissues_old_ids_first() {
    let mut vec = Vector::default();
    for i in 0..3 {
        vec.push(i);
    }
    vec.erase_by_id(0);
    vec.clear();
    let next = vec.get_next_id();
    assert!(next < 3);
    assert_eq!(vec.push(5), next);
    assert_eq!(vec.get_data_index(next), 0);
}
