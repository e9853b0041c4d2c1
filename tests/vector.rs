use slot_vector::Vector;

#[test]
fn test_basic_push_and_get() {
    let mut vec = Vector::default();

    let id1 = vec.push(10);
    let id2 = vec.push(20);

    let h1 = vec.create_handle(id1).unwrap();
    let h2 = vec.create_handle(id2).unwrap();

    assert_eq!(vec.get(&h1), Some(&10));
    assert_eq!(vec.get(&h2), Some(&20));
    assert_eq!(vec.len(), 2);
}

#[test]
fn test_handle_invalidation_after_erase() {
    let mut vec = Vector::default();
    let id = vec.push(100);
    let handle = vec.create_handle(id).unwrap();

    assert!(vec.get(&handle).is_some());

    vec.erase_by_handle(&handle);

    assert_eq!(vec.get(&handle), None);
    assert_eq!(vec.len(), 0);
}

#[test]
fn test_reuse_slots_and_stale_handles() {
    let mut vec = Vector::default();

    let id_a = vec.push(10);
    let handle_a = vec.create_handle(id_a).unwrap();

    vec.erase_by_handle(&handle_a);

    let id_b = vec.push(20);
    let handle_b = vec.create_handle(id_b).unwrap();

    assert_eq!(vec.get(&handle_a), None, "Old handle accessed new data!");

    assert_eq!(vec.get(&handle_b), Some(&20));
}

#[test]
fn test_swap_behavior() {
    let mut vec = Vector::default();

    let id1 = vec.push(1);
    let id2 = vec.push(2);
    let id3 = vec.push(3);

    let h1 = vec.create_handle(id1).unwrap();
    let h2 = vec.create_handle(id2).unwrap();
    let h3 = vec.create_handle(id3).unwrap();

    vec.erase_by_handle(&h1);
    assert_eq!(vec.len(), 2);

    assert_eq!(vec.get(&h1), None);
    assert_eq!(vec.get(&h2), Some(&2));
    assert_eq!(vec.get(&h3), Some(&3));
}

#[test]
fn test_mutable_access() {
    let mut vec = Vector::default();
    let id = vec.push(5);
    let handle = vec.create_handle(id).unwrap();

    if let Some(val) = vec.get_mut(&handle) {
        *val = 10;
    }

    assert_eq!(vec.get(&handle), Some(&10));
}

#[test]
fn test_clear() {
    let mut vec = Vector::default();
    let id = vec.push(1);
    let handle = vec.create_handle(id).unwrap();

    vec.clear();

    assert!(vec.is_empty());
    assert_eq!(vec.get(&handle), None);
}

#[test]
fn test_push_and_access() {
    let mut vec = Vector::default();
    let id = vec.push(42);
    let handle = vec.create_handle(id).unwrap();

    assert_eq!(vec.len(), 1);
    assert_eq!(vec.get(&handle), Some(&42));
}

#[test]
fn test_erase_logic() {
    let mut vec = Vector::default();
    let id_a = vec.push(10);
    let id_b = vec.push(20);
    let id_c = vec.push(30);

    let h_a = vec.create_handle(id_a).unwrap();
    let h_b = vec.create_handle(id_b).unwrap();
    let h_c = vec.create_handle(id_c).unwrap();

    vec.erase_by_handle(&h_a);

    assert_eq!(vec.len(), 2);

    assert_eq!(vec.get(&h_a), None);
    assert_eq!(vec.get(&h_b), Some(&20));
    assert_eq!(vec.get(&h_c), Some(&30));
}

#[test]
fn test_stale_handle_protection() {
    let mut vec = Vector::default();

    let id = vec.push(100);
    let handle_old = vec.create_handle(id).unwrap();

    vec.erase_by_handle(&handle_old);

    let id_new = vec.push(200);
    let handle_new = vec.create_handle(id_new).unwrap();

    assert_eq!(vec.get(&handle_old), None);
    assert_eq!(vec.get(&handle_new), Some(&200));
}

#[test]
fn test_clear_invalidates_handles() {
    let mut vec = Vector::default();
    let id = vec.push(1);
    let handle = vec.create_handle(id).unwrap();

    vec.clear();

    assert!(vec.is_empty());
    assert_eq!(vec.get(&handle), None);
}

#[test]
fn test_get_mut() {
    let mut vec = Vector::default();
    let id = vec.push(5);
    let handle = vec.create_handle(id).unwrap();

    if let Some(val) = vec.get_mut(&handle) {
        *val = 99;
    }

    assert_eq!(vec.get(&handle), Some(&99));
}

#[test]
fn test_invalid_handle_creation() {
    let vec: Vector<i32> = Vector::default();
    let result = vec.create_handle(999);
    assert!(result.is_none());
}

#[test]
fn test_iterators() {
    let mut vec = Vector::default();
    vec.push(10);
    vec.push(20);
    vec.push(30);

    let mut sum = 0;
    for x in &vec {
        sum += *x;
    }
    assert_eq!(sum, 60);

    for x in vec.iter_mut() {
        *x *= 2;
    }

    let first = vec.iter().next();
    assert_eq!(first, Some(&20));

    let mut collected = Vec::new();
    for x in vec {
        collected.push(x);
    }

    assert_eq!(collected, vec![20, 40, 60]);
}
