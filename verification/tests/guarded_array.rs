use guarded_array::GuardedArray;
use guarded_array::Mapping;
use guarded_array::PAGE_SIZE;

#[test]
fn it_works() {}

#[test]
fn capacity_of_one_byte_is_one_page() {
    let a = GuardedArray::with_capacity(1).ok().unwrap();
    assert_eq!(a.capacity_bytes(), PAGE_SIZE);
    assert_eq!(a.capacity_bytes(), 4096);
    assert_eq!(a.capacity_elements(), 512);
}

#[test]
fn capacity_rounds_to_smallest_page_multiple() {
    let a = GuardedArray::with_capacity(4096).ok().unwrap();
    assert_eq!(a.capacity_bytes(), 4096);
    let b = GuardedArray::with_capacity(4097).ok().unwrap();
    assert_eq!(b.capacity_bytes(), 8192);
    let c = GuardedArray::with_capacity(12288).ok().unwrap();
    assert_eq!(c.capacity_bytes(), 12288);
    let d = GuardedArray::with_capacity(100).ok().unwrap();
    assert_eq!(d.capacity_bytes(), 4096);
}

#[test]
fn push_then_pop_returns_value_and_restores_len() {
    let mut a = GuardedArray::with_capacity(4096).ok().unwrap();
    a.push(11);
    a.push(22);
    let before = a.len();
    a.push(0xdead_beef_cafe_f00d);
    assert_eq!(a.pop(), Some(0xdead_beef_cafe_f00d));
    assert_eq!(a.len(), before);
    assert_eq!(a.get(0), 11);
    assert_eq!(a.get(1), 22);
}

#[test]
fn pop_on_empty_returns_nothing_and_keeps_len_zero() {
    let mut a = GuardedArray::with_capacity(1).ok().unwrap();
    assert_eq!(a.pop(), None);
    assert_eq!(a.len(), 0);
    assert_eq!(a.pop(), None);
    assert_eq!(a.len(), 0);
}

#[test]
fn remove_yields_element_and_preserves_order() {
    let mut a = GuardedArray::with_capacity(4096).ok().unwrap();
    a.push(10);
    a.push(20);
    a.push(30);
    a.push(40);
    let taken = a.remove(1);
    assert_eq!(taken, 20);
    assert_eq!(a.len(), 3);
    assert_eq!(a.get(0), 10);
    assert_eq!(a.get(1), 30);
    assert_eq!(a.get(2), 40);
}

#[test]
fn remove_first_and_last() {
    let mut a = GuardedArray::with_capacity(4096).ok().unwrap();
    a.push(1);
    a.push(2);
    a.push(3);
    assert_eq!(a.remove(2), 3);
    assert_eq!(a.len(), 2);
    assert_eq!(a.remove(0), 1);
    assert_eq!(a.len(), 1);
    assert_eq!(a.get(0), 2);
}

#[test]
fn repeated_push_pop_cycles_stay_consistent() {
    let mut a = GuardedArray::with_capacity(4096).ok().unwrap();
    let slots = a.capacity_elements();
    for round in 0..4u64 {
        for i in 0..slots as u64 {
            a.push(round * 1_000_000 + i);
        }
        assert_eq!(a.len(), slots);
        for i in (0..slots as u64).rev() {
            assert_eq!(a.pop(), Some(round * 1_000_000 + i));
        }
        assert_eq!(a.len(), 0);
    }
}

#[test]
fn one_page_holds_512_elements() {
    let mut a = GuardedArray::with_capacity(4096).ok().unwrap();
    assert_eq!(a.capacity_elements(), 512);
    for i in 0..512u64 {
        a.push(i * 3 + 1);
    }
    assert_eq!(a.len(), 512);
    assert_eq!(a.get(0), 1);
    assert_eq!(a.get(511), 511 * 3 + 1);
    for i in 0..512usize {
        assert_eq!(a.get(i), i as u64 * 3 + 1);
    }
}

#[test]
fn set_updates_one_slot_in_place() {
    let mut a = GuardedArray::with_capacity(1).ok().unwrap();
    a.push(5);
    a.push(6);
    a.push(7);
    a.set(1, 60);
    assert_eq!(a.get(0), 5);
    assert_eq!(a.get(1), 60);
    assert_eq!(a.get(2), 7);
    assert_eq!(a.len(), 3);
}

#[test]
fn to_vec_copies_live_elements_in_order() {
    let mut a = GuardedArray::with_capacity(1).ok().unwrap();
    assert_eq!(a.to_vec(), Vec::<u64>::new());
    a.push(4);
    a.push(8);
    a.push(15);
    assert_eq!(a.to_vec(), vec![4, 8, 15]);
    a.pop();
    assert_eq!(a.to_vec(), vec![4, 8]);
}

#[test]
fn mapping_failure_is_surfaced() {
    let r = GuardedArray::with_capacity(usize::MAX / 2);
    assert!(r.is_err());
    let msg = r.err().unwrap().message();
    assert!(!msg.is_empty());
}

#[test]
fn region_starts_zeroed_and_takes_writes() {
    let mut m = Mapping::with_capacity(PAGE_SIZE).ok().unwrap();
    assert_eq!(m.capacity_bytes(), PAGE_SIZE);
    assert_eq!(m.read(0), 0);
    assert_eq!(m.read(PAGE_SIZE - 1), 0);
    m.write(17, 0xab);
    assert_eq!(m.read(17), 0xab);
    assert_eq!(m.read(16), 0);
    assert_eq!(m.read(18), 0);
}
