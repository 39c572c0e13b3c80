use dragonos_kernel::bpf::map::hash_map::{BpfHashMap, PerCpuHashMap};
use dragonos_kernel::bpf::map::key_order::{compare_keys, KeyOrder};
use dragonos_kernel::bpf::map::util::{round_up, BpfMapMeta};
use dragonos_kernel::error::SystemError;

fn meta(key_size: u32, value_size: u32, max_entries: u32) -> BpfMapMeta {
    BpfMapMeta { key_size, value_size, max_entries }
}

fn filled(keys: &[&[u8]]) -> BpfHashMap {
    let mut m = BpfHashMap::new(&meta(4, 4, 16)).unwrap();
    for (i, k) in keys.iter().enumerate() {
        m.update_elem(k, &[i as u8], 0).unwrap();
    }
    m
}

/// Collects the keys that repeated calls of `get_next_key` give, starting from no
/// key, for a map whose keys all have `key_len` bytes.
fn walk(m: &BpfHashMap, key_len: usize) -> Vec<Vec<u8>> {
    let mut out: Vec<Vec<u8>> = Vec::new();
    let mut cur: Option<Vec<u8>> = None;
    loop {
        let mut buf = vec![0u8; key_len];
        if m.get_next_key(cur.as_deref(), &mut buf).is_err() {
            return out;
        }
        out.push(buf.clone());
        cur = Some(buf);
    }
}

#[test]
fn new_refuses_zero_value_size_and_zero_entries() {
    assert_eq!(BpfHashMap::new(&meta(4, 0, 8)).unwrap_err(), SystemError::EINVAL);
    assert_eq!(BpfHashMap::new(&meta(4, 8, 0)).unwrap_err(), SystemError::EINVAL);
    assert!(BpfHashMap::new(&meta(0, 1, 1)).is_ok());
}

#[test]
fn new_rounds_value_size_up_to_eight() {
    let m = BpfHashMap::new(&meta(4, 5, 8)).unwrap();
    assert_eq!(m.value_size(), 8);
    assert_eq!(m.key_size(), 4);
    assert_eq!(m.max_entries(), 8);
    assert_eq!(BpfHashMap::new(&meta(4, 8, 8)).unwrap().value_size(), 8);
    assert_eq!(BpfHashMap::new(&meta(4, 9, 8)).unwrap().value_size(), 16);
    assert_eq!(BpfHashMap::new(&meta(4, 1, 8)).unwrap().value_size(), 8);
}

#[test]
fn new_refuses_value_sizes_that_do_not_round_up_in_u32() {
    assert_eq!(BpfHashMap::new(&meta(4, u32::MAX, 8)).unwrap_err(), SystemError::E2BIG);
    assert_eq!(BpfHashMap::new(&meta(4, u32::MAX - 6, 8)).unwrap_err(), SystemError::E2BIG);
    assert_eq!(BpfHashMap::new(&meta(4, u32::MAX - 7, 8)).unwrap().value_size(), u32::MAX - 7);
    assert_eq!(BpfHashMap::new(&meta(4, 0, 8)).unwrap_err(), SystemError::EINVAL);
}

#[test]
fn round_up_gives_least_multiple() {
    assert_eq!(round_up(0, 8), 0);
    assert_eq!(round_up(1, 8), 8);
    assert_eq!(round_up(8, 8), 8);
    assert_eq!(round_up(17, 8), 24);
    assert_eq!(round_up(5, 1), 5);
    assert_eq!(round_up(5, 4), 8);
}

#[test]
fn compare_keys_orders_lexicographically() {
    assert_eq!(compare_keys(&[1, 2], &[1, 3]), KeyOrder::Less);
    assert_eq!(compare_keys(&[1, 2], &[1, 2]), KeyOrder::Equal);
    assert_eq!(compare_keys(&[2], &[1, 9]), KeyOrder::Greater);
    assert_eq!(compare_keys(&[1], &[1, 0]), KeyOrder::Less);
    assert_eq!(compare_keys(&[], &[]), KeyOrder::Equal);
    assert_eq!(compare_keys(&[0], &[]), KeyOrder::Greater);
}

#[test]
fn lookup_after_update_finds_the_value() {
    let mut m = BpfHashMap::new(&meta(4, 4, 8)).unwrap();
    assert_eq!(m.lookup_elem(&[1, 2, 3, 4]).unwrap(), None);
    m.update_elem(&[1, 2, 3, 4], &[9, 9], 0).unwrap();
    assert_eq!(m.lookup_elem(&[1, 2, 3, 4]).unwrap(), Some(&[9u8, 9][..]));
    assert_eq!(m.lookup_elem(&[1, 2, 3]).unwrap(), None);
}

#[test]
fn update_overwrites_and_keeps_other_keys() {
    let mut m = BpfHashMap::new(&meta(1, 1, 8)).unwrap();
    m.update_elem(&[1], &[10], 0).unwrap();
    m.update_elem(&[2], &[20], 0).unwrap();
    m.update_elem(&[1], &[11], 0).unwrap();
    assert_eq!(m.lookup_elem(&[1]).unwrap(), Some(&[11u8][..]));
    assert_eq!(m.lookup_elem(&[2]).unwrap(), Some(&[20u8][..]));
}

#[test]
fn update_of_a_new_key_in_a_full_map_is_e2big() {
    let mut m = BpfHashMap::new(&meta(1, 1, 1)).unwrap();
    m.update_elem(&[1], &[1], 0).unwrap();
    assert_eq!(m.update_elem(&[2], &[2], 0), Err(SystemError::E2BIG));
    assert_eq!(m.lookup_elem(&[2]).unwrap(), None);
    assert_eq!(m.update_elem(&[1], &[5], 0), Ok(()));
    assert_eq!(m.lookup_elem(&[1]).unwrap(), Some(&[5u8][..]));
}

#[test]
fn update_flags_noexist_and_exist() {
    let mut m = BpfHashMap::new(&meta(1, 1, 8)).unwrap();
    assert_eq!(m.update_elem(&[1], &[1], 2), Err(SystemError::ENOENT));
    assert_eq!(m.lookup_elem(&[1]).unwrap(), None);
    assert_eq!(m.update_elem(&[1], &[1], 1), Ok(()));
    assert_eq!(m.update_elem(&[1], &[2], 1), Err(SystemError::EEXIST));
    assert_eq!(m.lookup_elem(&[1]).unwrap(), Some(&[1u8][..]));
    assert_eq!(m.update_elem(&[1], &[3], 2), Ok(()));
    assert_eq!(m.lookup_elem(&[1]).unwrap(), Some(&[3u8][..]));
    assert_eq!(m.update_elem(&[1], &[4], 3), Err(SystemError::EINVAL));
    assert_eq!(m.update_elem(&[1], &[4], 4), Ok(()));
    assert_eq!(m.lookup_elem(&[1]).unwrap(), Some(&[4u8][..]));
}

#[test]
fn delete_removes_only_that_key() {
    let mut m = filled(&[&[1], &[2], &[3]]);
    assert_eq!(m.delete_elem(&[2]), Ok(()));
    assert_eq!(m.lookup_elem(&[2]).unwrap(), None);
    assert_eq!(m.lookup_elem(&[1]).unwrap(), Some(&[0u8][..]));
    assert_eq!(m.lookup_elem(&[3]).unwrap(), Some(&[2u8][..]));
    assert_eq!(m.delete_elem(&[7]), Err(SystemError::ENOENT));
    assert_eq!(m.delete_elem(&[2]), Err(SystemError::ENOENT));
    assert_eq!(walk(&m, 1), vec![vec![1u8], vec![3u8]]);
}

#[test]
fn lookup_and_delete_copies_then_removes() {
    let mut m = BpfHashMap::new(&meta(1, 3, 8)).unwrap();
    m.update_elem(&[5], &[1, 2, 3], 0).unwrap();
    let mut out = [0u8; 3];
    assert_eq!(m.lookup_and_delete_elem(&[5], &mut out), Ok(()));
    assert_eq!(out, [1, 2, 3]);
    assert_eq!(m.lookup_elem(&[5]).unwrap(), None);
}

#[test]
fn lookup_and_delete_of_missing_key_is_enoent() {
    let mut m = filled(&[&[1]]);
    let mut out = [7u8; 2];
    assert_eq!(m.lookup_and_delete_elem(&[2], &mut out), Err(SystemError::ENOENT));
    assert_eq!(out, [7, 7]);
    assert_eq!(m.lookup_elem(&[1]).unwrap(), Some(&[0u8][..]));
}

#[test]
fn get_next_key_walks_keys_in_ascending_order() {
    let m = filled(&[&[3, 0], &[1, 7], &[1, 0], &[2, 5], &[0, 9]]);
    assert_eq!(
        walk(&m, 2),
        vec![vec![0u8, 9], vec![1u8, 0], vec![1u8, 7], vec![2u8, 5], vec![3u8, 0]]
    );
}

#[test]
fn get_next_key_puts_a_prefix_first() {
    let m = filled(&[&[1, 0], &[1]]);
    let mut one = [0u8; 1];
    let mut two = [0u8; 2];
    assert_eq!(m.get_next_key(None, &mut one), Ok(()));
    assert_eq!(one, [1]);
    assert_eq!(m.get_next_key(Some(&[1]), &mut two), Ok(()));
    assert_eq!(two, [1, 0]);
    assert_eq!(m.get_next_key(Some(&[1, 0]), &mut two), Err(SystemError::ENOENT));
}

#[test]
fn get_next_key_from_none_gives_the_first_key() {
    let m = filled(&[&[9, 9], &[4, 4]]);
    let mut buf = [0u8; 2];
    assert_eq!(m.get_next_key(None, &mut buf), Ok(()));
    assert_eq!(buf, [4, 4]);
    assert_eq!(m.get_next_key(Some(&[4, 4]), &mut buf), Ok(()));
    assert_eq!(buf, [9, 9]);
}

#[test]
fn get_next_key_after_last_key_is_enoent() {
    let m = filled(&[&[1], &[2]]);
    let mut buf = [42u8; 1];
    assert_eq!(m.get_next_key(Some(&[2]), &mut buf), Err(SystemError::ENOENT));
    assert_eq!(buf, [42]);
    let empty = BpfHashMap::new(&meta(1, 1, 1)).unwrap();
    assert_eq!(empty.get_next_key(None, &mut buf), Err(SystemError::ENOENT));
    assert_eq!(empty.get_next_key(Some(&[3]), &mut buf), Err(SystemError::ENOENT));
    assert_eq!(buf, [42]);
}

#[test]
fn get_next_key_of_a_missing_key_restarts_at_the_first_key() {
    let m = filled(&[&[4], &[2]]);
    let mut buf = [0u8; 1];
    assert_eq!(m.get_next_key(Some(&[0]), &mut buf), Ok(()));
    assert_eq!(buf, [2]);
    assert_eq!(m.get_next_key(Some(&[3]), &mut buf), Ok(()));
    assert_eq!(buf, [2]);
    assert_eq!(m.get_next_key(Some(&[9, 9]), &mut buf), Ok(()));
    assert_eq!(buf, [2]);
}

#[test]
fn for_each_counts_until_the_callback_stops() {
    let m = filled(&[&[3], &[1], &[2]]);
    let seen = std::cell::RefCell::new(Vec::new());
    let cb = |k: &[u8], _v: &[u8]| -> i32 {
        seen.borrow_mut().push(k.to_vec());
        if k == [2] { 1 } else { 0 }
    };
    assert_eq!(m.for_each_elem(&cb, 0), Ok(1));
    assert_eq!(*seen.borrow(), vec![vec![1u8], vec![2u8]]);
    let all = |_k: &[u8], _v: &[u8]| -> i32 { 0 };
    assert_eq!(m.for_each_elem(&all, 0), Ok(3));
}

#[test]
fn for_each_passes_values_beside_their_keys() {
    let m = filled(&[&[2], &[1]]);
    let seen = std::cell::RefCell::new(Vec::new());
    let cb = |k: &[u8], v: &[u8]| -> i32 {
        seen.borrow_mut().push((k.to_vec(), v.to_vec()));
        0
    };
    assert_eq!(m.for_each_elem(&cb, 0), Ok(2));
    assert_eq!(*seen.borrow(), vec![(vec![1u8], vec![1u8]), (vec![2u8], vec![0u8])]);
}

#[test]
fn for_each_refuses_flags() {
    let m = filled(&[&[1]]);
    let called = std::cell::Cell::new(false);
    let cb = |_k: &[u8], _v: &[u8]| -> i32 {
        called.set(true);
        0
    };
    assert_eq!(m.for_each_elem(&cb, 1), Err(SystemError::EINVAL));
    assert!(!called.get());
}

#[test]
fn per_cpu_new_makes_one_map_per_cpu() {
    let m = PerCpuHashMap::new(&meta(1, 1, 4), 3).unwrap();
    for cpu in 0..3 {
        assert_eq!(m.lookup_elem(&[1], cpu).unwrap(), None);
    }
    assert_eq!(PerCpuHashMap::new(&meta(1, 0, 4), 2).unwrap_err(), SystemError::EINVAL);
    assert!(PerCpuHashMap::new(&meta(1, 0, 4), 0).is_ok());
}

#[test]
fn per_cpu_maps_are_independent() {
    let mut m = PerCpuHashMap::new(&meta(1, 1, 4), 2).unwrap();
    m.update_elem(&[1], &[10], 0, 0).unwrap();
    m.update_elem(&[1], &[20], 0, 1).unwrap();
    assert_eq!(m.lookup_elem(&[1], 0).unwrap(), Some(&[10u8][..]));
    assert_eq!(m.lookup_percpu_elem(&[1], 1).unwrap(), Some(&[20u8][..]));
    m.delete_elem(&[1], 0).unwrap();
    assert_eq!(m.delete_elem(&[1], 0), Err(SystemError::ENOENT));
    assert_eq!(m.lookup_elem(&[1], 0).unwrap(), None);
    assert_eq!(m.lookup_percpu_elem(&[1], 2).unwrap(), None);
    assert_eq!(m.lookup_percpu_elem(&[1], u32::MAX).unwrap(), None);
    assert_eq!(m.lookup_elem(&[1], 1).unwrap(), Some(&[20u8][..]));
    let mut out = [0u8; 1];
    assert_eq!(m.lookup_and_delete_elem(&[1], &mut out, 0), Err(SystemError::ENOENT));
    assert_eq!(m.lookup_and_delete_elem(&[1], &mut out, 1), Ok(()));
    assert_eq!(out, [20]);
}

#[test]
fn per_cpu_iteration_uses_the_cpu_map() {
    let mut m = PerCpuHashMap::new(&meta(1, 1, 4), 2).unwrap();
    m.update_elem(&[5], &[1], 0, 1).unwrap();
    let mut buf = [0u8; 1];
    assert_eq!(m.get_next_key(None, &mut buf, 0), Err(SystemError::ENOENT));
    assert_eq!(m.get_next_key(None, &mut buf, 1), Ok(()));
    assert_eq!(buf, [5]);
    let cb = |_k: &[u8], _v: &[u8]| -> i32 { 0 };
    assert_eq!(m.for_each_elem(&cb, 0, 0), Ok(0));
    assert_eq!(m.for_each_elem(&cb, 0, 1), Ok(1));
}

#[test]
fn updates_of_different_keys_commute() {
    let mut a = BpfHashMap::new(&meta(1, 1, 8)).unwrap();
    let mut b = BpfHashMap::new(&meta(1, 1, 8)).unwrap();
    a.update_elem(&[1], &[10], 0).unwrap();
    a.update_elem(&[2], &[20], 0).unwrap();
    b.update_elem(&[2], &[20], 0).unwrap();
    b.update_elem(&[1], &[10], 0).unwrap();
    assert_eq!(walk(&a, 1), walk(&b, 1));
    for k in [[1u8], [2u8]] {
        assert_eq!(a.lookup_elem(&k).unwrap(), b.lookup_elem(&k).unwrap());
    }
}

#[test]
fn second_update_of_a_key_wins() {
    let mut m = BpfHashMap::new(&meta(1, 1, 8)).unwrap();
    m.update_elem(&[4], &[1], 0).unwrap();
    m.update_elem(&[4], &[2], 0).unwrap();
    assert_eq!(m.lookup_elem(&[4]).unwrap(), Some(&[2u8][..]));
    assert_eq!(walk(&m, 1), vec![vec![4u8]]);
}

#[test]
fn key_order_is_total_and_antisymmetric() {
    let keys: [&[u8]; 5] = [&[], &[0], &[0, 0], &[1], &[0, 255]];
    for a in keys {
        for b in keys {
            let ab = compare_keys(a, b);
            let ba = compare_keys(b, a);
            match ab {
                KeyOrder::Less => assert_eq!(ba, KeyOrder::Greater),
                KeyOrder::Greater => assert_eq!(ba, KeyOrder::Less),
                KeyOrder::Equal => {
                    assert_eq!(ba, KeyOrder::Equal);
                    assert_eq!(a, b);
                }
            }
            assert_eq!(ab, a.cmp(b).into_key_order());
        }
    }
}

trait IntoKeyOrder {
    fn into_key_order(self) -> KeyOrder;
}

impl IntoKeyOrder for std::cmp::Ordering {
    fn into_key_order(self) -> KeyOrder {
        match self {
            std::cmp::Ordering::Less => KeyOrder::Less,
            std::cmp::Ordering::Equal => KeyOrder::Equal,
            std::cmp::Ordering::Greater => KeyOrder::Greater,
        }
    }
}
