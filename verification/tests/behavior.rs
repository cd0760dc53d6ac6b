//! Exercises the container through its public interface.

use typemap::TypeMap;

#[derive(Debug, PartialEq, Eq)]
struct KindA(u64);

#[derive(Debug, PartialEq, Eq)]
struct KindB(u64);

#[test]
fn insert_then_get_returns_the_value() {
    let mut map = TypeMap::new();
    map.insert(10_usize);
    assert_eq!(map.get::<usize>(), Some(&10_usize));

    map.insert(String::from("ten"));
    assert_eq!(map.get::<String>(), Some(&String::from("ten")));
}

#[test]
fn insert_does_not_affect_other_types() {
    let mut map = TypeMap::new();
    map.insert(1_u64);
    assert_eq!(map.get::<u32>(), None);

    map.insert(2_u32);
    assert_eq!(map.get::<u64>(), Some(&1_u64));
    assert_eq!(map.get::<u32>(), Some(&2_u32));

    map.insert(3_u64);
    assert_eq!(map.get::<u32>(), Some(&2_u32));
}

#[test]
fn insert_replaces_and_returns_the_previous_value() {
    let mut map = TypeMap::new();
    assert!(map.insert(10_usize).is_none());
    assert!(map.insert(10_u8).is_none());
    assert_eq!(map.insert(15_usize), Some(10_usize));
    assert_eq!(map.get::<usize>(), Some(&15_usize));
    assert_eq!(map.get::<u8>(), Some(&10_u8));
}

#[test]
fn remove_takes_the_value_out() {
    let mut map = TypeMap::new();
    map.insert(10_usize);
    assert_eq!(map.remove::<usize>(), Some(10_usize));
    assert_eq!(map.get::<usize>(), None);
    assert_eq!(map.remove::<usize>(), None);
}

#[test]
fn clear_empties_and_the_map_stays_usable() {
    let mut map = TypeMap::new();
    map.insert(10_usize);
    map.insert(String::from("ten"));
    map.clear();
    assert_eq!(map.get::<usize>(), None);
    assert_eq!(map.get::<String>(), None);

    map.insert(7_usize);
    assert_eq!(map.get::<usize>(), Some(&7_usize));
}

#[test]
fn fresh_map_reads_remove_and_clear_are_noops() {
    let mut map = TypeMap::new();
    assert_eq!(map.get::<i32>(), None);
    assert_eq!(map.remove::<i32>(), None);
    map.clear();
    assert_eq!(map.get::<i32>(), None);
}

#[test]
fn get_mut_mutation_is_observed_by_get() {
    let mut map = TypeMap::new();
    map.insert(String::from("Hello"));
    map.get_mut::<String>().unwrap().push_str(" World");
    assert_eq!(map.get::<String>().unwrap(), "Hello World");
}

#[test]
fn get_mut_on_a_missing_type_is_none() {
    let mut map = TypeMap::new();
    assert!(map.get_mut::<String>().is_none());
    map.insert(1_u8);
    assert!(map.get_mut::<String>().is_none());
    assert!(map.get_mut::<u8>().is_some());
}

#[test]
fn equal_bit_patterns_of_distinct_types_do_not_collide() {
    let mut map = TypeMap::new();
    assert!(map.insert(KindA(10)).is_none());
    assert!(map.insert(KindB(10)).is_none());
    assert_eq!(map.get::<KindA>(), Some(&KindA(10)));
    assert_eq!(map.get::<KindB>(), Some(&KindB(10)));
    assert_eq!(map.remove::<KindA>(), Some(KindA(10)));
    assert_eq!(map.get::<KindA>(), None);
    assert_eq!(map.get::<KindB>(), Some(&KindB(10)));
}

#[test]
fn default_is_an_empty_map() {
    let mut map = TypeMap::default();
    assert_eq!(map.get::<i32>(), None);
    map.insert(5_i32);
    assert_eq!(map.get::<i32>(), Some(&5_i32));
}

#[test]
fn many_types_coexist() {
    let mut map = TypeMap::new();
    map.insert(true);
    map.insert(1_u8);
    map.insert(2_u16);
    map.insert(3_u32);
    map.insert(4_u64);
    map.insert(String::from("five"));
    map.insert(vec![6_i32, 7_i32]);
    assert_eq!(map.get::<bool>(), Some(&true));
    assert_eq!(map.get::<u8>(), Some(&1_u8));
    assert_eq!(map.get::<u16>(), Some(&2_u16));
    assert_eq!(map.get::<u32>(), Some(&3_u32));
    assert_eq!(map.get::<u64>(), Some(&4_u64));
    assert_eq!(map.get::<String>(), Some(&String::from("five")));
    assert_eq!(map.get::<Vec<i32>>(), Some(&vec![6_i32, 7_i32]));

    assert_eq!(map.remove::<u16>(), Some(2_u16));
    assert_eq!(map.get::<u16>(), None);
    assert_eq!(map.get::<u8>(), Some(&1_u8));
    assert_eq!(map.get::<u32>(), Some(&3_u32));
}

#[test]
fn vec_value_can_grow_in_place() {
    let mut map = TypeMap::new();
    map.insert(vec![1_u8]);
    map.get_mut::<Vec<u8>>().unwrap().push(2);
    map.get_mut::<Vec<u8>>().unwrap().push(3);
    assert_eq!(map.get::<Vec<u8>>(), Some(&vec![1_u8, 2, 3]));
}
