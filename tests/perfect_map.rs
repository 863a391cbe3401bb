use std::collections::HashMap;

use perfect_map::codec::{function_is_framed, read_varint, DecodeError, Field, FieldsSeen};
use perfect_map::keyless::KeylessPerfectMap;
use perfect_map::map::PerfectMap;
use perfect_map::placement::place_by_slots;

fn abcd() -> PerfectMap<String, i32> {
    PerfectMap::new(&["a".into(), "b".into(), "c".into(), "d".into()], vec![1, 2, 3, 4]).unwrap()
}

#[test]
fn test_serde() {
    let map: PerfectMap<String, i32> = abcd();

    assert_eq!(map.get("a"), Some(&1i32));
    assert_eq!(map.get("b"), Some(&2i32));
    assert_eq!(map.get("c"), Some(&3i32));
    assert_eq!(map.get("d"), Some(&4i32));

    let values_json = serde_json::to_string(&map.values().to_vec()).unwrap();
    let keys_json = serde_json::to_string(&map.keys().to_vec()).unwrap();
    let function_json = serde_json::to_string(&map.function_bytes().unwrap()).unwrap();

    let values: Vec<i32> = serde_json::from_str(&values_json).unwrap();
    let keys: Vec<String> = serde_json::from_str(&keys_json).unwrap();
    let function: Vec<u8> = serde_json::from_str(&function_json).unwrap();
    let deserialized_map: PerfectMap<String, i32> =
        PerfectMap::from_fields(Some(values), Some(keys), Some(function)).unwrap();

    assert_eq!(deserialized_map.get("a"), Some(&1i32));
    assert_eq!(deserialized_map.get("b"), Some(&2i32));
    assert_eq!(deserialized_map.get("c"), Some(&3i32));
    assert_eq!(deserialized_map.get("d"), Some(&4i32));
}

#[test]
fn values_fill_one_slot_per_key() {
    let map = abcd();
    let mut seen: Vec<i32> = map.values().to_vec();
    seen.sort();
    assert_eq!(seen, vec![1, 2, 3, 4]);
    assert!(map.keys().is_empty());
}

#[test]
fn slot_lookup_matches_get() {
    let map = abcd();
    for (k, v) in [("a", 1), ("b", 2), ("c", 3), ("d", 4)] {
        let slot = map.slot_of(k);
        assert!(slot.unwrap() < 4);
        assert_eq!(map.get_at_slot(slot), Some(&v));
        assert_eq!(map.get_at_slot(slot), map.get(k));
    }
    assert_eq!(map.get_at_slot(None), None);
    assert_eq!(map.get_at_slot(Some(4)), None);
}

#[test]
fn preserved_keys_sit_beside_their_values() {
    let keys: Vec<String> = vec!["x".into(), "y".into(), "z".into()];
    let map: PerfectMap<String, u32> =
        PerfectMap::new_preserve_keys(keys.clone(), vec![10u32, 20, 30]).unwrap();
    assert_eq!(map.keys().len(), 3);
    for (i, k) in keys.iter().enumerate() {
        let slot = map.slot_of(k.as_str()).unwrap() as usize;
        assert_eq!(&map.keys()[slot], k);
        assert_eq!(map.values()[slot], 10 * (i as u32 + 1));
    }
}

#[test]
fn values_are_converted_on_the_way_in() {
    let map: PerfectMap<u64, i64> = PerfectMap::new(&[7u64, 8, 9], vec![1i32, -2, 3]).unwrap();
    assert_eq!(map.get(&7u64), Some(&1i64));
    assert_eq!(map.get(&8u64), Some(&-2i64));
    assert_eq!(map.get(&9u64), Some(&3i64));
}

#[test]
fn inverted_association_builds_keyed_map() {
    let mut source: HashMap<i32, &str> = HashMap::new();
    source.insert(1, "a");
    source.insert(2, "b");
    let map: PerfectMap<&str, i32> = PerfectMap::from_map_invert(source).unwrap();
    assert_eq!(map.get("a"), Some(&1));
    assert_eq!(map.get("b"), Some(&2));
}

#[test]
fn association_builds_map() {
    let mut source: HashMap<String, u8> = HashMap::new();
    source.insert("one".into(), 1);
    source.insert("two".into(), 2);
    source.insert("three".into(), 3);
    let map: PerfectMap<String, u8> = PerfectMap::from_map(source).unwrap();
    assert_eq!(map.get("one"), Some(&1));
    assert_eq!(map.get("two"), Some(&2));
    assert_eq!(map.get("three"), Some(&3));
}

#[test]
fn duplicate_keys_build_nothing() {
    let map: Option<PerfectMap<&str, i32>> = PerfectMap::new(&["a", "a"], vec![1, 2]);
    assert!(map.is_none());
}

#[test]
fn empty_key_set_builds_empty_map() {
    let keys: Vec<u32> = Vec::new();
    let map: KeylessPerfectMap<u32, u32> = KeylessPerfectMap::new(keys, Vec::<u32>::new()).unwrap();
    assert_eq!(map.len(), 0);
    assert_eq!(map.get(&5u32), None);
}

#[test]
fn non_member_lookup_stays_in_bounds() {
    let map = abcd();
    for probe in ["e", "zz", "", "abcd"] {
        if let Some(v) = map.get(probe) {
            assert!(map.values().contains(v));
        }
    }
}

#[test]
fn keyless_map_lookups() {
    let keys: Vec<String> = vec!["a".into(), "b".into(), "c".into(), "d".into()];
    let map: KeylessPerfectMap<String, i32> = KeylessPerfectMap::new(keys, vec![1, 2, 3, 4]).unwrap();
    assert_eq!(map.len(), 4);
    assert_eq!(map.get("a"), Some(&1));
    assert_eq!(map.get("d"), Some(&4));
    assert_eq!(map.get_unchecked("b"), Some(&2));
    assert_eq!(map.get_unchecked("c"), Some(&3));
}

#[test]
fn keyless_round_trip_through_record() {
    let mut source: HashMap<u16, char> = HashMap::new();
    for (i, c) in "perfect".chars().enumerate() {
        source.insert(i as u16 * 3, c);
    }
    let map: KeylessPerfectMap<u16, char> = KeylessPerfectMap::from_map(source).unwrap();
    let bytes = map.function_bytes().unwrap();
    assert!(!bytes.is_empty());
    let back: KeylessPerfectMap<u16, char> =
        KeylessPerfectMap::from_sequence(Some(map.values().to_vec()), true, Some(bytes)).unwrap();
    assert_eq!(back.values(), map.values());
    for (i, c) in "perfect".chars().enumerate() {
        assert_eq!(back.get(&(i as u16 * 3)), Some(&c));
    }
}

#[test]
fn keyless_inverted_association() {
    let mut source: HashMap<i32, &str> = HashMap::new();
    source.insert(1, "a");
    source.insert(2, "b");
    let map: KeylessPerfectMap<&str, i32> = KeylessPerfectMap::from_map_invert(source).unwrap();
    assert_eq!(map.get("a"), Some(&1));
    assert_eq!(map.get("b"), Some(&2));
}

#[test]
fn round_trip_keeps_keys_and_values() {
    let keys: Vec<u32> = (0..50).map(|i| i * 7 + 1).collect();
    let values: Vec<u32> = (0..50).collect();
    let map: PerfectMap<u32, u32> = PerfectMap::new_preserve_keys(keys.clone(), values).unwrap();
    let back: PerfectMap<u32, u32> = PerfectMap::from_sequence(
        Some(map.values().to_vec()),
        Some(map.keys().to_vec()),
        Some(map.function_bytes().unwrap()),
    )
    .unwrap();
    assert_eq!(back.values(), map.values());
    assert_eq!(back.keys(), map.keys());
    for (i, k) in keys.iter().enumerate() {
        assert_eq!(back.get(k), Some(&(i as u32)));
        assert_eq!(back.get(k), map.get(k));
    }
}

#[test]
fn decode_reports_missing_fields() {
    let map = abcd();
    let bytes = map.function_bytes().unwrap();
    let r = PerfectMap::<String, i32>::from_fields(Some(vec![1]), None, None);
    assert_eq!(r.err(), Some(DecodeError::MissingField(Field::Function)));
    let r = PerfectMap::<String, i32>::from_fields(None, None, Some(bytes.clone()));
    assert_eq!(r.err(), Some(DecodeError::MissingField(Field::Values)));
    let r = PerfectMap::<String, i32>::from_fields(Some(vec![4, 3, 2, 1]), None, Some(bytes));
    assert!(r.unwrap().keys().is_empty());
    let r = KeylessPerfectMap::<String, i32>::from_fields(None, None);
    assert_eq!(r.err(), Some(DecodeError::MissingField(Field::Function)));
}

#[test]
fn decode_reports_short_sequence() {
    let r = PerfectMap::<String, i32>::from_sequence(None, None, None);
    assert_eq!(r.err(), Some(DecodeError::InvalidLength(0)));
    let r = PerfectMap::<String, i32>::from_sequence(Some(vec![]), None, None);
    assert_eq!(r.err(), Some(DecodeError::InvalidLength(1)));
    let r = PerfectMap::<String, i32>::from_sequence(Some(vec![]), Some(vec![]), None);
    assert_eq!(r.err(), Some(DecodeError::InvalidLength(2)));
    let r = KeylessPerfectMap::<String, i32>::from_sequence(Some(vec![]), false, Some(vec![]));
    assert_eq!(r.err(), Some(DecodeError::InvalidLength(1)));
}

#[test]
fn decode_rejects_bad_function_bytes() {
    let r = PerfectMap::<String, i32>::from_parts(vec![1], vec![], &[]);
    assert_eq!(r.err(), Some(DecodeError::InvalidFunctionBytes));
    let r = KeylessPerfectMap::<String, i32>::from_parts(vec![1], &[]);
    assert_eq!(r.err(), Some(DecodeError::InvalidFunctionBytes));
}

#[test]
fn duplicate_field_is_reported() {
    let mut seen = FieldsSeen::new();
    assert_eq!(seen.visit(Field::Values), Ok(()));
    assert_eq!(seen.visit(Field::Function), Ok(()));
    assert_eq!(seen.visit(Field::Values), Err(DecodeError::DuplicateField(Field::Values)));
    assert_eq!(seen.visit(Field::Keys), Ok(()));
    assert_eq!(seen.visit(Field::Keys), Err(DecodeError::DuplicateField(Field::Keys)));
    assert_eq!(Field::Function.name(), "function");
}

#[test]
fn placement_puts_each_item_in_its_slot() {
    let placed = place_by_slots(&vec![2, 0, 3, 1], vec!['a', 'b', 'c', 'd']).unwrap();
    assert_eq!(placed, vec!['b', 'd', 'a', 'c']);
    assert_eq!(place_by_slots(&vec![], Vec::<u8>::new()), Some(vec![]));
}

#[test]
fn placement_refuses_collisions_and_gaps() {
    assert_eq!(place_by_slots(&vec![0, 0], vec![1, 2]), None);
    assert_eq!(place_by_slots(&vec![0, 2], vec![1, 2]), None);
    assert_eq!(place_by_slots(&vec![0], vec![1, 2]), None);
}

#[test]
fn varints_read_low_bits_first() {
    assert_eq!(read_varint(&[7], 0), Some((7, 1)));
    assert_eq!(read_varint(&[0x85, 2], 0), Some((261, 2)));
    assert_eq!(read_varint(&[0, 0x80, 0x80, 1], 1), Some((16384, 4)));
    assert_eq!(read_varint(&[0x80, 0x80, 0x80, 0x80, 1], 0), None);
    assert_eq!(read_varint(&[0x80], 0), None);
}

#[test]
fn written_functions_have_their_frame() {
    let map = abcd();
    assert!(function_is_framed(&map.function_bytes().unwrap()));
    let keys: Vec<u32> = (0..1000).collect();
    let big: KeylessPerfectMap<u32, u32> = KeylessPerfectMap::new(keys.clone(), keys).unwrap();
    assert!(function_is_framed(&big.function_bytes().unwrap()));
}

#[test]
fn crafted_function_bytes_are_refused() {
    // a level count far beyond the input
    let huge_count = [16u8, 0xFF, 0xFF, 0xFF, 0x7F];
    assert!(!function_is_framed(&huge_count));
    // a level of zero groups
    let empty_level = [16u8, 1, 0, 0, 0, 0, 0, 0, 0, 0, 0];
    assert!(!function_is_framed(&empty_level));
    // more groups than bytes
    let too_many_groups = [16u8, 1, 0x80, 0x40];
    assert!(!function_is_framed(&too_many_groups));
    let r = PerfectMap::<String, i32>::from_parts(vec![], vec![], &huge_count);
    assert_eq!(r.err(), Some(DecodeError::InvalidFunctionBytes));
    let r = KeylessPerfectMap::<String, i32>::from_parts(vec![], &empty_level);
    assert_eq!(r.err(), Some(DecodeError::InvalidFunctionBytes));
}
