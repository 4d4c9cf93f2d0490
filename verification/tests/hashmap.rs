use std::collections::HashMap;

use update_check::utils::hashmap::merge;

#[test]
fn test_merge_empty() {
    let maps: Vec<Option<&HashMap<i32, i32>>> = vec![];
    let result = merge(&maps);
    assert!(result.is_empty());
}

#[test]
fn test_merge_single_empty() {
    let map: HashMap<i32, i32> = HashMap::new();
    let maps = vec![Some(&map)];
    let result = merge(&maps);
    assert!(result.is_empty());
}

#[test]
fn test_merge_single_non_empty() {
    let mut map = HashMap::new();
    map.insert(1, 10);
    let maps = vec![Some(&map)];
    let result = merge(&maps);
    assert_eq!(result.len(), 1);
    assert_eq!(result[&1], 10);
}

#[test]
fn test_merge_multiple_non_empty() {
    let mut first_map = HashMap::new();
    first_map.insert(1, 10);
    let mut second_map = HashMap::new();
    second_map.insert(2, 20);
    let maps = vec![Some(&first_map), Some(&second_map)];
    let result = merge(&maps);
    assert_eq!(result.len(), 2);
    assert_eq!(result[&1], 10);
    assert_eq!(result[&2], 20);
}

#[test]
fn test_merge_with_none() {
    let mut first_map = HashMap::new();
    first_map.insert(1, 10);
    let maps = vec![Some(&first_map), None];
    let result = merge(&maps);
    assert_eq!(result.len(), 1);
    assert_eq!(result[&1], 10);
}

#[test]
fn test_merge_overlapping_keys() {
    let mut first_map = HashMap::new();
    first_map.insert(1, 10);
    let mut second_map = HashMap::new();
    second_map.insert(1, 20);
    let maps = vec![Some(&first_map), Some(&second_map)];
    let result = merge(&maps);
    assert_eq!(result.len(), 1);
    assert_eq!(result[&1], 20);
}

#[test]
fn test_merge_earlier_value_is_replaced_not_kept() {
    let mut first_map = HashMap::new();
    first_map.insert(7, 1);
    first_map.insert(8, 2);
    let mut second_map = HashMap::new();
    second_map.insert(8, 3);
    let mut third_map = HashMap::new();
    third_map.insert(7, 4);
    let maps = vec![Some(&first_map), None, Some(&second_map), Some(&third_map)];
    let result = merge(&maps);
    assert_eq!(result.len(), 2);
    assert_eq!(result[&7], 4);
    assert_eq!(result[&8], 3);
}

#[test]
fn test_merge_string_keys() {
    let mut first_map: HashMap<String, String> = HashMap::new();
    first_map.insert("react".to_string(), "^17.0.0".to_string());
    let mut second_map: HashMap<String, String> = HashMap::new();
    second_map.insert("react".to_string(), "^18.0.0".to_string());
    second_map.insert("vite".to_string(), "~5.0.0".to_string());
    let maps = vec![Some(&first_map), Some(&second_map)];
    let result = merge(&maps);
    assert_eq!(result.len(), 2);
    assert_eq!(result["react"], "^18.0.0");
    assert_eq!(result["vite"], "~5.0.0");
}
