use claudiofsr_lib::IteratorExt;
use claudiofsr_lib::UniqueElements;

#[test]
fn test_get_unique() {
    let numbers = vec![1, 3, 2, 2, 5, 2, 3, 4];
    let unique_numbers: Vec<_> = numbers.get_unique().into_vec();
    assert_eq!(unique_numbers, &[1, 3, 2, 5, 4]);
}

#[test]
fn test_get_unique_empty() {
    let numbers: Vec<i32> = vec![];
    let unique_numbers: Vec<_> = numbers.get_unique().into_vec();
    assert_eq!(unique_numbers, &[]);
}

#[test]
fn test_get_unique_all_same() {
    let numbers = vec![1, 1, 1, 1, 1];
    let unique_numbers: Vec<_> = numbers.get_unique().into_vec();
    assert_eq!(unique_numbers, &[1]);
}

#[test]
fn test_get_unique_strings() {
    let strings = vec!["a", "b", "b", "c", "a", "d", "c", "b", "e"];
    let unique_strings: Vec<_> = strings.get_unique().into_vec();
    assert_eq!(unique_strings, &["a", "b", "c", "d", "e"]);
}

#[test]
fn unique_test_skip_last() {
    let items: Vec<i32> = (1..=5).collect();
    let data1: Vec<_> = items.skip_last().into_vec();
    assert_eq!(data1, [1, 2, 3, 4]);
}

#[test]
fn unique_test_skip_last_empty() {
    let iter: Vec<i32> = vec![];
    let data1: Vec<_> = iter.skip_last().into_vec();
    assert_eq!(data1, []);
}

#[test]
fn test_skip_last_one_element() {
    let iter = vec![1];
    let data1: Vec<_> = iter.skip_last().into_vec();
    assert_eq!(data1, []);
}

#[test]
fn test_skip_last_multiple_skips() {
    let skipped: Vec<i32> = vec![1, 2, 3, 4, 5].into_iter().skip(1).collect();
    let trimmed = skipped.skip_last().into_vec();
    let data2: Vec<_> = trimmed.into_iter().skip(1).collect();
    assert_eq!(data2, [3, 4]);
}

#[test]
fn test_skip_last_chained_skips() {
    let data3: Vec<i32> = vec![1, 2, 3]
        .skip_last()
        .into_vec()
        .skip_last()
        .into_vec()
        .skip_last()
        .into_vec();
    assert!(data3.is_empty());
}

#[test]
fn test_skip_last_strings() {
    let strings = vec!["a", "b", "c", "d", "e"];
    let skipped_strings: Vec<_> = strings.skip_last().into_vec();
    assert_eq!(skipped_strings, &["a", "b", "c", "d"]);
}

#[test]
fn test_unique() {
    let mut vec = vec![1, 2, 2, 3, 1, 4, 3, 2, 5];
    vec.unique();
    assert_eq!(vec, vec![1, 2, 3, 4, 5]);
}

#[test]
fn test_unique_empty() {
    let mut vec: Vec<i32> = vec![];
    vec.unique();
    assert_eq!(vec, Vec::<i32>::new());
    assert_eq!(vec, vec![] as Vec<i32>); // Alternative mode
}

#[test]
fn test_unique_all_same() {
    let mut vec = vec![1, 1, 1, 1, 1];
    vec.unique();
    assert_eq!(vec, vec![1]);
}

#[test]
fn test_unique_strings() {
    let mut vec = vec!["a", "b", "b", "c", "a", "d", "c", "b", "e"];
    vec.unique();
    assert_eq!(vec, vec!["a", "b", "c", "d", "e"]);
}

#[test]
fn test_unique_ordered() {
    let mut vec = vec![1, 2, 2, 3, 1, 4, 3, 2, 5];
    vec.unique_ordered();
    assert_eq!(vec, vec![1, 2, 3, 4, 5]);
}

#[test]
fn test_unique_ordered_empty() {
    let mut vec: Vec<i32> = vec![];
    vec.unique_ordered();
    assert_eq!(vec, Vec::<i32>::new());
}

#[test]
fn test_unique_ordered_all_same() {
    let mut vec = vec![1, 1, 1, 1, 1];
    vec.unique_ordered();
    assert_eq!(vec, vec![1]);
}

#[test]
fn test_unique_ordered_strings() {
    let mut vec = vec!["a", "b", "b", "c", "a", "d", "c", "b", "e"];
    vec.unique_ordered();
    assert_eq!(vec, vec!["a", "b", "c", "d", "e"]);
}

#[test]
fn test_unique_mixed_types() {
    let mut vec: Vec<String> = vec![
        "a".to_string(),
        "b".to_string(),
        "b".to_string(),
        "c".to_string(),
        "a".to_string(),
    ];
    vec.unique();
    assert_eq!(vec, vec!["a".to_string(), "b".to_string(), "c".to_string()]);
}

#[test]
fn test_unique_ordered_mixed_types() {
    let mut vec: Vec<String> = vec![
        "a".to_string(),
        "b".to_string(),
        "b".to_string(),
        "c".to_string(),
        "a".to_string(),
    ];
    vec.unique_ordered();
    assert_eq!(vec, vec!["a".to_string(), "b".to_string(), "c".to_string()]);
}

#[test]
fn test_unique_numbers() {
    let mut vec = vec![5, 4, 3, 2, 1, 1, 2, 3, 4, 5];
    vec.unique();
    assert_eq!(vec, vec![5, 4, 3, 2, 1]);
}

#[test]
fn test_unique_ordered_numbers() {
    let mut vec = vec![5, 4, 3, 2, 1, 1, 2, 3, 4, 5];
    vec.unique_ordered();
    assert_eq!(vec, vec![1, 2, 3, 4, 5]);
}

#[test]
fn test_unique_already_unique() {
    let mut vec = vec![1, 2, 3, 4, 5];
    vec.unique();
    assert_eq!(vec, vec![1, 2, 3, 4, 5]);
}

#[test]
fn test_unique_ordered_already_unique() {
    let mut vec = vec![1, 2, 3, 4, 5];
    vec.unique_ordered();
    assert_eq!(vec, vec![1, 2, 3, 4, 5]);
}

#[test]
fn test_unique_negative_numbers() {
    let mut vec = vec![-1, -2, -2, -3, -1, -4, -3, -2, -5];
    vec.unique();
    assert_eq!(vec, vec![-1, -2, -3, -4, -5]);
}

#[test]
fn test_unique_ordered_negative_numbers() {
    let mut vec = vec![-1, -2, -2, -3, -1, -4, -3, -2, -5];
    vec.unique_ordered();
    assert_eq!(vec, vec![-5, -4, -3, -2, -1]);
}

#[test]
fn test_unique_mixed_positive_negative() {
    let mut vec = vec![-1, 2, -2, 3, -1, 4, -3, 2, -5];
    vec.unique();
    assert_eq!(vec, vec![-1, 2, -2, 3, 4, -3, -5]);
}

#[test]
fn test_unique_ordered_mixed_positive_negative() {
    let mut vec = vec![-1, 2, -2, 3, -1, 4, -3, 2, -5];
    vec.unique_ordered();
    assert_eq!(vec, vec![-5, -3, -2, -1, 2, 3, 4]);
}

// Test structs
#[derive(Debug, Hash, PartialEq, Eq, Clone)]
struct MyStruct {
    value: i32,
}

impl Ord for MyStruct {
    fn cmp(&self, other: &Self) -> std::cmp::Ordering {
        self.value.cmp(&other.value)
    }
}

impl PartialOrd for MyStruct {
    fn partial_cmp(&self, other: &Self) -> Option<std::cmp::Ordering> {
        Some(self.cmp(other))
    }
}

#[test]
fn test_unique_structs() {
    let mut vec = vec![
        MyStruct { value: 1 },
        MyStruct { value: 2 },
        MyStruct { value: 2 },
        MyStruct { value: 3 },
        MyStruct { value: 1 },
    ];
    vec.unique();
    assert_eq!(
        vec,
        vec![
            MyStruct { value: 1 },
            MyStruct { value: 2 },
            MyStruct { value: 3 },
        ]
    );
}

#[test]
fn test_unique_ordered_structs() {
    let mut vec = vec![
        MyStruct { value: 3 },
        MyStruct { value: 1 },
        MyStruct { value: 2 },
        MyStruct { value: 2 },
        MyStruct { value: 1 },
    ];
    vec.unique_ordered();
    assert_eq!(
        vec,
        vec![
            MyStruct { value: 1 },
            MyStruct { value: 2 },
            MyStruct { value: 3 },
        ]
    );
}

/// Draining a cursor one element at a time agrees with taking the whole
/// vector at once.
#[test]
fn test_cursor_next() {
    let numbers = vec![1, 3, 2, 2, 5, 2, 3, 4];
    let mut it = numbers.get_unique();
    let mut collected = Vec::new();
    while let Some(x) = it.next() {
        collected.push(x);
    }
    assert_eq!(collected, vec![1, 3, 2, 5, 4]);

    let mut it = vec![7, 8, 9].skip_last();
    assert_eq!(it.next(), Some(7));
    assert_eq!(it.next(), Some(8));
    assert_eq!(it.next(), None);
}
