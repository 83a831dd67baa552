use claudiofsr_lib::SkipBack;

#[test]
fn iterations_test_skip_last() {
    let items: Vec<i32> = (1..=5).collect();
    let data: Vec<i32> = items.skip_last();
    assert_eq!(data, [1, 2, 3, 4]);

    let items: Vec<i32> = (1..=5).collect();
    let data: Vec<i32> = items.skip_last().into_iter().skip(1).collect();
    assert_eq!(data, [2, 3, 4]);

    let skipped: Vec<i32> = vec![1, 2, 3, 4, 5].into_iter().skip(1).collect();
    let data: Vec<i32> = skipped.skip_last().into_iter().skip(1).collect();
    assert_eq!(data, [3, 4]);
}

#[test]
fn test_skip_last_and_skip() {
    let items: Vec<u64> = (1..=5u64).collect();
    let data: Vec<u64> = items.skip_last().into_iter().skip(1).collect();
    assert_eq!(data, [2, 3, 4]);
}

#[test]
fn test_skip_and_skip_last() {
    let skipped: Vec<u16> = (1..=5u16).skip(1).collect();
    let data: Vec<u16> = skipped.skip_last();
    assert_eq!(data, [2, 3, 4]);
}

#[test]
fn test_skip_back() {
    let data1: Vec<i32> = vec![1, 2, 3, 4, 5].skip_back(0);
    assert_eq!(data1, [1, 2, 3, 4, 5]);

    let data2: Vec<i32> = vec![1, 2, 3, 4, 5].skip_back(1);
    assert_eq!(data2, [1, 2, 3, 4]);

    let data3: Vec<i32> = vec![1, 2, 3, 4, 5].skip_back(2);
    assert_eq!(data3, [1, 2, 3]);

    let iter4: Vec<i32> = (1..=5).collect();
    let data4: Vec<i32> = iter4.skip_back(2);
    assert_eq!(data4, [1, 2, 3]);

    let iter5: Vec<i32> = (1..=10).collect();
    let data5: Vec<i32> = iter5.skip_back(6);
    assert_eq!(data5, [1, 2, 3, 4]);

    let iter6: Vec<i32> = (1..=10).collect();
    let data6: Vec<i32> = iter6.skip_back(11);
    assert!(data6.is_empty());

    let skipped: Vec<i32> = vec![1, 2, 3, 4, 5, 6, 7].into_iter().skip(1).collect();
    let data7: Vec<i32> = skipped
        .skip_back(2)
        .skip_back(1)
        .into_iter()
        .skip(1)
        .collect();
    assert_eq!(data7, [3, 4]);
}

#[test]
fn iterations_test_skip_last_empty() {
    // A collection that holds nothing.
    let nope: Vec<i32> = Vec::new();

    let data: Vec<i32> = nope.skip_last();
    assert_eq!(data, []);
}

#[test]
fn test_skip_back_empty() {
    // A collection that holds nothing.
    let nope: Vec<i32> = Vec::new();

    let data: Vec<i32> = nope.skip_back(0);
    assert_eq!(data, []);
}
