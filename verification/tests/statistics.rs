use clickhouse_ingestor::bench::statistics::{key_at, median_key, sort_keys};

#[test]
fn keys_are_sorted() {
    assert_eq!(sort_keys(&vec![5, 1, 4, 1, 3]), vec![1, 1, 3, 4, 5]);
    assert_eq!(sort_keys(&vec![u64::MAX, 0]), vec![0, u64::MAX]);
    assert_eq!(sort_keys(&Vec::new()), Vec::<u64>::new());
}

#[test]
fn the_median_of_an_even_number_is_the_upper_one() {
    assert_eq!(median_key(&vec![4, 1, 3, 2]), Some(3));
    assert_eq!(median_key(&vec![9, 7, 8]), Some(8));
    assert_eq!(median_key(&vec![6]), Some(6));
    assert_eq!(median_key(&Vec::new()), None);
}

#[test]
fn places_count_from_the_smallest() {
    let keys: Vec<u64> = vec![30, 10, 20];
    assert_eq!(key_at(&keys, 0), Some(10));
    assert_eq!(key_at(&keys, 1), Some(20));
    assert_eq!(key_at(&keys, 2), Some(30));
    assert_eq!(key_at(&Vec::new(), 0), None);
}

#[test]
fn statistics_do_not_depend_on_the_order_of_samples() {
    let one: Vec<u64> = vec![8, 2, 6, 2, 9, 1];
    let other: Vec<u64> = vec![1, 2, 2, 6, 8, 9];
    assert_eq!(median_key(&one), median_key(&other));
    for place in 0..6 {
        assert_eq!(key_at(&one, place), key_at(&other, place));
    }
}
