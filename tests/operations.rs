use std::io::Write;

use non_empty_vec::{NonEmtpyVec, TryCollect, TryFromIterator};

fn of(items: &[i32]) -> NonEmtpyVec<i32> {
    NonEmtpyVec::from_vec(items.to_vec()).unwrap()
}

#[test]
fn new_holds_one_element() {
    let v = NonEmtpyVec::new(7);
    assert_eq!(v.as_slice(), &[7]);
    assert_eq!(v.len(), 1);
}

#[test]
fn with_capacity_reserves_room() {
    let v = NonEmtpyVec::with_capacity(10, 'a');
    assert_eq!(v.as_slice(), &['a']);
    assert!(v.capacity() >= 10);
}

#[test]
fn from_vec_round_trip() {
    let c = vec![1, 2, 3];
    let v = NonEmtpyVec::from_vec(c.clone()).unwrap();
    assert_eq!(v.into_vec(), c);
}

#[test]
fn from_vec_refuses_empty() {
    assert!(NonEmtpyVec::from_vec(Vec::<i32>::new()).is_none());
}

#[test]
fn pop_on_singleton_keeps_the_element() {
    let mut v = NonEmtpyVec::new(5);
    assert_eq!(v.pop(), None);
    assert_eq!(v.as_slice(), &[5]);
}

#[test]
fn pop_on_two_elements() {
    let mut v = of(&[1, 2]);
    assert_eq!(v.pop(), Some(2));
    assert_eq!(v.as_slice(), &[1]);
}

#[test]
fn pop_drains_down_to_one() {
    let mut v = of(&[1, 2, 3, 4]);
    let mut popped = Vec::new();
    while let Some(x) = v.pop() {
        popped.push(x);
    }
    assert_eq!(popped, vec![4, 3, 2]);
    assert_eq!(v.as_slice(), &[1]);
}

#[test]
fn remove_shifts_later_elements() {
    let mut v = of(&[1, 2, 3]);
    assert_eq!(v.remove(0), 1);
    assert_eq!(v.as_slice(), &[2, 3]);
}

#[test]
fn swap_remove_moves_last_into_place() {
    let mut v = of(&[1, 2, 3, 4]);
    assert_eq!(v.swap_remove(1), 2);
    assert_eq!(v.as_slice(), &[1, 4, 3]);
}

#[test]
fn retain_keeps_matching_in_order() {
    let mut v = of(&[1, 20, 3, 40, 5]);
    v.retain(|x| *x < 10);
    assert_eq!(v.as_slice(), &[1, 3, 5]);
}

#[test]
fn retain_keeping_everything() {
    let mut v = of(&[1, 2, 3]);
    v.retain(|x| *x < 10);
    assert_eq!(v.as_slice(), &[1, 2, 3]);
}

#[test]
fn truncate_to_one() {
    let mut v = of(&[1, 2, 3]);
    v.truncate(1);
    assert_eq!(v.as_slice(), &[1]);
}

#[test]
fn truncate_beyond_length_changes_nothing() {
    let mut v = of(&[1, 2, 3]);
    v.truncate(5);
    assert_eq!(v.as_slice(), &[1, 2, 3]);
}

#[test]
fn split_off_at_one() {
    let mut v = of(&[1, 2, 3, 4]);
    let tail = v.split_off(1);
    assert_eq!(v.as_slice(), &[1]);
    assert_eq!(tail, vec![2, 3, 4]);
}

#[test]
fn split_off_at_length_returns_empty() {
    let mut v = of(&[1, 2]);
    let tail = v.split_off(2);
    assert_eq!(v.as_slice(), &[1, 2]);
    assert!(tail.is_empty());
}

#[test]
fn map_keeps_length() {
    let v = of(&[1, 2, 3]);
    let m = v.map(|x| x * 10);
    assert_eq!(m.len(), 3);
    assert_eq!(m.as_slice(), &[10, 20, 30]);
}

#[test]
fn map_changes_type() {
    let v = of(&[1, 2]);
    let m = v.map(|x| format!("n{}", x));
    assert_eq!(m.as_slice(), &["n1".to_string(), "n2".to_string()]);
}

#[test]
fn map_in_place_replaces_each() {
    let mut v = of(&[1, 2, 3]);
    v.map_in_place(|x| x + 1);
    assert_eq!(v.as_slice(), &[2, 3, 4]);
}

#[test]
fn dedup_by_removes_adjacent_equal() {
    let mut v = of(&[1, 1, 2, 2, 2, 3, 1]);
    v.dedup_by(|a, b| a == b);
    assert_eq!(v.as_slice(), &[1, 2, 3, 1]);
}

#[test]
fn dedup_by_compares_with_last_kept() {
    let mut v = of(&[10, 11, 12, 20, 25]);
    v.dedup_by(|a, b| *a - *b < 5);
    assert_eq!(v.as_slice(), &[10, 20, 25]);
}

#[test]
fn dedup_by_key_uses_keys() {
    let mut v = of(&[10, 15, 20, 31, 39, 11]);
    v.dedup_by_key(|x| *x / 10);
    assert_eq!(v.as_slice(), &[10, 20, 31, 11]);
}

#[test]
fn dedup_by_key_singleton() {
    let mut v = NonEmtpyVec::new(4);
    v.dedup_by_key(|x| *x);
    assert_eq!(v.as_slice(), &[4]);
}

#[test]
fn resize_with_grows_and_shrinks() {
    let mut v = of(&[1]);
    v.resize_with(3, || 9);
    assert_eq!(v.as_slice(), &[1, 9, 9]);
    v.resize_with(2, || 0);
    assert_eq!(v.as_slice(), &[1, 9]);
}

#[test]
fn resize_with_calls_in_order() {
    let mut v = of(&[0]);
    let mut next = 0;
    v.resize_with(4, || {
        next += 1;
        next
    });
    assert_eq!(v.as_slice(), &[0, 1, 2, 3]);
}

#[test]
fn resize_clones_value() {
    let mut v = of(&[1, 2]);
    v.resize(4, 7);
    assert_eq!(v.as_slice(), &[1, 2, 7, 7]);
    v.resize(1, 0);
    assert_eq!(v.as_slice(), &[1]);
}

#[test]
fn splice_replaces_range() {
    let mut v = of(&[1, 2, 3, 4]);
    let removed = v.splice(1..3, vec![7, 8, 9]);
    assert_eq!(removed, Some(vec![2, 3]));
    assert_eq!(v.as_slice(), &[1, 7, 8, 9, 4]);
}

#[test]
fn splice_refuses_to_empty() {
    let mut v = of(&[1, 2]);
    assert_eq!(v.splice(0..2, Vec::new()), None);
    assert_eq!(v.as_slice(), &[1, 2]);
}

#[test]
fn splice_whole_range_with_replacement() {
    let mut v = of(&[1, 2]);
    assert_eq!(v.splice(0..2, vec![5]), Some(vec![1, 2]));
    assert_eq!(v.as_slice(), &[5]);
}

#[test]
fn append_moves_other_container() {
    let mut v = of(&[1, 2]);
    v.append(of(&[3, 4]));
    assert_eq!(v.as_slice(), &[1, 2, 3, 4]);
}

#[test]
fn append_vec_empties_other() {
    let mut v = of(&[1]);
    let mut other = vec![2, 3];
    v.append_vec(&mut other);
    assert_eq!(v.as_slice(), &[1, 2, 3]);
    assert!(other.is_empty());
}

#[test]
fn push_insert_and_extend() {
    let mut v = of(&[2]);
    v.push(4);
    v.insert(0, 1);
    v.insert(2, 3);
    v.extend_from_slice(&[5, 6]);
    assert_eq!(v.as_slice(), &[1, 2, 3, 4, 5, 6]);
}

#[test]
fn capacity_changes_keep_elements() {
    let mut v = of(&[1, 2, 3]);
    v.reserve(10);
    assert!(v.capacity() >= 13);
    v.reserve_exact(20);
    assert!(v.capacity() >= 23);
    v.shrink_to_fit();
    assert!(v.capacity() >= 3);
    assert_eq!(v.as_slice(), &[1, 2, 3]);
}

#[test]
fn element_access() {
    let v = of(&[4, 5, 6]);
    assert_eq!(*v.first(), 4);
    assert_eq!(*v.last(), 6);
    assert_eq!(v.get(1), Some(&5));
    assert_eq!(v.get(3), None);
    assert_eq!(v.as_vec(), &vec![4, 5, 6]);
}

#[test]
fn default_holds_one_default() {
    let v: NonEmtpyVec<i32> = NonEmtpyVec::default();
    assert_eq!(v.as_slice(), &[0]);
}

#[test]
fn into_iter_yields_in_order() {
    let v = of(&[1, 2, 3]);
    let items: Vec<i32> = v.into_iter().collect();
    assert_eq!(items, vec![1, 2, 3]);
}

#[test]
fn try_from_iter_collects() {
    let v = <NonEmtpyVec<i32> as TryFromIterator<i32>>::try_from_iter(vec![3, 4].into_iter());
    assert_eq!(v.unwrap().as_slice(), &[3, 4]);
    let e = <NonEmtpyVec<i32> as TryFromIterator<i32>>::try_from_iter(Vec::new().into_iter());
    assert!(e.is_none());
}

#[test]
fn try_collect_from_iterator() {
    let v: Option<NonEmtpyVec<i32>> = (1..4).try_collect();
    assert_eq!(v.unwrap().as_slice(), &[1, 2, 3]);
    let e: Option<NonEmtpyVec<i32>> = (1..1).try_collect();
    assert!(e.is_none());
}

#[test]
fn clone_and_compare() {
    let v = of(&[1, 2]);
    let w = v.clone();
    assert_eq!(v, w);
    assert_ne!(v, of(&[1]));
}

#[test]
fn byte_sink_appends() {
    let mut v = NonEmtpyVec::new(b'a');
    assert_eq!(v.write(b"bc").unwrap(), 2);
    v.write_all(b"de").unwrap();
    v.flush().unwrap();
    assert_eq!(v.as_slice(), b"abcde");
}

#[test]
fn append_bytes_reports_length() {
    let mut v = NonEmtpyVec::new(0u8);
    assert_eq!(v.append_bytes(&[1, 2, 3]).unwrap(), 3);
    assert_eq!(v.as_slice(), &[0, 1, 2, 3]);
}

#[test]
fn dedup_shrinks_runs() {
    let mut v = of(&[1, 1, 2, 3, 3, 3, 1]);
    v.dedup();
    assert_eq!(v.as_slice(), &[1, 2, 3, 1]);
}

#[test]
fn extend_appends_items_in_order() {
    let mut v = of(&[1]);
    v.extend(vec![2, 3, 4].into_iter());
    assert_eq!(v.as_slice(), &[1, 2, 3, 4]);
    v.extend(Vec::new().into_iter());
    assert_eq!(v.as_slice(), &[1, 2, 3, 4]);
}

#[test]
fn set_replaces_one_element() {
    let mut v = of(&[1, 2, 3]);
    v.set(1, 9);
    assert_eq!(v.as_slice(), &[1, 9, 3]);
}

#[test]
fn write_vectored_appends_every_buffer() {
    let mut v = NonEmtpyVec::new(b'a');
    let bufs = [std::io::IoSlice::new(b"bc"), std::io::IoSlice::new(b""), std::io::IoSlice::new(b"de")];
    assert_eq!(v.write_vectored(&bufs).unwrap(), 4);
    assert_eq!(v.as_slice(), b"abcde");
}

#[test]
fn try_collect_empty_gives_none() {
    let e: Option<NonEmtpyVec<i32>> = Vec::<i32>::new().into_iter().try_collect();
    assert!(e.is_none());
}

#[test]
fn into_iter_round_trip() {
    let c = vec![5, 6, 7];
    let v = NonEmtpyVec::from_vec(c.clone()).unwrap();
    assert_eq!(v.into_iter().collect::<Vec<i32>>(), c);
}
