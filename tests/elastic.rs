use elastic_array::{BytesArr1024, BytesVec1024, ElasticArray, ElasticArray1024, ElasticArray2};

type BytesShort = ElasticArray2<u8>;

#[test]
fn it_works() {
    let mut bytes = BytesShort::new();
    assert_eq!(bytes.len(), 0);
    bytes.push(1);
    assert_eq!(bytes.len(), 1);
    assert_eq!(bytes[0], 1);
    bytes.push(2);
    assert_eq!(bytes[1], 2);
    assert_eq!(bytes.len(), 2);
    bytes.push(3);
    assert_eq!(bytes[2], 3);
    assert_eq!(bytes.len(), 3);
    assert_eq!(bytes.pop(), Some(3));
    assert_eq!(bytes.len(), 2);
    assert_eq!(bytes.pop(), Some(2));
    assert_eq!(bytes.pop(), Some(1));
    assert_eq!(bytes.pop(), None);
}

#[test]
fn test_insert_slice() {
    let mut bytes = BytesShort::new();
    bytes.push(1);
    bytes.push(2);
    bytes.insert_slice(1, &[3, 4]);
    assert_eq!(bytes.len(), 4);
    let r: &[u8] = &bytes;
    assert_eq!(r, &[1, 3, 4, 2]);
}

#[test]
fn append_slice() {
    let mut bytes = BytesShort::new();
    bytes.push(1);
    bytes.append_slice(&[3, 4]);
    let r: &[u8] = &bytes;
    assert_eq!(r.len(), 3);
    assert_eq!(r, &[1, 3, 4]);
}

#[test]
fn third_push_moves_to_heap() {
    let mut bytes = BytesShort::new();
    assert!(bytes.is_inline());
    bytes.push(1);
    bytes.push(2);
    assert!(bytes.is_inline());
    bytes.push(3);
    assert!(!bytes.is_inline());
    assert_eq!(bytes.as_slice(), &[1, 2, 3]);
    assert_eq!(bytes.len(), 3);
}

#[test]
fn pop_after_migration() {
    let mut bytes = BytesShort::new();
    bytes.push(1);
    bytes.push(2);
    bytes.push(3);
    assert_eq!(bytes.pop(), Some(3));
    assert_eq!(bytes.len(), 2);
    assert_eq!(bytes.as_slice(), &[1, 2]);
}

#[test]
fn pop_on_empty_gives_none() {
    let mut bytes = BytesShort::new();
    assert_eq!(bytes.pop(), None);
    assert_eq!(bytes.len(), 0);
    assert!(bytes.is_empty());
    assert!(bytes.is_inline());
}

#[test]
fn popping_to_empty_stays_on_heap() {
    let mut bytes = BytesShort::new();
    bytes.push(1);
    bytes.push(2);
    bytes.push(3);
    while bytes.pop().is_some() {}
    assert_eq!(bytes.len(), 0);
    assert!(!bytes.is_inline());
    bytes.push(7);
    assert!(!bytes.is_inline());
    assert_eq!(bytes.as_slice(), &[7]);
}

#[test]
fn clear_returns_to_inline() {
    let mut bytes = BytesShort::new();
    bytes.append_slice(&[1, 2, 3, 4]);
    assert!(!bytes.is_inline());
    bytes.clear();
    assert_eq!(bytes.len(), 0);
    assert!(bytes.is_inline());
    bytes.push(5);
    bytes.push(6);
    assert!(bytes.is_inline());
    assert_eq!(bytes.as_slice(), &[5, 6]);
    bytes.push(7);
    assert!(!bytes.is_inline());
    bytes.clear();
    bytes.clear();
    assert_eq!(bytes.len(), 0);
    assert!(bytes.is_inline());
}

#[test]
fn round_trip_through_vec() {
    let mut bytes = ElasticArray1024::<u8>::new();
    let mut expected: Vec<u8> = Vec::new();
    for i in 0..2000u32 {
        let b = (i * 7 % 251) as u8;
        bytes.push(b);
        expected.push(b);
    }
    assert!(!bytes.is_inline());
    let v = bytes.to_vec();
    assert_eq!(v, expected);
    let mut rebuilt = ElasticArray1024::<u8>::new();
    for b in v.iter() {
        rebuilt.push(*b);
    }
    assert_eq!(rebuilt.as_slice(), expected.as_slice());
}

#[test]
fn round_trip_inline() {
    let mut bytes = ElasticArray::<u8, 8>::new();
    bytes.append_slice(&[4, 5, 6]);
    let v = bytes.to_vec();
    assert_eq!(v, vec![4, 5, 6]);
    let mut rebuilt = ElasticArray::<u8, 8>::new();
    for b in v.iter() {
        rebuilt.push(*b);
    }
    assert!(rebuilt.is_inline());
    assert_eq!(rebuilt.as_slice(), &[4, 5, 6]);
}

#[test]
fn insert_in_middle_of_inline_block() {
    let mut bytes = ElasticArray::<u8, 8>::new();
    bytes.append_slice(&[1, 2, 3, 4, 5]);
    bytes.insert_slice(1, &[9, 8, 7]);
    assert!(bytes.is_inline());
    assert_eq!(bytes.as_slice(), &[1, 9, 8, 7, 2, 3, 4, 5]);
}

#[test]
fn insert_in_middle_of_heap_vector() {
    let mut bytes = ElasticArray::<u8, 2>::new();
    bytes.append_slice(&[1, 2, 3, 4, 5, 6]);
    assert!(!bytes.is_inline());
    bytes.insert_slice(2, &[9, 8, 7]);
    assert_eq!(bytes.as_slice(), &[1, 2, 9, 8, 7, 3, 4, 5, 6]);
    bytes.insert_slice(0, &[0]);
    bytes.insert_slice(10, &[10]);
    assert_eq!(bytes.as_slice(), &[0, 1, 2, 9, 8, 7, 3, 4, 5, 6, 10]);
    assert_eq!(bytes.len(), 11);
}

#[test]
fn insert_empty_slice_changes_nothing() {
    let mut bytes = BytesShort::new();
    bytes.push(1);
    bytes.push(2);
    bytes.insert_slice(1, &[]);
    assert!(bytes.is_inline());
    assert_eq!(bytes.as_slice(), &[1, 2]);
}

#[test]
fn insert_exactly_filling_inline_block() {
    let mut bytes = ElasticArray::<u8, 4>::new();
    bytes.push(1);
    bytes.push(2);
    bytes.insert_slice(0, &[3, 4]);
    assert!(bytes.is_inline());
    assert_eq!(bytes.as_slice(), &[3, 4, 1, 2]);
}

#[test]
fn same_operations_same_elements_in_either_backend() {
    let mut small = ElasticArray::<u8, 2>::new();
    let mut large = ElasticArray::<u8, 64>::new();
    small.append_slice(&[1, 2, 3]);
    large.append_slice(&[1, 2, 3]);
    assert!(!small.is_inline());
    assert!(large.is_inline());
    small.pop();
    large.pop();
    small.insert_slice(1, &[5, 6]);
    large.insert_slice(1, &[5, 6]);
    small.push(9);
    large.push(9);
    small.set(0, 4);
    large.set(0, 4);
    assert_eq!(small.as_slice(), large.as_slice());
    assert_eq!(small.as_slice(), &[4, 5, 6, 2, 9]);
}

#[test]
fn length_counts_pushes_pops_and_inserts() {
    let mut bytes = BytesShort::new();
    bytes.push(1);
    bytes.push(2);
    bytes.pop();
    bytes.insert_slice(0, &[3, 4, 5]);
    bytes.pop();
    bytes.append_slice(&[6]);
    bytes.pop();
    bytes.pop();
    bytes.pop();
    bytes.pop();
    bytes.push(8);
    // 3 pushes, 6 pops that removed an element, 4 inserted elements.
    assert_eq!(bytes.len(), 1);
    assert_eq!(bytes.pop(), Some(8));
    assert_eq!(bytes.pop(), None);
}

#[test]
fn set_writes_in_either_backend() {
    let mut bytes = BytesShort::new();
    bytes.push(1);
    bytes.set(0, 5);
    assert_eq!(bytes.as_slice(), &[5]);
    bytes.append_slice(&[2, 3]);
    bytes.set(2, 7);
    assert_eq!(bytes.as_slice(), &[5, 2, 7]);
}

#[test]
fn bytes_arr_push_overwrites_first_byte() {
    let mut arr = BytesArr1024::new();
    arr.push(3);
    arr.push(4);
    assert_eq!(arr.as_slice()[0], 4);
    assert_eq!(arr.as_slice()[1], 0);
    assert_eq!(arr.as_slice().len(), 1024);
}

#[test]
fn bytes_vec_push_appends() {
    let mut vec = BytesVec1024::new();
    assert_eq!(vec.as_slice().len(), 0);
    vec.push(3);
    vec.push(4);
    assert_eq!(vec.as_slice(), &[3, 4]);
}
