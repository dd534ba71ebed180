use luatools::serial::SerialBuffer;

#[test]
fn new_buffer_is_empty() {
    let b = SerialBuffer::new(4096);
    assert_eq!(b.len(), 0);
    assert!(b.is_empty());
}

#[test]
fn push_within_capacity_keeps_everything() {
    let mut b = SerialBuffer::new(8);
    b.push(&[1, 2, 3]);
    b.push(&[4, 5]);
    assert_eq!(b.len(), 5);
    assert!(!b.is_empty());
    assert_eq!(b.drain(), vec![1, 2, 3, 4, 5]);
}

#[test]
fn push_over_capacity_discards_oldest() {
    let mut b = SerialBuffer::new(4);
    b.push(&[1, 2, 3]);
    b.push(&[4, 5, 6]);
    assert_eq!(b.len(), 4);
    assert_eq!(b.drain(), vec![3, 4, 5, 6]);
}

#[test]
fn push_exactly_capacity_replaces_all() {
    let mut b = SerialBuffer::new(3);
    b.push(&[1, 2]);
    b.push(&[7, 8, 9]);
    assert_eq!(b.drain(), vec![7, 8, 9]);
}

#[test]
fn pushes_compose_like_one_push() {
    let mut a = SerialBuffer::new(5);
    a.push(&[1, 2, 3, 4]);
    a.push(&[5, 6, 7]);
    let mut b = SerialBuffer::new(5);
    b.push(&[1, 2, 3, 4]);
    b.push(&[5, 6, 7]);
    let mut c = SerialBuffer::new(5);
    let all: Vec<u8> = vec![1, 2, 3, 4, 5, 6, 7];
    c.push(&all[2..]);
    assert_eq!(a.drain(), c.drain());
    assert_eq!(b.len(), 5);
}

#[test]
fn drain_empties_buffer() {
    let mut b = SerialBuffer::new(16);
    b.push(b"hello");
    assert_eq!(b.drain(), b"hello".to_vec());
    assert!(b.is_empty());
    assert_eq!(b.drain(), Vec::<u8>::new());
}


#[test]
fn push_longer_than_capacity_keeps_newest_of_data() {
    let mut b = SerialBuffer::new(3);
    b.push(&[1, 2]);
    b.push(&[4, 5, 6, 7, 8]);
    assert_eq!(b.len(), 3);
    assert_eq!(b.drain(), vec![6, 7, 8]);
    let mut z = SerialBuffer::new(0);
    z.push(&[1, 2, 3]);
    assert!(z.is_empty());
}
