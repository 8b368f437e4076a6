use heart_man::capped_vec::CappedVec;

#[test]
fn capped_vec_respects_capacity() {
    let mut v: CappedVec<u8, 2> = CappedVec::new();
    assert_eq!(v.first(), None);
    assert_eq!(v.try_push(1), Ok(()));
    v.push(2);
    assert_eq!(v.try_push(3), Err(()));
    assert_eq!(v.len(), 2);
    assert_eq!(v.iter(), &[1, 2]);
    assert_eq!(v.first(), Some(&1));
    assert_eq!(v.last(), Some(&2));
    *v.write(0, 5) += 1;
    assert_eq!(*v.read(0), 6);
    assert_eq!(v.pop(), Some(2));
    assert_eq!(v.pop(), Some(6));
    assert_eq!(v.pop(), None);
    v.extend(vec![8, 9]);
    assert_eq!(v.iter(), &[8, 9]);
    v.clear();
    assert_eq!(v.len(), 0);
}
