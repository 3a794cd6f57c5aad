use restor::{ErrorDesc, Owned, StorageUnit, UnitError};

fn not_one() -> ErrorDesc {
    ErrorDesc::Unit(UnitError::IsNotOne)
}

fn not_many() -> ErrorDesc {
    ErrorDesc::Unit(UnitError::IsNotMany)
}

fn out_of_bounds() -> ErrorDesc {
    ErrorDesc::Unit(UnitError::OutOfBounds)
}

#[test]
fn new_unit_is_empty() {
    let mut unit = StorageUnit::<u32>::new();
    assert!(matches!(unit, StorageUnit::Nope));
    assert_eq!(unit.one(), Err(not_one()));
    assert_eq!(unit.one_mut(), Err(not_one()));
    assert_eq!(unit.many(), Err(not_many()));
    assert_eq!(unit.many_mut(), Err(not_many()));
    assert_eq!(unit.ind(0), Err(not_many()));
    assert_eq!(unit.ind_mut(0), Err(not_many()));
}

#[test]
fn insert_into_empty_gives_one() {
    let mut unit = StorageUnit::new();
    unit.insert(7u32);
    assert_eq!(unit.one(), Ok(&7));
    assert_eq!(unit.many(), Err(not_many()));
    assert_eq!(unit.ind(0), Err(not_many()));
}

#[test]
fn insert_into_one_gives_many_in_order() {
    let mut unit = StorageUnit::new();
    unit.insert(7u32);
    unit.insert(8u32);
    assert_eq!(unit.many(), Ok(&[7u32, 8][..]));
    assert_eq!(unit.one(), Err(not_one()));
    assert_eq!(unit.ind(0), Ok(&7));
    assert_eq!(unit.ind(1), Ok(&8));
    assert_eq!(unit.ind(2), Err(out_of_bounds()));
}

#[test]
fn insert_into_many_appends() {
    let mut unit = StorageUnit::new();
    unit.insert(1u32);
    unit.insert(2u32);
    unit.insert(3u32);
    assert_eq!(unit.many(), Ok(&[1u32, 2, 3][..]));
}

#[test]
fn insert_many_into_empty() {
    let mut unit = StorageUnit::new();
    unit.insert_many(vec![4u32, 5, 6]);
    assert_eq!(unit.many(), Ok(&[4u32, 5, 6][..]));
}

#[test]
fn insert_many_empty_batch_into_empty_is_many() {
    let mut unit = StorageUnit::<u32>::new();
    unit.insert_many(Vec::new());
    assert_eq!(unit.many(), Ok(&[][..]));
    assert_eq!(unit.one(), Err(not_one()));
    assert_eq!(unit.ind(0), Err(out_of_bounds()));
}

#[test]
fn insert_many_into_one_keeps_first() {
    let mut unit = StorageUnit::new();
    unit.insert(1u32);
    unit.insert_many(vec![2u32, 3]);
    assert_eq!(unit.many(), Ok(&[1u32, 2, 3][..]));
}

#[test]
fn insert_many_into_many_appends() {
    let mut unit = StorageUnit::new();
    unit.insert_many(vec![1u32, 2]);
    unit.insert_many(vec![3u32, 4]);
    assert_eq!(unit.many(), Ok(&[1u32, 2, 3, 4][..]));
}

#[test]
fn insert_owned_takes_one_or_many() {
    let mut unit = StorageUnit::new();
    unit.insert_owned(Owned::One(1u32));
    assert_eq!(unit.one(), Ok(&1));
    unit.insert_owned(Owned::Many(vec![2u32, 3]));
    assert_eq!(unit.many(), Ok(&[1u32, 2, 3][..]));
}

#[test]
fn one_mut_writes_through() {
    let mut unit = StorageUnit::new();
    unit.insert(1u32);
    *unit.one_mut().unwrap() = 9;
    assert_eq!(unit.one(), Ok(&9));
}

#[test]
fn many_mut_writes_through() {
    let mut unit = StorageUnit::new();
    unit.insert_many(vec![1u32, 2]);
    unit.many_mut().unwrap().push(3);
    assert_eq!(unit.many(), Ok(&[1u32, 2, 3][..]));
}

#[test]
fn ind_mut_writes_one_place() {
    let mut unit = StorageUnit::new();
    unit.insert_many(vec![1u32, 2, 3]);
    *unit.ind_mut(1).unwrap() = 20;
    assert_eq!(unit.many(), Ok(&[1u32, 20, 3][..]));
    assert_eq!(unit.ind_mut(3), Err(out_of_bounds()));
}

#[test]
fn extract_one_fails_on_empty_and_many() {
    let mut unit = StorageUnit::<u32>::new();
    assert_eq!(unit.extract_one(), Err(not_one()));
    assert!(matches!(unit, StorageUnit::Nope));
    unit.insert_many(vec![1, 2]);
    assert_eq!(unit.extract_one(), Err(not_one()));
    assert_eq!(unit.many(), Ok(&[1u32, 2][..]));
}

#[test]
fn extract_many_fails_on_empty_and_one() {
    let mut unit = StorageUnit::<u32>::new();
    assert_eq!(unit.extract_many(), Err(not_many()));
    assert_eq!(unit.extract_many_boxed(), Err(not_many()));
    assert!(matches!(unit, StorageUnit::Nope));
    unit.insert(1);
    assert_eq!(unit.extract_many(), Err(not_many()));
    assert_eq!(unit.extract_many_boxed(), Err(not_many()));
    assert_eq!(unit.one(), Ok(&1));
}

#[test]
fn insert_then_extract_one_round_trip() {
    let mut unit = StorageUnit::new();
    unit.insert(String::from("kept"));
    assert_eq!(unit.extract_one(), Ok(String::from("kept")));
    assert!(matches!(unit, StorageUnit::Nope));
    assert_eq!(unit.extract_one(), Err(not_one()));
}

#[test]
fn extract_many_empties_the_unit() {
    let mut unit = StorageUnit::new();
    unit.insert(1u32);
    unit.insert(2u32);
    assert_eq!(unit.extract_many(), Ok(vec![1u32, 2]));
    assert!(matches!(unit, StorageUnit::Nope));
}

#[test]
fn extract_many_boxed_keeps_order() {
    let mut unit = StorageUnit::new();
    unit.insert_many(vec![3u32, 1, 2]);
    let boxed: Box<[u32]> = unit.extract_many_boxed().unwrap();
    assert_eq!(&*boxed, &[3u32, 1, 2][..]);
    assert!(matches!(unit, StorageUnit::Nope));
}

#[test]
fn extract_ind_moves_later_values_up() {
    let mut unit = StorageUnit::new();
    unit.insert_many(vec![1u32, 2, 3]);
    assert_eq!(unit.extract_ind(3), Err(out_of_bounds()));
    assert_eq!(unit.extract_ind(0), Ok(1));
    assert_eq!(unit.many(), Ok(&[2u32, 3][..]));
    assert_eq!(unit.extract_ind(1), Ok(3));
    assert_eq!(unit.extract_ind(0), Ok(2));
    assert_eq!(unit.many(), Ok(&[][..]));
    assert_eq!(unit.extract_ind(0), Err(out_of_bounds()));
}

#[test]
fn extract_ind_needs_a_sequence() {
    let mut unit = StorageUnit::<u32>::new();
    assert_eq!(unit.extract_ind(0), Err(not_many()));
    unit.insert(1);
    assert_eq!(unit.extract_ind(0), Err(not_many()));
    assert_eq!(unit.one(), Ok(&1));
}

#[test]
fn index_refusal_tells_the_shapes_apart() {
    let mut unit = StorageUnit::<u32>::new();
    assert_eq!(unit.index_refusal(), not_many());
    unit.insert(1);
    assert_eq!(unit.index_refusal(), not_many());
    unit.insert(2);
    assert_eq!(unit.index_refusal(), out_of_bounds());
}

#[test]
fn clone_copies_each_shape() {
    let mut unit = StorageUnit::<String>::new();
    assert!(matches!(unit.clone(), StorageUnit::Nope));
    unit.insert(String::from("a"));
    let copy = unit.clone();
    assert_eq!(copy.one(), Ok(&String::from("a")));
    unit.insert(String::from("b"));
    let copy = unit.clone();
    assert_eq!(copy.many(), Ok(&[String::from("a"), String::from("b")][..]));
    assert_eq!(unit.many(), Ok(&[String::from("a"), String::from("b")][..]));
}

#[test]
fn unwrap_gives_the_inner_error() {
    let e = ErrorDesc::Inner(Box::new(ErrorDesc::NoAllocatedUnit));
    assert_eq!(e.unwrap(), ErrorDesc::NoAllocatedUnit);
    let e = ErrorDesc::Inner(Box::new(ErrorDesc::Inner(Box::new(not_one()))));
    assert_eq!(e.unwrap().unwrap(), not_one());
}

#[test]
fn take_one_hands_on_the_single_value() {
    let mut unit = StorageUnit::<u32>::new();
    assert_eq!(unit.take_one(), Err(not_one()));
    unit.insert(4);
    assert_eq!(unit.take_one(), Ok(Owned::One(4)));
    assert!(matches!(unit, StorageUnit::Nope));
    unit.insert_many(vec![1, 2]);
    assert_eq!(unit.take_one(), Err(not_one()));
    assert_eq!(unit.many(), Ok(&[1u32, 2][..]));
}

#[test]
fn take_ind_hands_on_one_value_of_the_sequence() {
    let mut unit = StorageUnit::<u32>::new();
    assert_eq!(unit.take_ind(0), Err(not_many()));
    unit.insert_many(vec![1, 2, 3]);
    assert_eq!(unit.take_ind(1), Ok(Owned::One(2)));
    assert_eq!(unit.take_ind(2), Err(out_of_bounds()));
    assert_eq!(unit.many(), Ok(&[1u32, 3][..]));
}

#[test]
fn take_many_hands_on_the_sequence() {
    let mut unit = StorageUnit::<u32>::new();
    assert_eq!(unit.take_many(), Err(not_many()));
    unit.insert(1);
    assert_eq!(unit.take_many(), Err(not_many()));
    unit.insert(2);
    assert_eq!(unit.take_many(), Ok(Owned::Many(vec![1, 2])));
    assert!(matches!(unit, StorageUnit::Nope));
}
