use restor::{
    BlackBox, DynamicStorage, ErrorDesc, MutexStorage, RefCellUnit, RwLockStorage, Unit,
    UnitError,
};
use std::any::{Any, TypeId};

fn key<T: 'static>() -> TypeId {
    TypeId::of::<T>()
}

#[test]
fn nothing_is_allocated_at_first() {
    let x = DynamicStorage::<u8>::new();
    assert!(matches!(x.unit_get(key::<u8>()), Err(ErrorDesc::NoAllocatedUnit)));
    assert!(matches!(x.get(key::<u8>()), Err(ErrorDesc::NoAllocatedUnit)));
    assert!(matches!(x.get_mut(key::<u8>()), Err(ErrorDesc::NoAllocatedUnit)));
    assert!(matches!(x.ind(key::<u8>(), 0), Err(ErrorDesc::NoAllocatedUnit)));
    assert!(matches!(x.ind_mut(key::<u8>(), 0), Err(ErrorDesc::NoAllocatedUnit)));
    assert_eq!(x.extract(key::<u8>()), Err(ErrorDesc::NoAllocatedUnit));
    assert_eq!(x.extract_many(key::<u8>()), Err(ErrorDesc::NoAllocatedUnit));
    assert_eq!(x.insert(key::<u8>(), 3), Err((3, ErrorDesc::NoAllocatedUnit)));
    assert_eq!(
        x.insert_many(key::<u8>(), vec![1, 2]),
        Err((vec![1, 2], ErrorDesc::NoAllocatedUnit))
    );
}

#[test]
fn unallocated_identity_fails_under_each_discipline() {
    let mut a = DynamicStorage::<u8>::new();
    let mut b = MutexStorage::<u8>::new();
    let mut c = RwLockStorage::<u8>::new();
    a.allocate_for(key::<u8>());
    b.allocate_for(key::<u8>());
    c.allocate_for(key::<u8>());
    assert_eq!(a.insert(key::<i8>(), 1), Err((1, ErrorDesc::NoAllocatedUnit)));
    assert_eq!(b.insert(key::<i8>(), 1), Err((1, ErrorDesc::NoAllocatedUnit)));
    assert_eq!(c.insert(key::<i8>(), 1), Err((1, ErrorDesc::NoAllocatedUnit)));
    assert!(matches!(a.get(key::<i8>()), Err(ErrorDesc::NoAllocatedUnit)));
    assert!(matches!(b.get(key::<i8>()), Err(ErrorDesc::NoAllocatedUnit)));
    assert!(matches!(c.get(key::<i8>()), Err(ErrorDesc::NoAllocatedUnit)));
    assert!(matches!(a.ind(key::<i8>(), 0), Err(ErrorDesc::NoAllocatedUnit)));
    assert!(matches!(b.ind(key::<i8>(), 0), Err(ErrorDesc::NoAllocatedUnit)));
    assert!(matches!(c.ind(key::<i8>(), 0), Err(ErrorDesc::NoAllocatedUnit)));
    assert_eq!(a.extract(key::<i8>()), Err(ErrorDesc::NoAllocatedUnit));
    assert_eq!(b.extract(key::<i8>()), Err(ErrorDesc::NoAllocatedUnit));
    assert_eq!(c.extract(key::<i8>()), Err(ErrorDesc::NoAllocatedUnit));
}

#[test]
fn allocated_unit_starts_empty() {
    let mut x = RwLockStorage::<u8>::new();
    x.allocate_for(key::<u8>());
    assert!(matches!(x.get(key::<u8>()), Err(ErrorDesc::Unit(UnitError::IsNotOne))));
    assert!(matches!(x.ind(key::<u8>(), 0), Err(ErrorDesc::Unit(UnitError::IsNotMany))));
    assert_eq!(x.extract(key::<u8>()), Err(ErrorDesc::Unit(UnitError::IsNotOne)));
    assert_eq!(x.extract_many(key::<u8>()), Err(ErrorDesc::Unit(UnitError::IsNotMany)));
}

#[test]
fn unit_get_finds_the_unit_of_the_identity() {
    let mut x = DynamicStorage::<u8>::new();
    x.allocate_for(key::<u8>());
    x.allocate_for(key::<u16>());
    x.allocate_for(key::<u32>());
    assert_eq!(x.unit_get(key::<u8>()).unwrap().id(), key::<u8>());
    assert_eq!(x.unit_get(key::<u16>()).unwrap().id(), key::<u16>());
    assert_eq!(x.unit_get(key::<u32>()).unwrap().id(), key::<u32>());
    assert!(x.unit_get(key::<u64>()).is_err());
}

#[test]
fn units_of_different_identities_are_apart() {
    let mut x = RwLockStorage::<u8>::new();
    x.allocate_for(key::<u8>());
    x.allocate_for(key::<i8>());
    x.insert(key::<u8>(), 1).unwrap();
    x.insert(key::<i8>(), 2).unwrap();
    x.insert(key::<i8>(), 3).unwrap();
    assert_eq!(*x.get(key::<u8>()).unwrap(), 1);
    assert_eq!(*x.ind(key::<i8>(), 0).unwrap(), 2);
    assert_eq!(*x.ind(key::<i8>(), 1).unwrap(), 3);
}

#[test]
fn allocating_again_keeps_the_unit() {
    let mut x = RwLockStorage::<u8>::new();
    x.allocate_for(key::<u8>());
    x.insert(key::<u8>(), 5).unwrap();
    x.allocate_for(key::<u8>());
    x.allocate_for(key::<u16>());
    assert_eq!(*x.get(key::<u8>()).unwrap(), 5);
    assert_eq!(x.extract(key::<u8>()), Ok(5));
}

#[test]
fn insert_twice_then_index() {
    let mut x = MutexStorage::<usize>::new();
    x.allocate_for(key::<usize>());
    x.insert(key::<usize>(), 10).unwrap();
    x.insert(key::<usize>(), 11).unwrap();
    assert_eq!(*x.ind(key::<usize>(), 0).unwrap(), 10);
    assert_eq!(*x.ind(key::<usize>(), 1).unwrap(), 11);
    assert!(matches!(x.ind(key::<usize>(), 2), Err(ErrorDesc::Unit(UnitError::OutOfBounds))));
    assert!(matches!(x.get(key::<usize>()), Err(ErrorDesc::Unit(UnitError::IsNotOne))));
    assert_eq!(x.extract_many(key::<usize>()), Ok(vec![10, 11].into_boxed_slice()));
}

#[test]
fn insert_many_then_extract_many() {
    let mut x = DynamicStorage::<char>::new();
    x.allocate_for(key::<char>());
    x.insert(key::<char>(), 'a').unwrap();
    x.insert_many(key::<char>(), vec!['b', 'c']).unwrap();
    assert_eq!(x.extract(key::<char>()), Err(ErrorDesc::Unit(UnitError::IsNotOne)));
    assert_eq!(x.extract_many(key::<char>()), Ok(vec!['a', 'b', 'c'].into_boxed_slice()));
    assert_eq!(x.extract_many(key::<char>()), Err(ErrorDesc::Unit(UnitError::IsNotMany)));
}

#[test]
fn insert_then_extract_round_trip_in_each_store() {
    let mut a = DynamicStorage::<String>::new();
    let mut b = MutexStorage::<String>::new();
    let mut c = RwLockStorage::<String>::new();
    a.allocate_for(key::<String>());
    b.allocate_for(key::<String>());
    c.allocate_for(key::<String>());
    a.insert(key::<String>(), String::from("a")).unwrap();
    b.insert(key::<String>(), String::from("b")).unwrap();
    c.insert(key::<String>(), String::from("c")).unwrap();
    assert_eq!(a.extract(key::<String>()), Ok(String::from("a")));
    assert_eq!(b.extract(key::<String>()), Ok(String::from("b")));
    assert_eq!(c.extract(key::<String>()), Ok(String::from("c")));
    assert_eq!(a.extract(key::<String>()), Err(ErrorDesc::Unit(UnitError::IsNotOne)));
    assert_eq!(b.extract(key::<String>()), Err(ErrorDesc::Unit(UnitError::IsNotOne)));
    assert_eq!(c.extract(key::<String>()), Err(ErrorDesc::Unit(UnitError::IsNotOne)));
}

#[test]
fn values_of_unrelated_types_in_one_store() {
    let mut x: BlackBox<RefCellUnit<Box<dyn Any>>> = BlackBox::new();
    x.allocate_for(key::<u8>());
    x.allocate_for(key::<String>());
    assert!(x.insert(key::<u8>(), Box::new(7u8)).is_ok());
    assert!(x.insert(key::<String>(), Box::new(String::from("seven"))).is_ok());
    assert_eq!(x.get(key::<u8>()).unwrap().downcast_ref::<u8>(), Some(&7));
    assert_eq!(
        x.get(key::<String>()).unwrap().downcast_ref::<String>(),
        Some(&String::from("seven"))
    );
    let back = x.insert(key::<i64>(), Box::new(1i64)).unwrap_err();
    assert_eq!(back.0.downcast_ref::<i64>(), Some(&1));
    assert_eq!(back.1, ErrorDesc::NoAllocatedUnit);
}
