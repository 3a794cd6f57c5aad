use restor::{
    DynamicResult, DynamicStorage, ErrorDesc, MapMut, MapRef, MutexStorage, MutexUnit, Owned,
    RefCellUnit, RwLockStorage, RwLockUnit, StorageUnit, Unit, UnitError,
};
use std::any::TypeId;

fn key<T: 'static>() -> TypeId {
    TypeId::of::<T>()
}

fn refusal<G>(r: DynamicResult<G>) -> Option<ErrorDesc> {
    r.err()
}

#[test]
fn owner_mutable_borrow_shuts_out_every_other() {
    let mut x = DynamicStorage::new();
    x.allocate_for(key::<usize>());
    x.insert(key::<usize>(), 1usize).unwrap();
    let held = x.get_mut(key::<usize>());
    assert!(held.is_ok());
    assert_eq!(refusal(x.get(key::<usize>())), Some(ErrorDesc::BorrowedIncompatibly));
    assert_eq!(refusal(x.get_mut(key::<usize>())), Some(ErrorDesc::BorrowedIncompatibly));
    assert_eq!(x.insert(key::<usize>(), 2), Err((2, ErrorDesc::BorrowedIncompatibly)));
    assert_eq!(x.extract(key::<usize>()), Err(ErrorDesc::BorrowedIncompatibly));
    drop(held);
    assert!(x.get(key::<usize>()).is_ok());
    assert!(x.get_mut(key::<usize>()).is_ok());
}

#[test]
fn owner_shared_borrows_stand_together() {
    let mut x = DynamicStorage::new();
    x.allocate_for(key::<usize>());
    x.insert(key::<usize>(), 1usize).unwrap();
    let a = x.get(key::<usize>()).unwrap();
    let b = x.get(key::<usize>()).unwrap();
    assert_eq!(*a, 1);
    assert_eq!(*b, 1);
    assert_eq!(refusal(x.get_mut(key::<usize>())), Some(ErrorDesc::BorrowedIncompatibly));
    drop(a);
    assert_eq!(refusal(x.get_mut(key::<usize>())), Some(ErrorDesc::BorrowedIncompatibly));
    drop(b);
    *x.get_mut(key::<usize>()).unwrap() = 4;
    assert_eq!(*x.get(key::<usize>()).unwrap(), 4);
}

#[test]
fn owner_index_borrows() {
    let mut x = DynamicStorage::new();
    x.allocate_for(key::<usize>());
    x.insert_many(key::<usize>(), vec![5usize, 6]).unwrap();
    {
        let a = x.ind(key::<usize>(), 0).unwrap();
        let b = x.ind(key::<usize>(), 1).unwrap();
        assert_eq!((*a, *b), (5, 6));
        assert_eq!(refusal(x.ind_mut(key::<usize>(), 1)), Some(ErrorDesc::BorrowedIncompatibly));
    }
    *x.ind_mut(key::<usize>(), 1).unwrap() = 60;
    assert_eq!(*x.ind(key::<usize>(), 1).unwrap(), 60);
    assert_eq!(refusal(x.ind(key::<usize>(), 2)), Some(ErrorDesc::Unit(UnitError::OutOfBounds)));
    assert_eq!(
        refusal(x.ind_mut(key::<usize>(), 2)),
        Some(ErrorDesc::Unit(UnitError::OutOfBounds))
    );
    assert_eq!(refusal(x.get(key::<usize>())), Some(ErrorDesc::Unit(UnitError::IsNotOne)));
    assert_eq!(refusal(x.get_mut(key::<usize>())), Some(ErrorDesc::Unit(UnitError::IsNotOne)));
}

#[test]
fn mutex_admits_one_accessor() {
    let mut x = MutexStorage::new();
    x.allocate_for(key::<usize>());
    x.insert(key::<usize>(), 1usize).unwrap();
    let held = x.get(key::<usize>());
    assert!(held.is_ok());
    assert_eq!(refusal(x.get(key::<usize>())), Some(ErrorDesc::BorrowedIncompatibly));
    assert_eq!(refusal(x.get_mut(key::<usize>())), Some(ErrorDesc::BorrowedIncompatibly));
    assert_eq!(refusal(x.ind(key::<usize>(), 0)), Some(ErrorDesc::BorrowedIncompatibly));
    assert_eq!(x.insert(key::<usize>(), 2), Err((2, ErrorDesc::BorrowedIncompatibly)));
    assert_eq!(
        x.insert_many(key::<usize>(), vec![2, 3]),
        Err((vec![2, 3], ErrorDesc::BorrowedIncompatibly))
    );
    assert_eq!(x.extract(key::<usize>()), Err(ErrorDesc::BorrowedIncompatibly));
    assert_eq!(x.extract_many(key::<usize>()), Err(ErrorDesc::BorrowedIncompatibly));
    drop(held);
    *x.get_mut(key::<usize>()).unwrap() = 8;
    assert_eq!(x.extract(key::<usize>()), Ok(8));
}

#[test]
fn mutex_index_borrows() {
    let mut x = MutexStorage::new();
    x.allocate_for(key::<usize>());
    x.insert_many(key::<usize>(), vec![5usize, 6]).unwrap();
    {
        let mut a = x.ind_mut(key::<usize>(), 0).unwrap();
        assert_eq!(refusal(x.ind_mut(key::<usize>(), 1)), Some(ErrorDesc::BorrowedIncompatibly));
        *a = 50;
    }
    assert_eq!(*x.ind(key::<usize>(), 0).unwrap(), 50);
    assert_eq!(*x.ind(key::<usize>(), 1).unwrap(), 6);
    assert_eq!(refusal(x.ind(key::<usize>(), 2)), Some(ErrorDesc::Unit(UnitError::OutOfBounds)));
    assert_eq!(refusal(x.get(key::<usize>())), Some(ErrorDesc::Unit(UnitError::IsNotOne)));
}

#[test]
fn rwlock_readers_share_and_writer_excludes() {
    let mut x = RwLockStorage::new();
    x.allocate_for(key::<usize>());
    x.insert(key::<usize>(), 1usize).unwrap();
    let a = x.get(key::<usize>()).unwrap();
    let b = x.get(key::<usize>()).unwrap();
    assert_eq!((*a, *b), (1, 1));
    assert_eq!(refusal(x.get_mut(key::<usize>())), Some(ErrorDesc::BorrowedIncompatibly));
    assert_eq!(x.insert(key::<usize>(), 2), Err((2, ErrorDesc::BorrowedIncompatibly)));
    assert_eq!(x.extract(key::<usize>()), Err(ErrorDesc::BorrowedIncompatibly));
    drop(a);
    drop(b);
    let w = x.get_mut(key::<usize>()).unwrap();
    assert_eq!(refusal(x.get(key::<usize>())), Some(ErrorDesc::BorrowedIncompatibly));
    assert_eq!(refusal(x.get_mut(key::<usize>())), Some(ErrorDesc::BorrowedIncompatibly));
    drop(w);
    assert!(x.get(key::<usize>()).is_ok());
}

#[test]
fn rwlock_index_borrows() {
    let mut x = RwLockStorage::new();
    x.allocate_for(key::<usize>());
    x.insert(key::<usize>(), 0usize).unwrap();
    x.insert(key::<usize>(), 1usize).unwrap();
    {
        let a = x.ind(key::<usize>(), 0).unwrap();
        let b = x.ind(key::<usize>(), 1).unwrap();
        let c = x.ind(key::<usize>(), 1).unwrap();
        assert_eq!((*a, *b, *c), (0, 1, 1));
        assert_eq!(refusal(x.ind_mut(key::<usize>(), 0)), Some(ErrorDesc::BorrowedIncompatibly));
    }
    {
        let mut w = x.ind_mut(key::<usize>(), 0).unwrap();
        *w = 10;
        assert_eq!(refusal(x.ind_mut(key::<usize>(), 0)), Some(ErrorDesc::BorrowedIncompatibly));
        assert_eq!(refusal(x.ind(key::<usize>(), 0)), Some(ErrorDesc::BorrowedIncompatibly));
        assert_eq!(*x.ind(key::<usize>(), 1).unwrap(), 1);
        assert_eq!(refusal(x.get_mut(key::<usize>())), Some(ErrorDesc::BorrowedIncompatibly));
    }
    assert_eq!(*x.ind(key::<usize>(), 0).unwrap(), 10);
    assert_eq!(*x.ind(key::<usize>(), 1).unwrap(), 1);
    assert_eq!(refusal(x.ind(key::<usize>(), 2)), Some(ErrorDesc::Unit(UnitError::OutOfBounds)));
    assert_eq!(
        refusal(x.ind_mut(key::<usize>(), 2)),
        Some(ErrorDesc::Unit(UnitError::OutOfBounds))
    );
}

#[test]
fn a_refused_borrow_holds_nothing() {
    let mut x = RwLockStorage::new();
    x.allocate_for(key::<usize>());
    assert!(x.get_mut(key::<usize>()).is_err());
    assert!(x.ind_mut(key::<usize>(), 0).is_err());
    assert!(x.get(key::<usize>()).is_err());
    x.insert(key::<usize>(), 1usize).unwrap();
    assert!(x.ind_mut(key::<usize>(), 0).is_err());
    assert_eq!(*x.get_mut(key::<usize>()).unwrap(), 1);
    let mut y = MutexStorage::new();
    y.allocate_for(key::<usize>());
    assert!(y.get(key::<usize>()).is_err());
    assert!(y.ind(key::<usize>(), 0).is_err());
    y.insert(key::<usize>(), 1usize).unwrap();
    assert_eq!(*y.get(key::<usize>()).unwrap(), 1);
    let mut z = DynamicStorage::new();
    z.allocate_for(key::<usize>());
    assert!(z.get_mut(key::<usize>()).is_err());
    assert!(z.ind_mut(key::<usize>(), 0).is_err());
    z.insert(key::<usize>(), 1usize).unwrap();
    assert_eq!(*z.get_mut(key::<usize>()).unwrap(), 1);
}

#[test]
fn units_on_their_own() {
    let a = RefCellUnit::new(key::<u8>(), StorageUnit::new());
    let b = MutexUnit::new(key::<u16>(), StorageUnit::new());
    let c = RwLockUnit::new(key::<u32>(), StorageUnit::new());
    assert_eq!(a.id(), key::<u8>());
    assert_eq!(b.id(), key::<u16>());
    assert_eq!(c.id(), key::<u32>());
    assert!(a.insert_any(Owned::Many(vec![1u8, 2, 3])).is_none());
    assert!(b.insert_any(Owned::Many(vec![1u16, 2, 3])).is_none());
    assert!(c.insert_any(Owned::Many(vec![1u32, 2, 3])).is_none());
    assert!(matches!(a.extract_ind(1), Ok(Owned::One(2))));
    assert!(matches!(b.extract_ind(1), Ok(Owned::One(2))));
    assert!(matches!(c.extract_ind(1), Ok(Owned::One(2))));
    assert!(matches!(a.extract_ind(2), Err(ErrorDesc::Unit(UnitError::OutOfBounds))));
    assert!(matches!(b.extract_ind(2), Err(ErrorDesc::Unit(UnitError::OutOfBounds))));
    assert!(matches!(c.extract_ind(2), Err(ErrorDesc::Unit(UnitError::OutOfBounds))));
    assert!(matches!(a.extract(), Err(ErrorDesc::Unit(UnitError::IsNotOne))));
    match a.extract_many() {
        Ok(Owned::Many(rest)) => assert_eq!(rest, vec![1, 3]),
        _ => panic!(),
    }
    match b.extract_many() {
        Ok(Owned::Many(rest)) => assert_eq!(rest, vec![1, 3]),
        _ => panic!(),
    }
    match c.extract_many() {
        Ok(Owned::Many(rest)) => assert_eq!(rest, vec![1, 3]),
        _ => panic!(),
    }
    assert!(matches!(c.extract_many(), Err(ErrorDesc::Unit(UnitError::IsNotMany))));
    assert!(matches!(c.extract_ind(0), Err(ErrorDesc::Unit(UnitError::IsNotMany))));
}

#[test]
fn unit_made_around_a_filled_storage() {
    let mut storage = StorageUnit::new();
    storage.insert(3u8);
    let unit = RwLockUnit::new(key::<u8>(), storage);
    assert_eq!(*unit.one().unwrap(), 3);
    let held = unit.one_mut().unwrap();
    match unit.insert_any(Owned::One(4)) {
        Some((Owned::One(4), ErrorDesc::BorrowedIncompatibly)) => {}
        _ => panic!(),
    }
    drop(held);
    assert!(unit.insert_any(Owned::One(4)).is_none());
    assert_eq!(*unit.ind(1).unwrap(), 4);
}

#[test]
fn narrowed_shared_borrow_keeps_the_access() {
    let mut x = RwLockStorage::new();
    x.allocate_for(key::<(u8, String)>());
    x.insert(key::<(u8, String)>(), (1u8, String::from("one"))).unwrap();
    let whole = x.get(key::<(u8, String)>()).unwrap();
    let name = MapRef::map(whole, |pair: &(u8, String)| &pair.1);
    assert_eq!(*name, "one");
    assert!(x.get_mut(key::<(u8, String)>()).is_err());
    drop(name);
    assert!(x.get_mut(key::<(u8, String)>()).is_ok());

    let mut y = DynamicStorage::new();
    y.allocate_for(key::<(u8, String)>());
    y.insert(key::<(u8, String)>(), (2u8, String::from("two"))).unwrap();
    let number = MapRef::map(y.get(key::<(u8, String)>()).unwrap(), |pair: &(u8, String)| &pair.0);
    assert_eq!(*number, 2);
    assert!(y.get_mut(key::<(u8, String)>()).is_err());
    drop(number);
    assert!(y.get_mut(key::<(u8, String)>()).is_ok());
}

#[test]
fn narrowed_exclusive_borrow_writes_through() {
    let mut x = RwLockStorage::new();
    x.allocate_for(key::<(u8, String)>());
    x.insert(key::<(u8, String)>(), (1u8, String::from("one"))).unwrap();
    {
        let whole = x.get_mut(key::<(u8, String)>()).unwrap();
        let mut number = MapMut::map(whole, |pair: &mut (u8, String)| &mut pair.0);
        *number = 9;
        assert!(x.get(key::<(u8, String)>()).is_err());
    }
    assert_eq!(*x.get(key::<(u8, String)>()).unwrap(), (9u8, String::from("one")));

    let mut y = MutexStorage::new();
    y.allocate_for(key::<(u8, String)>());
    y.insert(key::<(u8, String)>(), (1u8, String::from("one"))).unwrap();
    {
        let whole = y.get_mut(key::<(u8, String)>()).unwrap();
        let mut name = MapMut::map(whole, |pair: &mut (u8, String)| &mut pair.1);
        name.push('!');
        assert!(y.get(key::<(u8, String)>()).is_err());
    }
    assert_eq!(*y.get(key::<(u8, String)>()).unwrap(), (1u8, String::from("one!")));

    let mut z = DynamicStorage::new();
    z.allocate_for(key::<(u8, String)>());
    z.insert(key::<(u8, String)>(), (1u8, String::from("one"))).unwrap();
    {
        let whole = z.get_mut(key::<(u8, String)>()).unwrap();
        let mut number = MapMut::map(whole, |pair: &mut (u8, String)| &mut pair.0);
        *number = 7;
        assert!(z.get(key::<(u8, String)>()).is_err());
    }
    assert_eq!(*z.get(key::<(u8, String)>()).unwrap(), (7u8, String::from("one")));
}

#[test]
fn usize_scenario_under_the_rwlock() {
    let mut x = RwLockStorage::new();
    x.allocate_for(key::<usize>());
    x.insert(key::<usize>(), 0usize).unwrap();
    x.insert(key::<usize>(), 1usize).unwrap();
    *x.ind_mut(key::<usize>(), 0).unwrap() = 10;
    assert_eq!(*x.ind(key::<usize>(), 0).unwrap(), 10);
    assert_eq!(*x.ind(key::<usize>(), 1).unwrap(), 1);
    let held = x.ind(key::<usize>(), 1).unwrap();
    assert_eq!(refusal(x.get_mut(key::<usize>())), Some(ErrorDesc::BorrowedIncompatibly));
    drop(held);
    assert_eq!(x.extract_many(key::<usize>()), Ok(vec![10, 1].into_boxed_slice()));
}

#[test]
fn rwlock_exclusive_borrows_at_different_indices_stand_together() {
    let mut x = RwLockStorage::new();
    x.allocate_for(key::<usize>());
    x.insert_many(key::<usize>(), vec![0usize, 1, 2]).unwrap();
    {
        let mut a = x.ind_mut(key::<usize>(), 0).unwrap();
        let mut b = x.ind_mut(key::<usize>(), 1).unwrap();
        let c = x.ind(key::<usize>(), 2).unwrap();
        assert_eq!((*a, *b, *c), (0, 1, 2));
        *a = 10;
        *b = 11;
        assert_eq!((*a, *b), (10, 11));
        assert_eq!(refusal(x.ind_mut(key::<usize>(), 0)), Some(ErrorDesc::BorrowedIncompatibly));
        assert_eq!(refusal(x.ind_mut(key::<usize>(), 1)), Some(ErrorDesc::BorrowedIncompatibly));
        assert_eq!(refusal(x.ind(key::<usize>(), 1)), Some(ErrorDesc::BorrowedIncompatibly));
        assert_eq!(refusal(x.ind_mut(key::<usize>(), 2)), Some(ErrorDesc::BorrowedIncompatibly));
        assert_eq!(*x.ind(key::<usize>(), 2).unwrap(), 2);
        drop(a);
        assert_eq!(*x.ind_mut(key::<usize>(), 0).unwrap(), 10);
    }
    assert_eq!(x.extract_many(key::<usize>()), Ok(vec![10, 11, 2].into_boxed_slice()));
}

#[test]
fn rwlock_whole_unit_operations_conflict_with_an_index_borrow() {
    let mut x = RwLockStorage::new();
    x.allocate_for(key::<usize>());
    x.insert_many(key::<usize>(), vec![0usize, 1]).unwrap();
    let held = x.ind_mut(key::<usize>(), 1).unwrap();
    assert_eq!(refusal(x.get_mut(key::<usize>())), Some(ErrorDesc::BorrowedIncompatibly));
    assert_eq!(x.insert(key::<usize>(), 2), Err((2, ErrorDesc::BorrowedIncompatibly)));
    assert_eq!(
        x.insert_many(key::<usize>(), vec![2, 3]),
        Err((vec![2, 3], ErrorDesc::BorrowedIncompatibly))
    );
    assert_eq!(x.extract(key::<usize>()), Err(ErrorDesc::BorrowedIncompatibly));
    assert_eq!(x.extract_many(key::<usize>()), Err(ErrorDesc::BorrowedIncompatibly));
    let unit = x.unit_get(key::<usize>()).unwrap();
    assert!(matches!(unit.extract_ind(0), Err(ErrorDesc::BorrowedIncompatibly)));
    drop(held);
    let shared = x.ind(key::<usize>(), 0).unwrap();
    assert_eq!(refusal(x.get_mut(key::<usize>())), Some(ErrorDesc::BorrowedIncompatibly));
    assert_eq!(x.insert(key::<usize>(), 2), Err((2, ErrorDesc::BorrowedIncompatibly)));
    drop(shared);
    x.insert(key::<usize>(), 2).unwrap();
    assert_eq!(x.extract_many(key::<usize>()), Ok(vec![0, 1, 2].into_boxed_slice()));
}

#[test]
fn rwlock_exclusive_borrow_of_the_single_value_stands_alone() {
    let mut x = RwLockStorage::new();
    x.allocate_for(key::<usize>());
    x.insert(key::<usize>(), 5usize).unwrap();
    let mut w = x.get_mut(key::<usize>()).unwrap();
    *w = 6;
    assert_eq!(refusal(x.get(key::<usize>())), Some(ErrorDesc::BorrowedIncompatibly));
    assert_eq!(refusal(x.get_mut(key::<usize>())), Some(ErrorDesc::BorrowedIncompatibly));
    assert_eq!(refusal(x.ind(key::<usize>(), 0)), Some(ErrorDesc::BorrowedIncompatibly));
    assert_eq!(x.insert(key::<usize>(), 7), Err((7, ErrorDesc::BorrowedIncompatibly)));
    drop(w);
    assert_eq!(*x.get(key::<usize>()).unwrap(), 6);
}

#[test]
fn rwlock_keeps_order_through_many_insertions_and_extractions() {
    let mut x = RwLockStorage::new();
    x.allocate_for(key::<usize>());
    for i in 0..100usize {
        x.insert(key::<usize>(), i).unwrap();
    }
    for i in 0..100usize {
        assert_eq!(*x.ind(key::<usize>(), i).unwrap(), i);
    }
    assert!(matches!(x.ind(key::<usize>(), 100), Err(ErrorDesc::Unit(UnitError::OutOfBounds))));
    let unit = x.unit_get(key::<usize>()).unwrap();
    assert!(matches!(unit.extract_ind(10), Ok(Owned::One(10))));
    assert!(matches!(unit.extract_ind(0), Ok(Owned::One(0))));
    assert_eq!(*x.ind(key::<usize>(), 0).unwrap(), 1);
    assert_eq!(*x.ind(key::<usize>(), 9).unwrap(), 11);
    x.insert_many(key::<usize>(), vec![200, 201, 202]).unwrap();
    x.insert(key::<usize>(), 203).unwrap();
    let all = x.extract_many(key::<usize>()).unwrap();
    let mut expected: Vec<usize> = (1..100).filter(|i| *i != 10).collect();
    expected.extend([200, 201, 202, 203]);
    assert_eq!(all.into_vec(), expected);
    assert_eq!(x.extract_many(key::<usize>()), Err(ErrorDesc::Unit(UnitError::IsNotMany)));
    x.insert(key::<usize>(), 7).unwrap();
    assert_eq!(*x.get(key::<usize>()).unwrap(), 7);
    assert_eq!(x.extract(key::<usize>()), Ok(7));
    assert_eq!(x.extract(key::<usize>()), Err(ErrorDesc::Unit(UnitError::IsNotOne)));
}

#[test]
fn rwlock_unit_made_around_a_sequence() {
    let mut storage = StorageUnit::new();
    storage.insert_many(vec![String::from("a"), String::from("b"), String::from("c")]);
    let unit = RwLockUnit::new(key::<String>(), storage);
    assert_eq!(*unit.ind(0).unwrap(), "a");
    assert_eq!(*unit.ind(2).unwrap(), "c");
    match unit.extract_many() {
        Ok(Owned::Many(all)) => assert_eq!(all, vec!["a", "b", "c"]),
        _ => panic!(),
    }
    let empty = RwLockUnit::new(key::<u8>(), {
        let mut storage = StorageUnit::new();
        storage.insert_many(Vec::<u8>::new());
        storage
    });
    assert!(matches!(empty.ind(0), Err(ErrorDesc::Unit(UnitError::OutOfBounds))));
    assert!(matches!(empty.one(), Err(ErrorDesc::Unit(UnitError::IsNotOne))));
}

#[test]
fn rwlock_narrowed_index_borrows_stand_together() {
    let mut x = RwLockStorage::new();
    x.allocate_for(key::<(u8, String)>());
    x.insert_many(
        key::<(u8, String)>(),
        vec![(1u8, String::from("one")), (2u8, String::from("two"))],
    )
    .unwrap();
    let first = x.ind_mut(key::<(u8, String)>(), 0).unwrap();
    let mut name = MapMut::map(first, |pair: &mut (u8, String)| &mut pair.1);
    let second = x.ind(key::<(u8, String)>(), 1).unwrap();
    let number = MapRef::map(second, |pair: &(u8, String)| &pair.0);
    name.push('!');
    assert_eq!(*number, 2);
    assert!(x.ind(key::<(u8, String)>(), 0).is_err());
    assert!(x.insert(key::<(u8, String)>(), (3, String::from("three"))).is_err());
    drop(name);
    drop(number);
    assert_eq!(*x.ind(key::<(u8, String)>(), 0).unwrap(), (1u8, String::from("one!")));
}

#[test]
fn rwlock_unit_made_around_many_values() {
    let mut storage = StorageUnit::new();
    storage.insert_many((0..40usize).collect());
    let unit = RwLockUnit::new(key::<usize>(), storage);
    for i in 0..40usize {
        assert_eq!(*unit.ind(i).unwrap(), i);
    }
    assert!(matches!(unit.ind(40), Err(ErrorDesc::Unit(UnitError::OutOfBounds))));
    assert!(unit.insert_any(Owned::One(40)).is_none());
    assert!(unit.insert_any(Owned::Many(vec![41, 42])).is_none());
    assert!(matches!(unit.extract_ind(1), Ok(Owned::One(1))));
    assert!(unit.insert_any(Owned::One(43)).is_none());
    match unit.extract_many() {
        Ok(Owned::Many(all)) => {
            let mut expected: Vec<usize> = (0..43).filter(|i| *i != 1).collect();
            expected.push(43);
            assert_eq!(all, expected);
        }
        _ => panic!(),
    }
    let mut storage = StorageUnit::new();
    storage.insert(String::from("only"));
    let unit = RwLockUnit::new(key::<String>(), storage);
    assert_eq!(*unit.one().unwrap(), "only");
    assert!(matches!(unit.ind(0), Err(ErrorDesc::Unit(UnitError::IsNotMany))));
    assert!(matches!(unit.extract(), Ok(Owned::One(_))));
    assert!(matches!(unit.one(), Err(ErrorDesc::Unit(UnitError::IsNotOne))));
}

#[test]
fn rwlock_refused_insertion_changes_nothing() {
    let unit = RwLockUnit::new(key::<u8>(), StorageUnit::new());
    assert!(unit.insert_any(Owned::Many(vec![1u8, 2, 3])).is_none());
    let held = unit.ind(1).unwrap();
    match unit.insert_any(Owned::Many(vec![4, 5])) {
        Some((Owned::Many(back), ErrorDesc::BorrowedIncompatibly)) => assert_eq!(back, vec![4, 5]),
        _ => panic!(),
    }
    drop(held);
    assert!(unit.insert_any(Owned::Many(vec![4, 5])).is_none());
    match unit.extract_many() {
        Ok(Owned::Many(all)) => assert_eq!(all, vec![1, 2, 3, 4, 5]),
        _ => panic!(),
    }
}

#[test]
fn units_compare_by_identity_and_have_a_text() {
    let a = RefCellUnit::new(key::<u8>(), StorageUnit::<u8>::new());
    let b = RefCellUnit::new(key::<u8>(), StorageUnit::<u8>::new());
    let c = RefCellUnit::new(key::<u16>(), StorageUnit::<u8>::new());
    assert!(a.insert_any(Owned::One(1)).is_none());
    assert!(a.same_as(&b));
    assert!(b.same_as(&a));
    assert!(!a.same_as(&c));
    assert_eq!(a.to_text(), format!("Unit(TypeId: {:?})", key::<u8>()));
    assert_eq!(c.to_text(), format!("Unit(TypeId: {:?})", key::<u16>()));
    assert_ne!(a.to_text(), c.to_text());
    let m = MutexUnit::new(key::<u8>(), StorageUnit::<u8>::new());
    let r = RwLockUnit::new(key::<u8>(), StorageUnit::<u8>::new());
    assert_eq!(m.to_text(), a.to_text());
    assert_eq!(r.to_text(), a.to_text());
    assert!(m.same_as(&m));
    assert!(r.same_as(&r));
}

#[test]
fn mutex_handle_is_narrowed_as_a_shared_one_too() {
    let mut y = MutexStorage::new();
    y.allocate_for(key::<(u8, String)>());
    y.insert(key::<(u8, String)>(), (1u8, String::from("one"))).unwrap();
    {
        let whole = y.get(key::<(u8, String)>()).unwrap();
        let name = MapRef::map(whole, |pair: &mut (u8, String)| &mut pair.1);
        assert_eq!(*name, "one");
        assert!(y.get(key::<(u8, String)>()).is_err());
    }
    assert_eq!(*y.get(key::<(u8, String)>()).unwrap(), (1u8, String::from("one")));
}
