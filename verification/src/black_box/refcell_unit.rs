//! The discipline for a single owner, built on `core::cell::RefCell`.
use crate::black_box::unit::{
    picked_exclusive, picked_shared, DynamicResult, ErrorDesc, Owned, StorageUnit, Unit, UnitError,
};
use core::any::TypeId;
use core::cell::{BorrowError, BorrowMutError, Ref, RefCell, RefMut};
use vstd::prelude::*;

verus! {

/// `core::cell::RefCell`, data with borrows that are counted as the program
/// runs.
#[verifier::external_type_specification]
#[verifier::external_body]
#[verifier::reject_recursive_types(T)]
pub struct ExRefCell<T: ?Sized>(RefCell<T>);

/// `core::cell::Ref`, a shared borrow of a `RefCell`'s data, held until it is
/// dropped.
#[verifier::external_type_specification]
#[verifier::external_body]
#[verifier::reject_recursive_types(T)]
pub struct ExRef<'b, T: ?Sized>(Ref<'b, T>);

/// `core::cell::RefMut`, the exclusive borrow of a `RefCell`'s data, held
/// until it is dropped.
#[verifier::external_type_specification]
#[verifier::external_body]
#[verifier::reject_recursive_types(T)]
pub struct ExRefMut<'b, T: ?Sized + 'b>(RefMut<'b, T>);

/// `core::cell::BorrowError`, the refusal of a shared borrow.
#[verifier::external_type_specification]
#[verifier::external_body]
pub struct ExBorrowError(BorrowError);

/// `core::cell::BorrowMutError`, the refusal of an exclusive borrow.
#[verifier::external_type_specification]
#[verifier::external_body]
pub struct ExBorrowMutError(BorrowMutError);

/// `RefCell::new`: a cell around `value`, not borrowed.
pub assume_specification<T>[ RefCell::<T>::new ](value: T) -> (cell: RefCell<T>);

/// `RefCell::try_borrow`: a shared borrow unless the data is borrowed
/// exclusively at this moment. It does not panic.
pub assume_specification<T: ?Sized>[ RefCell::<T>::try_borrow ](cell: &RefCell<T>) -> (r: Result<
    Ref<'_, T>,
    BorrowError,
>);

/// `RefCell::try_borrow_mut`: the exclusive borrow unless the data is
/// borrowed at this moment. It does not panic.
pub assume_specification<T: ?Sized>[ RefCell::<T>::try_borrow_mut ](cell: &RefCell<T>) -> (r:
    Result<RefMut<'_, T>, BorrowMutError>);

/// `Ref::map`: a borrow of the part of the data that `f` picks; the data
/// stays borrowed. `f` is called once, on the borrowed data.
#[verifier::external_body]
pub(crate) fn ref_map<'b, T, U, F: FnOnce(&T) -> &U>(orig: Ref<'b, T>, f: F) -> (part: Ref<'b, U>)
    requires
        forall|data: &T| call_requires(f, (data,)),
{
    Ref::map(orig, f)
}

/// `Ref::filter_map`: a borrow of the part of the data that `f` picks, or the
/// borrow as it was where `f` picks none; the data stays borrowed. `f` is
/// called once, on the borrowed data, and the result is a borrow of a part
/// exactly where `f` picked one.
pub assume_specification<'b, T: ?Sized, U: ?Sized, F: FnOnce(&T) -> Option<&U>>[ Ref::<
    'b,
    T,
>::filter_map ](orig: Ref<'b, T>, f: F) -> (part: Result<Ref<'b, U>, Ref<'b, T>>)
    requires
        forall|data: &T| call_requires(f, (data,)),
    ensures
        picked_shared(f, part is Ok),
        part matches Err(whole) ==> whole == orig,
;

/// `RefMut::map`: an exclusive borrow of the part of the data that `f`
/// picks; the data stays borrowed. `f` is called once, on the borrowed data.
#[verifier::external_body]
pub(crate) fn ref_mut_map<'b, T, U, F: FnOnce(&mut T) -> &mut U>(orig: RefMut<'b, T>, f: F) -> (part:
    RefMut<'b, U>)
    requires
        forall|data: &mut T| call_requires(f, (data,)),
{
    RefMut::map(orig, f)
}

/// `RefMut::filter_map`: an exclusive borrow of the part of the data that `f`
/// picks, or the borrow as it was where `f` picks none; the data stays
/// borrowed. `f` is called once, on the borrowed data, and the result is a
/// borrow of a part exactly where `f` picked one.
pub assume_specification<'b, T: ?Sized, U: ?Sized, F: FnOnce(&mut T) -> Option<&mut U>>[ RefMut::<
    'b,
    T,
>::filter_map ](orig: RefMut<'b, T>, f: F) -> (part: Result<RefMut<'b, U>, RefMut<'b, T>>)
    requires
        forall|data: &mut T| call_requires(f, (data,)),
    ensures
        picked_exclusive(f, part is Ok),
        part matches Err(whole) ==> whole == orig,
;

/// `Ref`'s `deref`: the borrowed data.
#[verifier::external_body]
fn peek<'a, 'b, T>(guard: &'a Ref<'b, T>) -> (data: &'a T) {
    guard
}

/// `RefMut`'s `deref_mut`: the borrowed data.
#[verifier::external_body]
fn reach<'a, 'b, T>(guard: &'a mut RefMut<'b, T>) -> (data: &'a mut T) {
    guard
}

/// A unit under the exclusive-owner discipline: any number of shared
/// borrows, or one exclusive borrow, counted as the program runs.
///
/// Every operation attempts a borrow of the unit's one cell and fails with
/// `BorrowedIncompatibly` where the cell refuses: a shared borrow is refused
/// while an exclusive one stands; an exclusive borrow, an insertion and an
/// extraction are refused while any borrow stands. A borrow stands until its
/// handle is dropped, whether it is a borrow of the single value or of one
/// place of the sequence.
#[verifier::reject_recursive_types(T)]
pub struct RefCellUnit<T> {
    id: TypeId,
    inner: RefCell<StorageUnit<T>>,
}

impl<T> RefCellUnit<T> {
    /// Whether the unit's cell is what `RefCell::new` gave for `unit`.
    pub closed spec fn made_around(&self, unit: StorageUnit<T>) -> bool {
        call_ensures(RefCell::<StorageUnit<T>>::new, (unit,), self.inner)
    }

    /// A unit of identity `id` whose cell is made around `unit`.
    pub fn new(id: TypeId, unit: StorageUnit<T>) -> (made: Self)
        ensures
            made.spec_id() == id,
            made.made_around(unit),
    {
        RefCellUnit { id, inner: RefCell::new(unit) }
    }

    /// Whether `access` is what an attempt at a shared borrow of the unit's
    /// cell came to: a borrow of the whole storage, or the cell's refusal.
    pub closed spec fn borrow_attempt<'a>(
        &'a self,
        access: Result<Ref<'a, StorageUnit<T>>, BorrowError>,
    ) -> bool {
        call_ensures(RefCell::<StorageUnit<T>>::try_borrow, (&self.inner,), access)
    }

    /// Whether `access` is what an attempt at the exclusive borrow of the
    /// unit's cell came to: a borrow of the whole storage, or the cell's
    /// refusal.
    pub closed spec fn borrow_mut_attempt<'a>(
        &'a self,
        access: Result<RefMut<'a, StorageUnit<T>>, BorrowMutError>,
    ) -> bool {
        call_ensures(RefCell::<StorageUnit<T>>::try_borrow_mut, (&self.inner,), access)
    }
}

impl<'a, T: 'a> Unit<'a> for RefCellUnit<T> {
    type Item = T;

    type Borrowed = Ref<'a, T>;

    type MutBorrowed = RefMut<'a, T>;

    closed spec fn spec_id(&self) -> TypeId {
        self.id
    }

    /// The borrow is refused with `BorrowedIncompatibly` exactly where the
    /// cell refuses a shared borrow. Where the cell grants it, the borrow
    /// succeeds exactly where the storage borrowed answers with a value.
    fn one(&'a self) -> (r: DynamicResult<Ref<'a, T>>)
        ensures
            exists|access: Result<Ref<'a, StorageUnit<T>>, BorrowError>|
                #[trigger] self.borrow_attempt(access) && (access is Err <==> r is Err && r->Err_0
                    == ErrorDesc::BorrowedIncompatibly),
            !(r is Err && r->Err_0 == ErrorDesc::BorrowedIncompatibly) ==> StorageUnit::<
                T,
            >::one_answered(r is Ok),
    {
        let access = self.inner.try_borrow();
        assert(self.borrow_attempt(access));
        match access {
            Err(_) => Err(ErrorDesc::BorrowedIncompatibly),
            Ok(whole) => match Ref::filter_map(
                whole,
                (|unit: &StorageUnit<T>| -> (part: Option<&T>)
                    ensures
                        StorageUnit::<T>::one_answered(part is Some),
                    { unit.one().ok() }),
            ) {
                Ok(part) => Ok(part),
                Err(_) => Err(ErrorDesc::Unit(UnitError::IsNotOne)),
            },
        }
    }

    /// The borrow is refused with `BorrowedIncompatibly` exactly where the
    /// cell refuses the exclusive borrow. Where the cell grants it, the borrow
    /// succeeds exactly where the storage borrowed answers with a value.
    fn one_mut(&'a self) -> (r: DynamicResult<RefMut<'a, T>>)
        ensures
            exists|access: Result<RefMut<'a, StorageUnit<T>>, BorrowMutError>|
                #[trigger] self.borrow_mut_attempt(access) && (access is Err <==> r is Err && r->Err_0
                    == ErrorDesc::BorrowedIncompatibly),
            !(r is Err && r->Err_0 == ErrorDesc::BorrowedIncompatibly) ==> StorageUnit::<
                T,
            >::one_answered(r is Ok),
    {
        let access = self.inner.try_borrow_mut();
        assert(self.borrow_mut_attempt(access));
        match access {
            Err(_) => Err(ErrorDesc::BorrowedIncompatibly),
            Ok(whole) => match RefMut::filter_map(
                whole,
                (|unit: &mut StorageUnit<T>| -> (part: Option<&mut T>)
                    ensures
                        StorageUnit::<T>::one_answered(part is Some),
                    {
                        let single = unit.one().is_ok();
                        unit.one_mut().ok()
                    }),
            ) {
                Ok(part) => Ok(part),
                Err(_) => Err(ErrorDesc::Unit(UnitError::IsNotOne)),
            },
        }
    }

    /// The borrow is refused with `BorrowedIncompatibly` exactly where the
    /// cell refuses a shared borrow. Where the cell grants it, the borrow
    /// succeeds exactly where the storage borrowed answers with a value.
    fn ind(&'a self, ind: usize) -> (r: DynamicResult<Ref<'a, T>>)
        ensures
            exists|access: Result<Ref<'a, StorageUnit<T>>, BorrowError>|
                #[trigger] self.borrow_attempt(access) && (access is Err <==> r is Err && r->Err_0
                    == ErrorDesc::BorrowedIncompatibly),
            !(r is Err && r->Err_0 == ErrorDesc::BorrowedIncompatibly) ==> StorageUnit::<
                T,
            >::ind_answered(ind, r is Ok) && (r is Err ==> StorageUnit::<T>::index_refused(
                r->Err_0,
            )),
    {
        let access = self.inner.try_borrow();
        assert(self.borrow_attempt(access));
        match access {
            Err(_) => Err(ErrorDesc::BorrowedIncompatibly),
            Ok(whole) => match Ref::filter_map(
                whole,
                (|unit: &StorageUnit<T>| -> (part: Option<&T>)
                    ensures
                        StorageUnit::<T>::ind_answered(ind, part is Some),
                    { unit.ind(ind).ok() }),
            ) {
                Ok(part) => Ok(part),
                Err(whole) => Err(peek(&whole).index_refusal()),
            },
        }
    }

    /// The borrow is refused with `BorrowedIncompatibly` exactly where the
    /// cell refuses the exclusive borrow. Where the cell grants it, the borrow
    /// succeeds exactly where the storage borrowed answers with a value.
    fn ind_mut(&'a self, ind: usize) -> (r: DynamicResult<RefMut<'a, T>>)
        ensures
            exists|access: Result<RefMut<'a, StorageUnit<T>>, BorrowMutError>|
                #[trigger] self.borrow_mut_attempt(access) && (access is Err <==> r is Err && r->Err_0
                    == ErrorDesc::BorrowedIncompatibly),
            !(r is Err && r->Err_0 == ErrorDesc::BorrowedIncompatibly) ==> StorageUnit::<
                T,
            >::ind_answered(ind, r is Ok) && (r is Err ==> StorageUnit::<T>::index_refused(
                r->Err_0,
            )),
    {
        let access = self.inner.try_borrow_mut();
        assert(self.borrow_mut_attempt(access));
        match access {
            Err(_) => Err(ErrorDesc::BorrowedIncompatibly),
            Ok(whole) => match RefMut::filter_map(
                whole,
                (|unit: &mut StorageUnit<T>| -> (part: Option<&mut T>)
                    ensures
                        StorageUnit::<T>::ind_answered(ind, part is Some),
                    {
                        let found = unit.ind(ind).is_ok();
                        unit.ind_mut(ind).ok()
                    }),
            ) {
                Ok(part) => Ok(part),
                Err(mut whole) => Err(reach(&mut whole).index_refusal()),
            },
        }
    }

    /// The extraction is refused with `BorrowedIncompatibly` exactly where
    /// the cell refuses the exclusive borrow. Where it is granted, the answer
    /// is the one that the storage's own extraction gives on the storage
    /// borrowed.
    fn extract(&self) -> (r: DynamicResult<Owned<T>>)
        ensures
            exists|access: Result<RefMut<'_, StorageUnit<T>>, BorrowMutError>|
                #[trigger] self.borrow_mut_attempt(access) && (access is Err <==> r is Err && r->Err_0
                    == ErrorDesc::BorrowedIncompatibly),
            !(r is Err && r->Err_0 == ErrorDesc::BorrowedIncompatibly) ==> exists|
                place: &mut StorageUnit<T>,
            | #[trigger] call_ensures(StorageUnit::<T>::take_one, (place,), r),
    {
        let access = self.inner.try_borrow_mut();
        assert(self.borrow_mut_attempt(access));
        match access {
            Err(_) => Err(ErrorDesc::BorrowedIncompatibly),
            Ok(mut whole) => reach(&mut whole).take_one(),
        }
    }

    /// The extraction is refused with `BorrowedIncompatibly` exactly where
    /// the cell refuses the exclusive borrow. Where it is granted, the answer
    /// is the one that the storage's own extraction gives on the storage
    /// borrowed.
    fn extract_ind(&self, ind: usize) -> (r: DynamicResult<Owned<T>>)
        ensures
            exists|access: Result<RefMut<'_, StorageUnit<T>>, BorrowMutError>|
                #[trigger] self.borrow_mut_attempt(access) && (access is Err <==> r is Err && r->Err_0
                    == ErrorDesc::BorrowedIncompatibly),
            !(r is Err && r->Err_0 == ErrorDesc::BorrowedIncompatibly) ==> exists|
                place: &mut StorageUnit<T>,
            | #[trigger] call_ensures(StorageUnit::<T>::take_ind, (place, ind), r),
    {
        let access = self.inner.try_borrow_mut();
        assert(self.borrow_mut_attempt(access));
        match access {
            Err(_) => Err(ErrorDesc::BorrowedIncompatibly),
            Ok(mut whole) => reach(&mut whole).take_ind(ind),
        }
    }

    /// The extraction is refused with `BorrowedIncompatibly` exactly where
    /// the cell refuses the exclusive borrow. Where it is granted, the answer
    /// is the one that the storage's own extraction gives on the storage
    /// borrowed.
    fn extract_many(&self) -> (r: DynamicResult<Owned<T>>)
        ensures
            exists|access: Result<RefMut<'_, StorageUnit<T>>, BorrowMutError>|
                #[trigger] self.borrow_mut_attempt(access) && (access is Err <==> r is Err && r->Err_0
                    == ErrorDesc::BorrowedIncompatibly),
            !(r is Err && r->Err_0 == ErrorDesc::BorrowedIncompatibly) ==> exists|
                place: &mut StorageUnit<T>,
            | #[trigger] call_ensures(StorageUnit::<T>::take_many, (place,), r),
    {
        let access = self.inner.try_borrow_mut();
        assert(self.borrow_mut_attempt(access));
        match access {
            Err(_) => Err(ErrorDesc::BorrowedIncompatibly),
            Ok(mut whole) => reach(&mut whole).take_many(),
        }
    }

    /// The insertion is done exactly where the cell grants the exclusive
    /// borrow, by `StorageUnit::insert_owned` on the storage borrowed; where
    /// it is not done, `new` comes back.
    fn insert_any(&self, new: Owned<T>) -> (r: Option<(Owned<T>, ErrorDesc)>)
        ensures
            exists|access: Result<RefMut<'_, StorageUnit<T>>, BorrowMutError>|
                #[trigger] self.borrow_mut_attempt(access) && (access is Ok <==> r is None),
            r is None ==> exists|place: &mut StorageUnit<T>|
                #[trigger] call_ensures(StorageUnit::<T>::insert_owned, (place, new), ()),
    {
        let access = self.inner.try_borrow_mut();
        assert(self.borrow_mut_attempt(access));
        match access {
            Err(_) => Some((new, ErrorDesc::BorrowedIncompatibly)),
            Ok(mut whole) => {
                reach(&mut whole).insert_owned(new);
                None
            },
        }
    }

    fn id(&self) -> (id: TypeId) {
        self.id
    }
}

} // verus!
