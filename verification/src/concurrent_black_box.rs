//! The two disciplines that are safe to share between threads, both built on
//! the locks of `parking_lot`.
use crate::black_box::unit::{
    picked_exclusive, picked_shared, DynamicResult, ErrorDesc, Multiplicity, Owned, StorageUnit,
    Unit, UnitError,
};
use core::any::TypeId;
use core::ops::{Deref, DerefMut};
use std::sync::OnceLock;
use vstd::arithmetic::power2::{lemma2_to64, lemma2_to64_rest, lemma_pow2_unfold, pow2};
use vstd::prelude::*;

verus! {

/// `parking_lot::RawMutex`, the lock inside a `parking_lot::Mutex`.
#[verifier::external_type_specification]
#[verifier::external_body]
pub struct ExRawMutex(parking_lot::RawMutex);

/// `lock_api::Mutex`, of which `parking_lot::Mutex` is an instance.
#[verifier::external_type_specification]
#[verifier::external_body]
#[verifier::reject_recursive_types(R)]
#[verifier::reject_recursive_types(T)]
pub struct ExMutex<R, T: ?Sized>(parking_lot::lock_api::Mutex<R, T>);

/// Exclusive access to data behind a `parking_lot::Mutex`, held until the
/// guard is dropped: a `parking_lot::MappedMutexGuard`, which may guard the
/// whole of the locked data or a part of it.
#[verifier::external_body]
#[verifier::reject_recursive_types(T)]
pub struct MutexGuard<'a, T> {
    inner: parking_lot::MappedMutexGuard<'a, T>,
}

impl<'a, T> Deref for MutexGuard<'a, T> {
    type Target = T;

    /// `MappedMutexGuard`'s `deref`: the guarded data.
    #[verifier::external_body]
    fn deref(&self) -> (data: &T) {
        &*self.inner
    }
}

impl<'a, T> DerefMut for MutexGuard<'a, T> {
    /// `MappedMutexGuard`'s `deref_mut`: the guarded data.
    #[verifier::external_body]
    fn deref_mut(&mut self) -> (data: &mut T) {
        &mut *self.inner
    }
}

impl<'a, T> MutexGuard<'a, T> {
    /// `MappedMutexGuard::map`: a guard on the part of the data that `f`
    /// picks; the lock stays held. `f` is called once, on the guarded data.
    #[verifier::external_body]
    pub(crate) fn project<O, F: FnOnce(&mut T) -> &mut O>(self, f: F) -> (part: MutexGuard<'a, O>)
        requires
            forall|data: &mut T| call_requires(f, (data,)),
    {
        MutexGuard { inner: parking_lot::MappedMutexGuard::map(self.inner, f) }
    }

    /// `MappedMutexGuard::try_map`: a guard on the part of the data that `f`
    /// picks, or the guard as it was where `f` picks none; the lock stays
    /// held. `f` is called once, on the guarded data, and the result is a
    /// guard exactly where `f` picked a part.
    #[verifier::external_body]
    pub(crate) fn try_map<O, F: FnOnce(&mut T) -> Option<&mut O>>(self, f: F) -> (part: Result<
        MutexGuard<'a, O>,
        MutexGuard<'a, T>,
    >)
        requires
            forall|data: &mut T| call_requires(f, (data,)),
        ensures
            picked_exclusive(f, part is Ok),
            part matches Err(whole) ==> whole == self,
    {
        match parking_lot::MappedMutexGuard::try_map(self.inner, f) {
            Ok(inner) => Ok(MutexGuard { inner }),
            Err(inner) => Err(MutexGuard { inner }),
        }
    }
}

/// `Mutex::new`: an unlocked mutex around `data`.
#[verifier::external_body]
fn mutex_new<T>(data: T) -> (lock: parking_lot::Mutex<T>) {
    parking_lot::Mutex::new(data)
}

/// `Mutex::try_lock`: the lock if it is free at this moment, without
/// blocking. The `MutexGuard` is turned into a mapped guard on the same data
/// by `MutexGuard::map`.
#[verifier::external_body]
fn mutex_try_lock<'a, T>(lock: &'a parking_lot::Mutex<T>) -> (guard: Option<MutexGuard<'a, T>>) {
    match lock.try_lock() {
        Some(guard) => Some(MutexGuard { inner: parking_lot::MutexGuard::map(guard, |data| data) }),
        None => None,
    }
}

/// A unit under the mutual-exclusion discipline: at most one accessor at a
/// time, for reading or for writing.
///
/// Every operation attempts the unit's one mutex and fails with
/// `BorrowedIncompatibly` where it is taken. A borrow keeps the mutex until
/// its handle is dropped, whether it is a borrow of the single value or of
/// one place of the sequence: while one stands, every other operation on the
/// unit is refused, a borrow at another index too.
#[verifier::reject_recursive_types(T)]
pub struct MutexUnit<T> {
    id: TypeId,
    inner: parking_lot::Mutex<StorageUnit<T>>,
}

impl<T> MutexUnit<T> {
    /// Whether the unit's mutex is what `Mutex::new` gave for `unit`.
    pub closed spec fn made_around(&self, unit: StorageUnit<T>) -> bool {
        call_ensures(mutex_new::<StorageUnit<T>>, (unit,), self.inner)
    }

    /// A unit of identity `id` whose mutex is made around `unit`.
    pub fn new(id: TypeId, unit: StorageUnit<T>) -> (made: Self)
        ensures
            made.spec_id() == id,
            made.made_around(unit),
    {
        MutexUnit { id, inner: mutex_new(unit) }
    }

    /// Whether `access` is what an attempt on the unit's mutex came to: a
    /// guard on the whole storage where the mutex was free, nothing where it
    /// was taken.
    pub closed spec fn lock_attempt<'a>(
        &'a self,
        access: Option<MutexGuard<'a, StorageUnit<T>>>,
    ) -> bool {
        call_ensures(mutex_try_lock::<StorageUnit<T>>, (&self.inner,), access)
    }
}

impl<'a, T: 'a> Unit<'a> for MutexUnit<T> {
    type Item = T;

    type Borrowed = MutexGuard<'a, T>;

    type MutBorrowed = MutexGuard<'a, T>;

    closed spec fn spec_id(&self) -> TypeId {
        self.id
    }

    /// The borrow is refused with `BorrowedIncompatibly` exactly where the
    /// mutex is taken. Where it is free, the borrow succeeds exactly where the
    /// storage locked answers with a value.
    fn one(&'a self) -> (r: DynamicResult<MutexGuard<'a, T>>)
        ensures
            exists|access: Option<MutexGuard<'a, StorageUnit<T>>>|
                #[trigger] self.lock_attempt(access) && (access is None <==> r is Err && r->Err_0
                    == ErrorDesc::BorrowedIncompatibly),
            !(r is Err && r->Err_0 == ErrorDesc::BorrowedIncompatibly) ==> StorageUnit::<
                T,
            >::one_answered(r is Ok),
    {
        self.one_mut()
    }

    /// The borrow is refused with `BorrowedIncompatibly` exactly where the
    /// mutex is taken. Where it is free, the borrow succeeds exactly where the
    /// storage locked answers with a value.
    fn one_mut(&'a self) -> (r: DynamicResult<MutexGuard<'a, T>>)
        ensures
            exists|access: Option<MutexGuard<'a, StorageUnit<T>>>|
                #[trigger] self.lock_attempt(access) && (access is None <==> r is Err && r->Err_0
                    == ErrorDesc::BorrowedIncompatibly),
            !(r is Err && r->Err_0 == ErrorDesc::BorrowedIncompatibly) ==> StorageUnit::<
                T,
            >::one_answered(r is Ok),
    {
        let access = mutex_try_lock(&self.inner);
        assert(self.lock_attempt(access));
        match access {
            None => Err(ErrorDesc::BorrowedIncompatibly),
            Some(whole) => match whole.try_map(
                (|unit: &mut StorageUnit<T>| -> (part: Option<&mut T>)
                    ensures
                        StorageUnit::<T>::one_answered(part is Some),
                    {
                        let single = unit.one().is_ok();
                        unit.one_mut().ok()
                    }),
            ) {
                Ok(part) => Ok(part),
                Err(_) => Err(ErrorDesc::Unit(UnitError::IsNotOne)),
            },
        }
    }

    /// The borrow is refused with `BorrowedIncompatibly` exactly where the
    /// mutex is taken. Where it is free, the borrow succeeds exactly where the
    /// storage locked answers with a value.
    fn ind(&'a self, ind: usize) -> (r: DynamicResult<MutexGuard<'a, T>>)
        ensures
            exists|access: Option<MutexGuard<'a, StorageUnit<T>>>|
                #[trigger] self.lock_attempt(access) && (access is None <==> r is Err && r->Err_0
                    == ErrorDesc::BorrowedIncompatibly),
            !(r is Err && r->Err_0 == ErrorDesc::BorrowedIncompatibly) ==> StorageUnit::<
                T,
            >::ind_answered(ind, r is Ok) && (r is Err ==> StorageUnit::<T>::index_refused(
                r->Err_0,
            )),
    {
        self.ind_mut(ind)
    }

    /// The borrow is refused with `BorrowedIncompatibly` exactly where the
    /// mutex is taken. Where it is free, the borrow succeeds exactly where the
    /// storage locked answers with a value.
    fn ind_mut(&'a self, ind: usize) -> (r: DynamicResult<MutexGuard<'a, T>>)
        ensures
            exists|access: Option<MutexGuard<'a, StorageUnit<T>>>|
                #[trigger] self.lock_attempt(access) && (access is None <==> r is Err && r->Err_0
                    == ErrorDesc::BorrowedIncompatibly),
            !(r is Err && r->Err_0 == ErrorDesc::BorrowedIncompatibly) ==> StorageUnit::<
                T,
            >::ind_answered(ind, r is Ok) && (r is Err ==> StorageUnit::<T>::index_refused(
                r->Err_0,
            )),
    {
        let access = mutex_try_lock(&self.inner);
        assert(self.lock_attempt(access));
        match access {
            None => Err(ErrorDesc::BorrowedIncompatibly),
            Some(whole) => match whole.try_map(
                (|unit: &mut StorageUnit<T>| -> (part: Option<&mut T>)
                    ensures
                        StorageUnit::<T>::ind_answered(ind, part is Some),
                    {
                        let found = unit.ind(ind).is_ok();
                        unit.ind_mut(ind).ok()
                    }),
            ) {
                Ok(part) => Ok(part),
                Err(whole) => Err(whole.index_refusal()),
            },
        }
    }

    /// The extraction is refused with `BorrowedIncompatibly` exactly where
    /// the mutex is taken. Where it is free, the answer is the one that the
    /// storage's own extraction gives on the storage locked.
    fn extract(&self) -> (r: DynamicResult<Owned<T>>)
        ensures
            exists|access: Option<MutexGuard<'_, StorageUnit<T>>>|
                #[trigger] self.lock_attempt(access) && (access is None <==> r is Err && r->Err_0
                    == ErrorDesc::BorrowedIncompatibly),
            !(r is Err && r->Err_0 == ErrorDesc::BorrowedIncompatibly) ==> exists|
                place: &mut StorageUnit<T>,
            | #[trigger] call_ensures(StorageUnit::<T>::take_one, (place,), r),
    {
        let access = mutex_try_lock(&self.inner);
        assert(self.lock_attempt(access));
        match access {
            None => Err(ErrorDesc::BorrowedIncompatibly),
            Some(mut whole) => whole.take_one(),
        }
    }

    /// The extraction is refused with `BorrowedIncompatibly` exactly where
    /// the mutex is taken. Where it is free, the answer is the one that the
    /// storage's own extraction gives on the storage locked.
    fn extract_ind(&self, ind: usize) -> (r: DynamicResult<Owned<T>>)
        ensures
            exists|access: Option<MutexGuard<'_, StorageUnit<T>>>|
                #[trigger] self.lock_attempt(access) && (access is None <==> r is Err && r->Err_0
                    == ErrorDesc::BorrowedIncompatibly),
            !(r is Err && r->Err_0 == ErrorDesc::BorrowedIncompatibly) ==> exists|
                place: &mut StorageUnit<T>,
            | #[trigger] call_ensures(StorageUnit::<T>::take_ind, (place, ind), r),
    {
        let access = mutex_try_lock(&self.inner);
        assert(self.lock_attempt(access));
        match access {
            None => Err(ErrorDesc::BorrowedIncompatibly),
            Some(mut whole) => whole.take_ind(ind),
        }
    }

    /// The extraction is refused with `BorrowedIncompatibly` exactly where
    /// the mutex is taken. Where it is free, the answer is the one that the
    /// storage's own extraction gives on the storage locked.
    fn extract_many(&self) -> (r: DynamicResult<Owned<T>>)
        ensures
            exists|access: Option<MutexGuard<'_, StorageUnit<T>>>|
                #[trigger] self.lock_attempt(access) && (access is None <==> r is Err && r->Err_0
                    == ErrorDesc::BorrowedIncompatibly),
            !(r is Err && r->Err_0 == ErrorDesc::BorrowedIncompatibly) ==> exists|
                place: &mut StorageUnit<T>,
            | #[trigger] call_ensures(StorageUnit::<T>::take_many, (place,), r),
    {
        let access = mutex_try_lock(&self.inner);
        assert(self.lock_attempt(access));
        match access {
            None => Err(ErrorDesc::BorrowedIncompatibly),
            Some(mut whole) => whole.take_many(),
        }
    }

    /// The insertion is done exactly where the mutex is free, by
    /// `StorageUnit::insert_owned` on the storage locked; where it is taken,
    /// `new` comes back.
    fn insert_any(&self, new: Owned<T>) -> (r: Option<(Owned<T>, ErrorDesc)>)
        ensures
            exists|access: Option<MutexGuard<'_, StorageUnit<T>>>|
                #[trigger] self.lock_attempt(access) && (access is Some <==> r is None),
            r is None ==> exists|place: &mut StorageUnit<T>|
                #[trigger] call_ensures(StorageUnit::<T>::insert_owned, (place, new), ()),
    {
        let access = mutex_try_lock(&self.inner);
        assert(self.lock_attempt(access));
        match access {
            None => Some((new, ErrorDesc::BorrowedIncompatibly)),
            Some(mut whole) => {
                whole.insert_owned(new);
                None
            },
        }
    }

    fn id(&self) -> (id: TypeId) {
        self.id
    }
}

/// `parking_lot::RawRwLock`, the lock inside a `parking_lot::RwLock`.
#[verifier::external_type_specification]
#[verifier::external_body]
pub struct ExRawRwLock(parking_lot::RawRwLock);

/// `lock_api::RwLock`, of which `parking_lot::RwLock` is an instance.
#[verifier::external_type_specification]
#[verifier::external_body]
#[verifier::reject_recursive_types(R)]
#[verifier::reject_recursive_types(T)]
pub struct ExRwLock<R, T: ?Sized>(parking_lot::lock_api::RwLock<R, T>);

/// Shared access to data behind a `parking_lot::RwLock`, held until the
/// guard is dropped: a `parking_lot::MappedRwLockReadGuard`, which may guard
/// the whole of the locked data or a part of it. A guard on a value of a
/// reader/writer unit has a guard on the unit's layout in its keeping.
#[verifier::external_body]
#[verifier::reject_recursive_types(T)]
pub struct ReadGuard<'a, T> {
    inner: parking_lot::MappedRwLockReadGuard<'a, T>,
    kept: Vec<parking_lot::MappedRwLockReadGuard<'a, Layout>>,
}

impl<'a, T> Deref for ReadGuard<'a, T> {
    type Target = T;

    /// `MappedRwLockReadGuard`'s `deref`: the guarded data.
    #[verifier::external_body]
    fn deref(&self) -> (data: &T) {
        &*self.inner
    }
}

impl<'a, T> ReadGuard<'a, T> {
    /// The guard with the guard `under`, and what that one keeps, added to
    /// its keeping: they are held as long as this guard is, through every
    /// narrowing, and dropped with it. Nothing is locked or unlocked.
    #[verifier::external_body]
    pub(crate) fn keeping(self, under: ReadGuard<'a, Layout>) -> (both: ReadGuard<'a, T>) {
        let mut kept = self.kept;
        kept.reserve(1 + under.kept.len());
        kept.push(under.inner);
        kept.extend(under.kept);
        ReadGuard { inner: self.inner, kept }
    }

    /// `MappedRwLockReadGuard::map`: a guard on the part of the data that `f`
    /// picks; the lock stays held. `f` is called once, on the guarded data.
    #[verifier::external_body]
    pub(crate) fn project<O, F: FnOnce(&T) -> &O>(self, f: F) -> (part: ReadGuard<'a, O>)
        requires
            forall|data: &T| call_requires(f, (data,)),
    {
        ReadGuard { inner: parking_lot::MappedRwLockReadGuard::map(self.inner, f), kept: self.kept }
    }

    /// `MappedRwLockReadGuard::try_map`: a guard on the part of the data that
    /// `f` picks, or the guard as it was where `f` picks none; the lock stays
    /// held. `f` is called once, on the guarded data, and the result is a
    /// guard exactly where `f` picked a part.
    #[verifier::external_body]
    pub(crate) fn try_map<O, F: FnOnce(&T) -> Option<&O>>(self, f: F) -> (part: Result<
        ReadGuard<'a, O>,
        ReadGuard<'a, T>,
    >)
        requires
            forall|data: &T| call_requires(f, (data,)),
        ensures
            picked_shared(f, part is Ok),
            part matches Err(whole) ==> whole == self,
    {
        match parking_lot::MappedRwLockReadGuard::try_map(self.inner, f) {
            Ok(inner) => Ok(ReadGuard { inner, kept: self.kept }),
            Err(inner) => Err(ReadGuard { inner, kept: self.kept }),
        }
    }
}

/// Exclusive access to data behind a `parking_lot::RwLock`, held until the
/// guard is dropped: a `parking_lot::MappedRwLockWriteGuard`, which may
/// guard the whole of the locked data or a part of it. A guard on a value
/// of a reader/writer unit has a guard on the unit's layout in its keeping.
#[verifier::external_body]
#[verifier::reject_recursive_types(T)]
pub struct WriteGuard<'a, T> {
    inner: parking_lot::MappedRwLockWriteGuard<'a, T>,
    kept_shared: Vec<parking_lot::MappedRwLockReadGuard<'a, Layout>>,
    kept_whole: Vec<parking_lot::MappedRwLockWriteGuard<'a, Layout>>,
}

impl<'a, T> Deref for WriteGuard<'a, T> {
    type Target = T;

    /// `MappedRwLockWriteGuard`'s `deref`: the guarded data.
    #[verifier::external_body]
    fn deref(&self) -> (data: &T) {
        &*self.inner
    }
}

impl<'a, T> DerefMut for WriteGuard<'a, T> {
    /// `MappedRwLockWriteGuard`'s `deref_mut`: the guarded data.
    #[verifier::external_body]
    fn deref_mut(&mut self) -> (data: &mut T) {
        &mut *self.inner
    }
}

impl<'a, T> WriteGuard<'a, T> {
    /// The guard with the shared guard `under`, and what that one keeps,
    /// added to its keeping: they are held as long as this guard is, through
    /// every narrowing, and dropped with it. Nothing is locked or unlocked.
    #[verifier::external_body]
    pub(crate) fn keeping_shared(self, under: ReadGuard<'a, Layout>) -> (both: WriteGuard<'a, T>) {
        let mut kept_shared = self.kept_shared;
        kept_shared.push(under.inner);
        kept_shared.extend(under.kept);
        WriteGuard { inner: self.inner, kept_shared, kept_whole: self.kept_whole }
    }

    /// The guard with the exclusive guard `under`, and what that one keeps,
    /// added to its keeping: they are held as long as this guard is, through
    /// every narrowing, and dropped with it. Nothing is locked or unlocked.
    #[verifier::external_body]
    pub(crate) fn keeping_whole(self, under: WriteGuard<'a, Layout>) -> (both: WriteGuard<'a, T>) {
        let (mut kept_shared, mut kept_whole) = (self.kept_shared, self.kept_whole);
        kept_whole.push(under.inner);
        kept_shared.extend(under.kept_shared);
        kept_whole.extend(under.kept_whole);
        WriteGuard { inner: self.inner, kept_shared, kept_whole }
    }

    /// `MappedRwLockWriteGuard::map`: a guard on the part of the data that
    /// `f` picks; the lock stays held. `f` is called once, on the guarded
    /// data.
    #[verifier::external_body]
    pub(crate) fn project<O, F: FnOnce(&mut T) -> &mut O>(self, f: F) -> (part: WriteGuard<'a, O>)
        requires
            forall|data: &mut T| call_requires(f, (data,)),
    {
        WriteGuard {
            inner: parking_lot::MappedRwLockWriteGuard::map(self.inner, f),
            kept_shared: self.kept_shared,
            kept_whole: self.kept_whole,
        }
    }

    /// `MappedRwLockWriteGuard::try_map`: a guard on the part of the data
    /// that `f` picks, or the guard as it was where `f` picks none; the lock
    /// stays held. `f` is called once, on the guarded data, and the result
    /// is a guard exactly where `f` picked a part.
    #[verifier::external_body]
    pub(crate) fn try_map<O, F: FnOnce(&mut T) -> Option<&mut O>>(self, f: F) -> (part: Result<
        WriteGuard<'a, O>,
        WriteGuard<'a, T>,
    >)
        requires
            forall|data: &mut T| call_requires(f, (data,)),
        ensures
            picked_exclusive(f, part is Ok),
            part matches Err(whole) ==> whole == self,
    {
        let (kept_shared, kept_whole) = (self.kept_shared, self.kept_whole);
        match parking_lot::MappedRwLockWriteGuard::try_map(self.inner, f) {
            Ok(inner) => Ok(WriteGuard { inner, kept_shared, kept_whole }),
            Err(inner) => Err(WriteGuard { inner, kept_shared, kept_whole }),
        }
    }
}

/// `RwLock::new`: an unlocked reader/writer lock around `data`.
#[verifier::external_body]
fn rwlock_new<T>(data: T) -> (lock: parking_lot::RwLock<T>) {
    parking_lot::RwLock::new(data)
}

/// `RwLock::try_read`: shared access if it can be granted at this moment,
/// without blocking. The `RwLockReadGuard` is turned into a mapped guard on
/// the same data by `RwLockReadGuard::map`.
#[verifier::external_body]
fn rwlock_try_read<'a, T>(lock: &'a parking_lot::RwLock<T>) -> (guard: Option<ReadGuard<'a, T>>) {
    match lock.try_read() {
        Some(guard) => Some(
            ReadGuard {
                inner: parking_lot::RwLockReadGuard::map(guard, |data| data),
                kept: Vec::new(),
            },
        ),
        None => None,
    }
}

/// `RwLock::try_write`: exclusive access if it can be granted at this
/// moment, without blocking. The `RwLockWriteGuard` is turned into a mapped
/// guard on the same data by `RwLockWriteGuard::map`.
#[verifier::external_body]
fn rwlock_try_write<'a, T>(lock: &'a parking_lot::RwLock<T>) -> (guard: Option<
    WriteGuard<'a, T>,
>) {
    match lock.try_write() {
        Some(guard) => Some(
            WriteGuard {
                inner: parking_lot::RwLockWriteGuard::map(guard, |data| data),
                kept_shared: Vec::new(),
                kept_whole: Vec::new(),
            },
        ),
        None => None,
    }
}

/// `std::sync::OnceLock`, a cell that is filled at most once and can be
/// read through a shared reference.
#[verifier::external_type_specification]
#[verifier::external_body]
#[verifier::reject_recursive_types(T)]
pub struct ExOnceLock<T>(OnceLock<T>);

/// `OnceLock::new`: an empty cell.
pub assume_specification<T>[ OnceLock::<T>::new ]() -> (cell: OnceLock<T>);

/// `OnceLock::get`: what the cell holds, if it was filled.
pub assume_specification<T>[ OnceLock::<T>::get ](cell: &OnceLock<T>) -> (held: Option<&T>);

/// `OnceLock::from`: a cell filled with `content`.
#[verifier::external_body]
fn filled<T>(content: T) -> (cell: OnceLock<T>) {
    OnceLock::from(content)
}

/// How the values of a reader/writer unit are laid out: the multiplicity of
/// the unit over the numbers of the places that hold its values, and the
/// numbers of the places that hold none.
pub struct Layout {
    order: StorageUnit<usize>,
    free: Vec<usize>,
    fresh: usize,
}

impl Layout {
    /// The number of the place that holds the single value, where `which` is
    /// nothing, or the value at the index that `which` gives; or the error
    /// that the multiplicity answers with.
    pub closed spec fn looked_up(self, which: Option<usize>) -> Result<usize, ErrorDesc> {
        match which {
            None => self.order@.one(),
            Some(ind) => self.order@.index(ind as int),
        }
    }

    /// The numbers of the places that hold the sequence, in its order; or
    /// the error that the multiplicity answers with.
    pub closed spec fn sequence(self) -> Result<Seq<usize>, ErrorDesc> {
        self.order@.many()
    }

    /// The numbers of the places that `count` new values are to stand in:
    /// first the numbers that were given back, the last given back first,
    /// then numbers that were never used, in rising order. Where the numbers
    /// run out, the answer is `BorrowedIncompatibly`.
    pub closed spec fn planned(self, count: usize) -> Result<Seq<usize>, ErrorDesc> {
        if count <= self.free@.len() || self.fresh + (count - self.free@.len()) <= usize::MAX {
            Ok(
                Seq::new(
                    count as nat,
                    |i: int|
                        if i < self.free@.len() {
                            self.free@[self.free@.len() - 1 - i]
                        } else {
                            (self.fresh + (i - self.free@.len())) as usize
                        },
                ),
            )
        } else {
            Err(ErrorDesc::BorrowedIncompatibly)
        }
    }

    fn find(&self, which: Option<usize>) -> (found: Result<usize, ErrorDesc>)
        ensures
            found == self.looked_up(which),
    {
        match which {
            None => match self.order.one() {
                Ok(number) => Ok(*number),
                Err(e) => Err(e),
            },
            Some(ind) => match self.order.ind(ind) {
                Ok(number) => Ok(*number),
                Err(e) => Err(e),
            },
        }
    }

    fn numbers(&self) -> (found: Result<Vec<usize>, ErrorDesc>)
        ensures
            match self.sequence() {
                Ok(numbers) => found is Ok && found->Ok_0@ == numbers,
                Err(e) => found == Err::<Vec<usize>, ErrorDesc>(e),
            },
    {
        match self.order.many() {
            Err(e) => Err(e),
            Ok(order) => {
                let mut numbers: Vec<usize> = Vec::new();
                let mut i: usize = 0;
                while i < order.len()
                    invariant
                        i <= order@.len(),
                        numbers@ == order@.take(i as int),
                    decreases order@.len() - i,
                {
                    numbers.push(order[i]);
                    assert(order@.take(i + 1) =~= order@.take(i as int).push(order@[i as int]));
                    i = i + 1;
                }
                assert(order@.take(order@.len() as int) =~= order@);
                Ok(numbers)
            },
        }
    }

    fn plan(&self, count: usize) -> (found: Result<Vec<usize>, ErrorDesc>)
        ensures
            match self.planned(count) {
                Ok(numbers) => found is Ok && found->Ok_0@ == numbers,
                Err(e) => found == Err::<Vec<usize>, ErrorDesc>(e),
            },
    {
        let given_back = self.free.len();
        if count > given_back && count - given_back > usize::MAX - self.fresh {
            return Err(ErrorDesc::BorrowedIncompatibly);
        }
        let mut numbers: Vec<usize> = Vec::new();
        let mut i: usize = 0;
        while i < count
            invariant
                i <= count,
                given_back == self.free@.len(),
                count <= given_back || self.fresh + (count - given_back) <= usize::MAX,
                numbers@.len() == i,
                forall|j: int|
                    0 <= j < i ==> numbers@[j] == self.planned(count)->Ok_0[j],
                self.planned(count) is Ok,
                self.planned(count)->Ok_0.len() == count,
            decreases count - i,
        {
            if i < given_back {
                numbers.push(self.free[given_back - 1 - i]);
            } else {
                numbers.push(self.fresh + (i - given_back));
            }
            i = i + 1;
        }
        assert(numbers@ =~= self.planned(count)->Ok_0);
        Ok(numbers)
    }

    /// Takes the numbers that `plan` named for `count` values out of those
    /// that can be given.
    fn take_planned(&mut self, count: usize)
        ensures
            final(self).order == old(self).order,
            final(self).free@ == old(self).free@.take(
                if count <= old(self).free@.len() {
                    old(self).free@.len() - count
                } else {
                    0
                },
            ),
            final(self).fresh == if count <= old(self).free@.len() {
                old(self).fresh as int
            } else if old(self).planned(count) is Ok {
                old(self).fresh + (count - old(self).free@.len())
            } else {
                usize::MAX as int
            },
    {
        let given_back = self.free.len();
        if count <= given_back {
            self.free.truncate(given_back - count);
        } else {
            self.free.truncate(0);
            let more = count - given_back;
            if more <= usize::MAX - self.fresh {
                self.fresh = self.fresh + more;
            } else {
                self.fresh = usize::MAX;
            }
        }
    }

    /// The layout after the values in the places of `numbers` came in: one
    /// value where `batch` is not set, a batch where it is. The numbers
    /// leave those that can be given, as `plan` named them.
    pub closed spec fn taken_in(self, numbers: Seq<usize>, batch: bool, later: Self) -> bool {
        &&& later.order@ == if batch {
            self.order@.insert_many(numbers)
        } else if numbers.len() > 0 {
            self.order@.insert(numbers[0])
        } else {
            self.order@
        }
        &&& later.free@ == self.free@.take(
            if numbers.len() <= self.free@.len() {
                self.free@.len() - numbers.len()
            } else {
                0
            },
        )
        &&& later.fresh == if numbers.len() <= self.free@.len() {
            self.fresh as int
        } else if self.planned(numbers.len() as usize) is Ok {
            self.fresh + (numbers.len() - self.free@.len())
        } else {
            usize::MAX as int
        }
    }

    /// Takes in the values that were put into the places of `numbers`: one
    /// value where `batch` is not set, a batch where it is.
    pub fn take_in(&mut self, numbers: Vec<usize>, batch: bool)
        ensures
            old(self).taken_in(numbers@, batch, *final(self)),
    {
        self.take_planned(numbers.len());
        if batch {
            self.order.insert_many(numbers);
        } else if numbers.len() > 0 {
            self.order.insert(numbers[0]);
        }
    }

    /// The layout after a value left: the single one where `which` is
    /// nothing, the one at the index that `which` gives else. The number of
    /// its place can be given again.
    pub closed spec fn given_out(self, which: Option<usize>, number: usize, later: Self) -> bool {
        &&& later.order@ == match which {
            None => self.order@.without_one(),
            Some(ind) => self.order@.without_index(ind as int),
        }
        &&& later.free@ == self.free@.push(number)
        &&& later.fresh == self.fresh
    }

    /// Lets the value go that was taken out of the place of `number`: the
    /// single one where `which` is nothing, the one at the index that
    /// `which` gives else.
    pub fn give_out(&mut self, which: Option<usize>, number: usize)
        ensures
            old(self).given_out(which, number, *final(self)),
    {
        match which {
            None => {
                let _ = self.order.extract_one();
            },
            Some(ind) => {
                let _ = self.order.extract_ind(ind);
            },
        }
        self.free.push(number);
    }

    /// The layout after the whole sequence left: nothing is held, and the
    /// numbers of its places can be given again.
    pub closed spec fn given_out_all(self, numbers: Seq<usize>, later: Self) -> bool {
        &&& later.order@ == self.order@.without_many()
        &&& later.free@ == self.free@ + numbers
        &&& later.fresh == self.fresh
    }

    /// Lets the whole sequence go, whose values were taken out of the places
    /// of `numbers`.
    pub fn give_out_all(&mut self, numbers: Vec<usize>)
        ensures
            old(self).given_out_all(numbers@, *final(self)),
    {
        let _ = self.order.extract_many();
        let mut numbers = numbers;
        self.free.append(&mut numbers);
    }
}

/// Puts `value` into a place.
pub fn put<T>(place: &mut Option<T>, value: T)
    ensures
        *final(place) == Some(value),
{
    *place = Some(value);
}

/// Whether `value` was put into some place.
pub open spec fn was_put<T>(value: T) -> bool {
    exists|place: &mut Option<T>| #[trigger] call_ensures(put::<T>, (place, value), ())
}

/// Whether `taken` is what was taken out of some place, which holds nothing
/// since.
pub open spec fn was_taken<T>(taken: Option<T>) -> bool {
    exists|place: &mut Option<T>| #[trigger] call_ensures(Option::<T>::take, (place,), taken)
}

/// Whether each of `taken` is what was taken out of some place.
pub open spec fn all_taken<T>(taken: Seq<Option<T>>) -> bool {
    forall|i: int| 0 <= i < taken.len() ==> #[trigger] was_taken(taken[i])
}

/// The values among `taken`, in their order.
pub open spec fn present<T>(taken: Seq<Option<T>>) -> Seq<T>
    decreases taken.len(),
{
    if taken.len() == 0 {
        Seq::empty()
    } else {
        match taken.last() {
            Some(value) => present(taken.drop_last()).push(value),
            None => present(taken.drop_last()),
        }
    }
}

/// The values among `taken`, in their order.
pub fn present_values<T>(taken: Vec<Option<T>>) -> (values: Vec<T>)
    ensures
        values@ == present(taken@),
{
    let mut taken = taken;
    let ghost given = taken@;
    let mut values: Vec<T> = Vec::new();
    let mut i: usize = 0;
    while i < taken.len()
        invariant
            i <= given.len(),
            taken@.len() == given.len(),
            forall|j: int| i <= j < given.len() ==> taken@[j] == given[j],
            values@ == present(given.take(i as int)),
        decreases given.len() - i,
    {
        let place = &mut taken[i];
        let content = place.take();
        assert(given.take(i + 1).drop_last() =~= given.take(i as int));
        assert(given.take(i + 1).last() == given[i as int]);
        match content {
            Some(value) => {
                values.push(value);
            },
            None => {},
        }
        i = i + 1;
    }
    assert(given.take(given.len() as int) =~= given);
    values
}

/// Whether the place of `number` is the one at `position` in block `block`.
/// Block `b` has `2^b` places, so the blocks before it have `2^b - 1`.
pub open spec fn stands_at(number: usize, block: usize, position: usize) -> bool {
    block < 64 && position < pow2(block as nat) && number == pow2(block as nat) - 1 + position
}

/// Where the place of a number stands: the block, the position in the block,
/// and the length of the block. Every number but the greatest has a place.
fn locate(number: usize) -> (at: Option<(usize, usize, usize)>)
    ensures
        match at {
            Some((block, position, length)) => stands_at(number, block, position) && length
                == pow2(block as nat),
            None => number == usize::MAX,
        },
{
    let mut block: usize = 0;
    let mut length: usize = 1;
    let mut rest: usize = number;
    proof {
        lemma2_to64();
    }
    while block < 64
        invariant
            block <= 64,
            length == pow2(block as nat),
            rest + length - 1 == number,
        decreases 64 - block,
    {
        if rest < length {
            return Some((block, rest, length));
        }
        rest = rest - length;
        block = block + 1;
        if length > usize::MAX / 2 {
            return None;
        }
        proof {
            lemma_pow2_unfold(block as nat);
        }
        length = length * 2;
    }
    proof {
        lemma2_to64();
        lemma2_to64_rest();
    }
    None
}

/// A block of `length` places, none of which holds a value.
fn empty_block<T>(length: usize) -> (block: Vec<parking_lot::RwLock<Option<T>>>)
    ensures
        block@.len() == length,
{
    let mut block = Vec::new();
    let mut i: usize = 0;
    while i < length
        invariant
            i <= length,
            block@.len() == i,
        decreases length - i,
    {
        block.push(rwlock_new(None));
        i = i + 1;
    }
    block
}

/// The multiplicity, in the shape of `held`, of as many numbers as `held`
/// has values, counted from 0.
pub open spec fn numbered<T>(held: Multiplicity<T>) -> Multiplicity<usize> {
    match held {
        Multiplicity::Empty => Multiplicity::Empty,
        Multiplicity::Single(_) => Multiplicity::Single(0),
        Multiplicity::Many(values) => Multiplicity::Many(
            Seq::new(values.len(), |i: int| i as usize),
        ),
    }
}

/// The item of `number`, or nothing where the items end before it.
pub open spec fn content<T>(items: Seq<T>, number: int) -> Option<T> {
    if 0 <= number < items.len() {
        Some(items[number])
    } else {
        None
    }
}

/// A sequence of the numbers from 0 up to `count`.
fn counted(count: usize) -> (order: StorageUnit<usize>)
    ensures
        order@ == Multiplicity::Many(Seq::new(count as nat, |i: int| i as usize)),
{
    let mut numbers: Vec<usize> = Vec::new();
    let mut number: usize = 0;
    while number < count
        invariant
            number <= count,
            numbers@ == Seq::new(number as nat, |i: int| i as usize),
        decreases count - number,
    {
        numbers.push(number);
        assert(numbers@ =~= Seq::new((number + 1) as nat, |i: int| i as usize));
        number = number + 1;
    }
    StorageUnit::Many(numbers)
}

/// The values in the opposite order.
fn reversed<T>(values: Vec<T>) -> (turned: Vec<T>)
    ensures
        turned@.len() == values@.len(),
        forall|j: int| 0 <= j < turned@.len() ==> turned@[j] == values@[values@.len() - 1 - j],
{
    let mut later = values;
    let ghost given = later@;
    let mut turned: Vec<T> = Vec::new();
    while later.len() > 0
        invariant
            turned@.len() + later@.len() == given.len(),
            later@ == given.take(later@.len() as int),
            forall|j: int| 0 <= j < turned@.len() ==> turned@[j] == given[given.len() - 1 - j],
        decreases later@.len(),
    {
        let ghost before = turned@;
        match later.pop() {
            Some(value) => {
                turned.push(value);
            },
            None => {},
        }
        assert(later@ =~= given.take(later@.len() as int));
        assert forall|j: int| 0 <= j < turned@.len() implies turned@[j] == given[given.len() - 1
            - j] by {
            if j < before.len() {
                assert(turned@[j] == before[j]);
            }
        }
    }
    turned
}

/// `OnceLock::get_or_init`, with `empty_block` as the initializer: what the
/// cell holds, after filling it with an empty block of `length` places if it
/// held nothing. The initializer does not touch the cell.
#[verifier::external_body]
fn block_or_new<'a, T>(
    cell: &'a OnceLock<Vec<parking_lot::RwLock<Option<T>>>>,
    length: usize,
) -> (places: &'a Vec<parking_lot::RwLock<Option<T>>>) {
    cell.get_or_init(|| empty_block(length))
}

/// A unit under the reader/writer discipline: any number of readers, or one
/// writer, for the whole unit and for each place of its sequence.
///
/// Each value stands in a place with a lock of its own, and one more lock
/// guards the layout: which places hold the unit's values, and in what
/// order. Every operation attempts the locks it needs without blocking and
/// fails with `BorrowedIncompatibly` where one is denied.
/// - A borrow at an index reads the layout, and reads or writes the place of
///   that index. Borrows at different indices stand together, whatever
///   they are; at the same index shared borrows stand together, and an
///   exclusive borrow shuts out every other.
/// - A shared borrow of the single value reads the layout and the place.
/// - An exclusive borrow of the single value writes the layout: it stands
///   only while no other borrow of the unit does.
/// - An insertion and an extraction write the layout.
/// A borrow keeps its locks until its handle is dropped.
#[verifier::reject_recursive_types(T)]
pub struct RwLockUnit<T> {
    id: TypeId,
    layout: parking_lot::RwLock<Layout>,
    blocks: Vec<OnceLock<Vec<parking_lot::RwLock<Option<T>>>>>,
}

impl<T> RwLockUnit<T> {
    /// Whether `place` is what `RwLock::new` gave for `content`.
    pub closed spec fn place_made(place: parking_lot::RwLock<Option<T>>, content: Option<T>) -> bool {
        call_ensures(rwlock_new::<Option<T>>, (content,), place)
    }

    /// Whether `cell` is block `block` of a unit made around `items`: an
    /// empty cell where no item stands in the block; else a cell filled
    /// with the block's places, each made around the item of its number, or
    /// around nothing where the items end before it.
    pub closed spec fn block_made(cell: OnceLock<Vec<parking_lot::RwLock<Option<T>>>>, block: nat, items: Seq<T>) -> bool {
        if pow2(block) - 1 < items.len() {
            exists|places: Vec<parking_lot::RwLock<Option<T>>>|
                #[trigger] call_ensures(filled::<Vec<parking_lot::RwLock<Option<T>>>>, (places,), cell) && places@.len()
                    == pow2(block) && forall|position: int|
                    0 <= position < pow2(block) ==> Self::place_made(
                        #[trigger] places@[position],
                        content(items, pow2(block) - 1 + position),
                    )
        } else {
            call_ensures(OnceLock::<Vec<parking_lot::RwLock<Option<T>>>>::new, (), cell)
        }
    }

    /// Whether the unit is made around `unit`: its layout holds, in the
    /// shape of `unit`, the numbers from 0 on, and gives numbers from the
    /// count of the values on; the place of number `i` is made around the
    /// value at index `i`.
    pub closed spec fn made_around(&self, unit: StorageUnit<T>) -> bool {
        &&& exists|layout: Layout|
            #[trigger] call_ensures(rwlock_new::<Layout>, (layout,), self.layout) && layout.order@
                == numbered(unit@) && layout.free@ == Seq::<usize>::empty() && layout.fresh
                == unit@.items().len()
        &&& self.blocks@.len() == 64
        &&& forall|block: int|
            0 <= block < 64 ==> Self::block_made(
                #[trigger] self.blocks@[block],
                block as nat,
                unit@.items(),
            )
    }

    /// A unit of identity `id` around the values of `unit`: the value at
    /// index `i` stands in the place of number `i`.
    pub fn new(id: TypeId, unit: StorageUnit<T>) -> (made: Self)
        ensures
            made.spec_id() == id,
            made.made_around(unit),
    {
        let ghost items = unit@.items();
        let ghost shape = unit@;
        let (order, values) = match unit {
            StorageUnit::Nope => (StorageUnit::Nope, Vec::new()),
            StorageUnit::One(value) => {
                let mut values = Vec::new();
                values.push(value);
                (StorageUnit::One(0), values)
            },
            StorageUnit::Many(values) => (counted(values.len()), values),
        };
        assert(values@ =~= items);
        assert(order@ == numbered(shape));
        let count = values.len();
        let mut sooner = reversed(values);
        let mut blocks: Vec<OnceLock<Vec<parking_lot::RwLock<Option<T>>>>> = Vec::new();
        let mut length: usize = 1;
        let mut block: usize = 0;
        proof {
            lemma2_to64();
            lemma2_to64_rest();
        }
        while block < 64
            invariant
                block <= 64,
                count == items.len(),
                blocks@.len() == block,
                sooner@.len() <= count,
                forall|j: int| 0 <= j < sooner@.len() ==> sooner@[j] == items[count - 1 - j],
                sooner@.len() > 0 ==> length == pow2(block as nat) && count - sooner@.len() == pow2(
                    block as nat,
                ) - 1,
                sooner@.len() == 0 ==> count <= pow2(block as nat) - 1,
                forall|b: int|
                    0 <= b < block ==> Self::block_made(#[trigger] blocks@[b], b as nat, items),
            decreases 64 - block,
        {
            let ghost made = blocks@;
            if sooner.len() > 0 {
                let mut places: Vec<parking_lot::RwLock<Option<T>>> = Vec::new();
                let mut position: usize = 0;
                let ghost base = pow2(block as nat) - 1;
                while position < length
                    invariant
                        position <= length,
                        count == items.len(),
                        places@.len() == position,
                        sooner@.len() <= count,
                        forall|j: int| 0 <= j < sooner@.len() ==> sooner@[j] == items[count - 1 - j],
                        sooner@.len() > 0 ==> count - sooner@.len() == base + position,
                        sooner@.len() == 0 ==> count <= base + position,
                        forall|p: int|
                            0 <= p < position ==> Self::place_made(
                                #[trigger] places@[p],
                                content(items, base + p),
                            ),
                    decreases length - position,
                {
                    let ghost before = places@;
                    let held = sooner.pop();
                    assert(held == content(items, base + position));
                    let place = rwlock_new(held);
                    assert(Self::place_made(place, content(items, base + position)));
                    places.push(place);
                    assert forall|p: int| 0 <= p < position + 1 implies Self::place_made(
                        #[trigger] places@[p],
                        content(items, base + p),
                    ) by {
                        if p < position {
                            assert(places@[p] == before[p]);
                        }
                    }
                    position = position + 1;
                }
                let ghost filled_with = places;
                let cell = filled(places);
                assert(Self::block_made(cell, block as nat, items)) by {
                    assert(call_ensures(filled::<Vec<parking_lot::RwLock<Option<T>>>>, (filled_with,), cell));
                }
                blocks.push(cell);
            } else {
                let cell = OnceLock::new();
                assert(Self::block_made(cell, block as nat, items));
                blocks.push(cell);
            }
            assert forall|b: int| 0 <= b < block + 1 implies Self::block_made(
                #[trigger] blocks@[b],
                b as nat,
                items,
            ) by {
                if b < block {
                    assert(blocks@[b] == made[b]);
                }
            }
            proof {
                lemma_pow2_unfold((block + 1) as nat);
            }
            if length <= usize::MAX / 2 {
                length = length * 2;
            }
            block = block + 1;
        }
        let layout = Layout { order, free: Vec::new(), fresh: count };
        let made = RwLockUnit { id, layout: rwlock_new(layout), blocks };
        assert(made.made_around(unit)) by {
            assert(call_ensures(rwlock_new::<Layout>, (layout,), made.layout));
        }
        made
    }

    /// Whether `access` is what an attempt to read the layout came to: a
    /// guard on the layout where its lock granted it, nothing where it did
    /// not.
    pub closed spec fn layout_read<'a>(&'a self, access: Option<ReadGuard<'a, Layout>>) -> bool {
        call_ensures(rwlock_try_read::<Layout>, (&self.layout,), access)
    }

    /// Whether `access` is what an attempt to write the layout came to: a
    /// guard on the layout where its lock granted it, nothing where it did
    /// not.
    pub closed spec fn layout_write<'a>(&'a self, access: Option<WriteGuard<'a, Layout>>) -> bool {
        call_ensures(rwlock_try_write::<Layout>, (&self.layout,), access)
    }

    /// Whether `found` is what a look at the layout behind `layout` came to:
    /// nothing where there is no guard; else the number of the place that
    /// holds the single value, where `which` is nothing, or the value at the
    /// index that `which` gives, or the error that the multiplicity answers
    /// with.
    pub closed spec fn seen_read<'a>(
        layout: Option<ReadGuard<'a, Layout>>,
        which: Option<usize>,
        found: Option<Result<usize, ErrorDesc>>,
    ) -> bool {
        match layout {
            None => found is None,
            Some(under) => exists|seen: &Layout|
                #[trigger] call_ensures(<ReadGuard<'a, Layout> as Deref>::deref, (&under,), seen)
                    && found == Some(seen.looked_up(which)),
        }
    }

    /// Whether `found` is what a look at the layout behind `layout` came to:
    /// nothing where there is no guard; else the number of the place that
    /// holds the single value, where `which` is nothing, or the value at the
    /// index that `which` gives, or the error that the multiplicity answers
    /// with.
    pub closed spec fn seen_write<'a>(
        layout: Option<WriteGuard<'a, Layout>>,
        which: Option<usize>,
        found: Option<Result<usize, ErrorDesc>>,
    ) -> bool {
        match layout {
            None => found is None,
            Some(under) => exists|seen: &Layout|
                #[trigger] call_ensures(<WriteGuard<'a, Layout> as Deref>::deref, (&under,), seen)
                    && found == Some(seen.looked_up(which)),
        }
    }

    /// Whether `access` is what an attempt to read the place that `found`
    /// names came to: nothing where `found` names no place or that place
    /// does not stand; else a guard on what the place holds where its lock
    /// granted it, and no guard where it did not.
    pub closed spec fn place_read<'a>(
        &'a self,
        found: Option<Result<usize, ErrorDesc>>,
        access: Option<Option<ReadGuard<'a, Option<T>>>>,
    ) -> bool {
        match found {
            Some(Ok(number)) => exists|place: Option<&'a parking_lot::RwLock<Option<T>>>|
                #[trigger] call_ensures(Self::place, (self, number, false), place) && match place {
                    None => access is None,
                    Some(place) => access is Some && call_ensures(
                        rwlock_try_read::<Option<T>>,
                        (place,),
                        access->0,
                    ),
                },
            _ => access is None,
        }
    }

    /// Whether `access` is what an attempt to write the place that `found`
    /// names came to: nothing where `found` names no place or that place
    /// does not stand; else a guard on what the place holds where its lock
    /// granted it, and no guard where it did not.
    pub closed spec fn place_write<'a>(
        &'a self,
        found: Option<Result<usize, ErrorDesc>>,
        access: Option<Option<WriteGuard<'a, Option<T>>>>,
    ) -> bool {
        match found {
            Some(Ok(number)) => self.place_tried(number, false, access),
            _ => access is None,
        }
    }

    /// Whether `narrowed` is what narrowing the guard that `access` holds
    /// came to: nothing where `access` holds no guard; else what
    /// `try_map` gave for that guard and `Option::as_ref`, which is a
    /// guard on the value where the place holds one, and the guard as it was
    /// where the place holds none.
    pub closed spec fn value_read<'a>(
        access: Option<Option<ReadGuard<'a, Option<T>>>>,
        narrowed: Option<Result<ReadGuard<'a, T>, ReadGuard<'a, Option<T>>>>,
    ) -> bool {
        match access {
            Some(Some(held)) => narrowed is Some && call_ensures(
                ReadGuard::<'a, Option<T>>::try_map,
                (held, Option::<T>::as_ref),
                narrowed->0,
            ),
            _ => narrowed is None,
        }
    }

    /// Whether `narrowed` is what narrowing the guard that `access` holds
    /// came to: nothing where `access` holds no guard; else what
    /// `try_map` gave for that guard and `Option::as_mut`, which is a
    /// guard on the value where the place holds one, and the guard as it was
    /// where the place holds none.
    pub closed spec fn value_write<'a>(
        access: Option<Option<WriteGuard<'a, Option<T>>>>,
        narrowed: Option<Result<WriteGuard<'a, T>, WriteGuard<'a, Option<T>>>>,
    ) -> bool {
        match access {
            Some(Some(held)) => narrowed is Some && call_ensures(
                WriteGuard::<'a, Option<T>>::try_map,
                (held, Option::<T>::as_mut),
                narrowed->0,
            ),
            _ => narrowed is None,
        }
    }

    /// Whether `taken` is what taking the value out of the place behind the
    /// guard that `access` holds came to: nothing where `access` holds no
    /// guard; else what was taken out of a place.
    pub open spec fn value_taken<'a>(
        access: Option<Option<WriteGuard<'a, Option<T>>>>,
        taken: Option<Option<T>>,
    ) -> bool {
        match access {
            Some(Some(_)) => taken is Some && was_taken(taken->0),
            _ => taken is None,
        }
    }

    /// Whether block `block` was made and `place` stands at `position` in it.
    pub closed spec fn in_block(&self, block: usize, position: usize, place: &parking_lot::RwLock<Option<T>>) -> bool {
        block < self.blocks@.len() && exists|places: &Vec<parking_lot::RwLock<Option<T>>>|
            #[trigger] call_ensures(
                OnceLock::<Vec<parking_lot::RwLock<Option<T>>>>::get,
                (&self.blocks@[block as int],),
                Some(places),
            ) && position < places@.len() && *place == places@[position as int]
    }

    /// Whether block `block` was found not to be made, or too short for
    /// `position`.
    pub closed spec fn not_in_block(&self, block: usize, position: usize) -> bool {
        block >= self.blocks@.len() || exists|held: Option<&Vec<parking_lot::RwLock<Option<T>>>>|
            #[trigger] call_ensures(
                OnceLock::<Vec<parking_lot::RwLock<Option<T>>>>::get,
                (&self.blocks@[block as int],),
                held,
            ) && (held matches Some(places) ==> position >= places@.len())
    }

    /// Whether `place` is what a look for the place of `number` came to: the
    /// place at the number's position in the number's block, or nothing
    /// where the number is the greatest, or its block was found not to be
    /// made or too short.
    pub closed spec fn placed(&self, number: usize, place: Option<&parking_lot::RwLock<Option<T>>>) -> bool {
        match place {
            Some(place) => exists|block: usize, position: usize|
                #[trigger] stands_at(number, block, position) && self.in_block(
                    block,
                    position,
                    place,
                ),
            None => number == usize::MAX || exists|block: usize, position: usize|
                #[trigger] stands_at(number, block, position) && self.not_in_block(
                    block,
                    position,
                ),
        }
    }

    /// The place of a number. Where `make` is set, the number's block is
    /// made first if it was not.
    fn place<'a>(&'a self, number: usize, make: bool) -> (place: Option<&'a parking_lot::RwLock<Option<T>>>)
        ensures
            self.placed(number, place),
    {
        match locate(number) {
            None => None,
            Some((block, position, length)) => if block < self.blocks.len() {
                if make {
                    let _ = block_or_new(&self.blocks[block], length);
                }
                match self.blocks[block].get() {
                    Some(places) => if position < places.len() {
                        let place = &places[position];
                        assert(self.in_block(block, position, place));
                        Some(place)
                    } else {
                        assert(self.not_in_block(block, position));
                        None
                    },
                    None => {
                        assert(self.not_in_block(block, position));
                        None
                    },
                }
            } else {
                assert(self.not_in_block(block, position));
                None
            },
        }
    }

    /// Attempts to read the place of `number`.
    fn read_place<'a>(&'a self, number: usize) -> (access: Option<
        Option<ReadGuard<'a, Option<T>>>,
    >)
        ensures
            self.place_read(Some(Ok(number)), access),
    {
        match self.place(number, false) {
            None => None,
            Some(place) => Some(rwlock_try_read(place)),
        }
    }

    /// Whether `found` is what a look at the sequence behind `layout` came
    /// to: nothing where there is no guard; else the numbers of the places
    /// that hold the sequence, or the error that the multiplicity answers
    /// with.
    pub closed spec fn seen_sequence<'a>(
        layout: Option<WriteGuard<'a, Layout>>,
        found: Option<Result<Seq<usize>, ErrorDesc>>,
    ) -> bool {
        match layout {
            None => found is None,
            Some(under) => exists|seen: &Layout|
                #[trigger] call_ensures(<WriteGuard<'a, Layout> as Deref>::deref, (&under,), seen)
                    && found == Some(seen.sequence()),
        }
    }

    /// Whether `found` is what a look behind `layout` for the places of
    /// `count` new values came to: nothing where there is no guard; else the
    /// numbers planned, or `BorrowedIncompatibly` where the numbers run out.
    pub closed spec fn seen_plan<'a>(
        layout: Option<WriteGuard<'a, Layout>>,
        count: usize,
        found: Option<Result<Seq<usize>, ErrorDesc>>,
    ) -> bool {
        match layout {
            None => found is None,
            Some(under) => exists|seen: &Layout|
                #[trigger] call_ensures(<WriteGuard<'a, Layout> as Deref>::deref, (&under,), seen)
                    && found == Some(seen.planned(count)),
        }
    }

    /// Whether `access` is what an attempt to write the place of `number`
    /// came to, its block made first where `make` is set: nothing where the
    /// place does not stand; else a guard on what the place holds where its
    /// lock granted it, and no guard where it did not.
    pub closed spec fn place_tried<'a>(
        &'a self,
        number: usize,
        make: bool,
        access: Option<Option<WriteGuard<'a, Option<T>>>>,
    ) -> bool {
        exists|place: Option<&'a parking_lot::RwLock<Option<T>>>|
            #[trigger] call_ensures(Self::place, (self, number, make), place) && match place {
                None => access is None,
                Some(place) => access is Some && call_ensures(
                    rwlock_try_write::<Option<T>>,
                    (place,),
                    access->0,
                ),
            }
    }

    /// Whether `granted` and `stop` are what attempts to write the places
    /// that `found` names came to, one place after another until one was
    /// not granted: `granted` holds the guards of the places before that
    /// one, in their order; `stop` is nothing where every place was granted,
    /// and else tells whether the lock of the place denied the write or the
    /// place did not stand. Where `found` names no places, none is
    /// attempted.
    pub closed spec fn places_written<'a>(
        &'a self,
        found: Option<Result<Seq<usize>, ErrorDesc>>,
        make: bool,
        granted: Seq<WriteGuard<'a, Option<T>>>,
        stop: Option<bool>,
    ) -> bool {
        match found {
            Some(Ok(numbers)) => granted.len() <= numbers.len() && (forall|i: int|
                0 <= i < granted.len() ==> #[trigger] self.place_tried(
                    numbers[i],
                    make,
                    Some(Some(granted[i])),
                )) && match stop {
                None => granted.len() == numbers.len(),
                Some(denied) => granted.len() < numbers.len() && self.place_tried(
                    numbers[granted.len() as int],
                    make,
                    if denied {
                        Some(None)
                    } else {
                        None
                    },
                ),
            },
            _ => granted.len() == 0 && stop is None,
        }
    }

    /// Attempts to write the place of `number`, its block made first where
    /// `make` is set.
    fn try_place<'a>(&'a self, number: usize, make: bool) -> (access: Option<
        Option<WriteGuard<'a, Option<T>>>,
    >)
        ensures
            self.place_tried(number, make, access),
    {
        match self.place(number, make) {
            None => None,
            Some(place) => Some(rwlock_try_write(place)),
        }
    }

    /// Attempts to write the places of `numbers`, one after another, until
    /// one is not granted.
    fn write_places<'a>(&'a self, numbers: &Vec<usize>, make: bool) -> (reached: (
        Vec<WriteGuard<'a, Option<T>>>,
        Option<bool>,
    ))
        ensures
            self.places_written(Some(Ok(numbers@)), make, reached.0@, reached.1),
    {
        let mut granted: Vec<WriteGuard<'a, Option<T>>> = Vec::new();
        let mut i: usize = 0;
        while i < numbers.len()
            invariant
                i <= numbers@.len(),
                granted@.len() == i,
                forall|j: int|
                    0 <= j < i ==> #[trigger] self.place_tried(
                        numbers@[j],
                        make,
                        Some(Some(granted@[j])),
                    ),
            decreases numbers@.len() - i,
        {
            match self.try_place(numbers[i], make) {
                None => {
                    return (granted, Some(false));
                },
                Some(None) => {
                    return (granted, Some(true));
                },
                Some(Some(access)) => {
                    granted.push(access);
                },
            }
            i = i + 1;
        }
        (granted, None)
    }

    /// Attempts to read the layout and, where that is granted and the
    /// layout names a place for `which`, to read that place.
    fn reach_to_read<'a>(&'a self, which: Option<usize>) -> (reached: (
        Option<ReadGuard<'a, Layout>>,
        Option<Result<usize, ErrorDesc>>,
        Option<Option<ReadGuard<'a, Option<T>>>>,
    ))
        ensures
            self.layout_read(reached.0),
            Self::seen_read(reached.0, which, reached.1),
            self.place_read(reached.1, reached.2),
    {
        match rwlock_try_read(&self.layout) {
            None => (None, None, None),
            Some(under) => {
                let found = under.deref().find(which);
                let access = match found {
                    Ok(number) => self.read_place(number),
                    Err(_) => None,
                };
                (Some(under), Some(found), access)
            },
        }
    }

    /// Attempts to read the layout and, where that is granted and the
    /// layout names a place for `which`, to write that place.
    fn reach_to_write<'a>(&'a self, which: Option<usize>) -> (reached: (
        Option<ReadGuard<'a, Layout>>,
        Option<Result<usize, ErrorDesc>>,
        Option<Option<WriteGuard<'a, Option<T>>>>,
    ))
        ensures
            self.layout_read(reached.0),
            Self::seen_read(reached.0, which, reached.1),
            self.place_write(reached.1, reached.2),
    {
        match rwlock_try_read(&self.layout) {
            None => (None, None, None),
            Some(under) => {
                let found = under.deref().find(which);
                let access = match found {
                    Ok(number) => self.try_place(number, false),
                    Err(_) => None,
                };
                (Some(under), Some(found), access)
            },
        }
    }

    /// Attempts to write the layout and, where that is granted and the
    /// layout names a place for `which`, to write that place.
    fn reach_to_take<'a>(&'a self, which: Option<usize>) -> (reached: (
        Option<WriteGuard<'a, Layout>>,
        Option<Result<usize, ErrorDesc>>,
        Option<Option<WriteGuard<'a, Option<T>>>>,
    ))
        ensures
            self.layout_write(reached.0),
            Self::seen_write(reached.0, which, reached.1),
            self.place_write(reached.1, reached.2),
    {
        match rwlock_try_write(&self.layout) {
            None => (None, None, None),
            Some(under) => {
                let found = under.deref().find(which);
                let access = match found {
                    Ok(number) => self.try_place(number, false),
                    Err(_) => None,
                };
                (Some(under), Some(found), access)
            },
        }
    }
}

impl<'a, T: 'a> Unit<'a> for RwLockUnit<T> {
    type Item = T;

    type Borrowed = ReadGuard<'a, T>;

    type MutBorrowed = WriteGuard<'a, T>;

    closed spec fn spec_id(&self) -> TypeId {
        self.id
    }

    /// The borrow is refused with `BorrowedIncompatibly` exactly where the
    /// layout's lock denies the read, or the lock of the place that holds
    /// the value denies the read. Where the layout names no place, the
    /// error is the one that the multiplicity answers with. The borrow is
    /// granted exactly where the guard of the place is narrowed to the value.
    fn one(&'a self) -> (r: DynamicResult<ReadGuard<'a, T>>)
        ensures
            exists|
                layout: Option<ReadGuard<'a, Layout>>,
                found: Option<Result<usize, ErrorDesc>>,
                access: Option<Option<ReadGuard<'a, Option<T>>>>,
                narrowed: Option<Result<ReadGuard<'a, T>, ReadGuard<'a, Option<T>>>>,
            |
                #![trigger
                    self.layout_read(layout),
                    Self::seen_read(layout, None, found),
                    self.place_read(found, access),
                    Self::value_read(access, narrowed),
                ]
                self.layout_read(layout) && Self::seen_read(layout, None, found)
                    && self.place_read(found, access) && (found matches Some(Err(e)) ==> r is Err
                    && r->Err_0 == e) && (r is Err && r->Err_0 == ErrorDesc::BorrowedIncompatibly <==>
                layout is None || (access is Some && access->0 is None)) && Self::value_read(
                    access,
                    narrowed,
                ) && (r is Ok <==> narrowed is Some && narrowed->0 is Ok),
    {
        let ghost none: Option<Result<ReadGuard<'a, T>, ReadGuard<'a, Option<T>>>> = None;
        let (layout, found, access) = self.reach_to_read(None);
        let ghost tried = access;
        match (layout, found, access) {
            (Some(under), Some(Ok(_)), Some(Some(held))) => {
                let narrowed = held.try_map(Option::as_ref);
                assert(Self::value_read(tried, Some(narrowed)));
                match narrowed {
                    Ok(part) => Ok(part.keeping(under)),
                    Err(_) => Err(ErrorDesc::Unit(UnitError::IsNotOne)),
                }
            },
            (None, _, _) => {
                assert(Self::value_read(tried, none));
                Err(ErrorDesc::BorrowedIncompatibly)
            },
            (Some(_), Some(Err(e)), _) => {
                assert(Self::value_read(tried, none));
                Err(e)
            },
            (Some(_), _, Some(None)) => {
                assert(Self::value_read(tried, none));
                Err(ErrorDesc::BorrowedIncompatibly)
            },
            _ => {
                assert(Self::value_read(tried, none));
                Err(ErrorDesc::Unit(UnitError::IsNotOne))
            },
        }
    }

    /// The borrow is refused with `BorrowedIncompatibly` exactly where the
    /// layout's lock denies the write, or the lock of the place that holds
    /// the value denies the write. Where the layout names no place, the
    /// error is the one that the multiplicity answers with. The borrow is
    /// granted exactly where the guard of the place is narrowed to the value.
    fn one_mut(&'a self) -> (r: DynamicResult<WriteGuard<'a, T>>)
        ensures
            exists|
                layout: Option<WriteGuard<'a, Layout>>,
                found: Option<Result<usize, ErrorDesc>>,
                access: Option<Option<WriteGuard<'a, Option<T>>>>,
                narrowed: Option<Result<WriteGuard<'a, T>, WriteGuard<'a, Option<T>>>>,
            |
                #![trigger
                    self.layout_write(layout),
                    Self::seen_write(layout, None, found),
                    self.place_write(found, access),
                    Self::value_write(access, narrowed),
                ]
                self.layout_write(layout) && Self::seen_write(layout, None, found)
                    && self.place_write(found, access) && (found matches Some(Err(e)) ==> r is Err
                    && r->Err_0 == e) && (r is Err && r->Err_0 == ErrorDesc::BorrowedIncompatibly <==>
                layout is None || (access is Some && access->0 is None)) && Self::value_write(
                    access,
                    narrowed,
                ) && (r is Ok <==> narrowed is Some && narrowed->0 is Ok),
    {
        let ghost none: Option<Result<WriteGuard<'a, T>, WriteGuard<'a, Option<T>>>> = None;
        let (layout, found, access) = self.reach_to_take(None);
        let ghost tried = access;
        match (layout, found, access) {
            (Some(under), Some(Ok(_)), Some(Some(held))) => {
                let narrowed = held.try_map(Option::as_mut);
                assert(Self::value_write(tried, Some(narrowed)));
                match narrowed {
                    Ok(part) => Ok(part.keeping_whole(under)),
                    Err(_) => Err(ErrorDesc::Unit(UnitError::IsNotOne)),
                }
            },
            (None, _, _) => {
                assert(Self::value_write(tried, none));
                Err(ErrorDesc::BorrowedIncompatibly)
            },
            (Some(_), Some(Err(e)), _) => {
                assert(Self::value_write(tried, none));
                Err(e)
            },
            (Some(_), _, Some(None)) => {
                assert(Self::value_write(tried, none));
                Err(ErrorDesc::BorrowedIncompatibly)
            },
            _ => {
                assert(Self::value_write(tried, none));
                Err(ErrorDesc::Unit(UnitError::IsNotOne))
            },
        }
    }

    /// The borrow is refused with `BorrowedIncompatibly` exactly where the
    /// layout's lock denies the read, or the lock of the place that holds
    /// the value denies the read. Where the layout names no place, the
    /// error is the one that the multiplicity answers with. The borrow is
    /// granted exactly where the guard of the place is narrowed to the value.
    fn ind(&'a self, ind: usize) -> (r: DynamicResult<ReadGuard<'a, T>>)
        ensures
            exists|
                layout: Option<ReadGuard<'a, Layout>>,
                found: Option<Result<usize, ErrorDesc>>,
                access: Option<Option<ReadGuard<'a, Option<T>>>>,
                narrowed: Option<Result<ReadGuard<'a, T>, ReadGuard<'a, Option<T>>>>,
            |
                #![trigger
                    self.layout_read(layout),
                    Self::seen_read(layout, Some(ind), found),
                    self.place_read(found, access),
                    Self::value_read(access, narrowed),
                ]
                self.layout_read(layout) && Self::seen_read(layout, Some(ind), found)
                    && self.place_read(found, access) && (found matches Some(Err(e)) ==> r is Err
                    && r->Err_0 == e) && (r is Err && r->Err_0 == ErrorDesc::BorrowedIncompatibly <==>
                layout is None || (access is Some && access->0 is None)) && Self::value_read(
                    access,
                    narrowed,
                ) && (r is Ok <==> narrowed is Some && narrowed->0 is Ok),
    {
        let ghost none: Option<Result<ReadGuard<'a, T>, ReadGuard<'a, Option<T>>>> = None;
        let (layout, found, access) = self.reach_to_read(Some(ind));
        let ghost tried = access;
        match (layout, found, access) {
            (Some(under), Some(Ok(_)), Some(Some(held))) => {
                let narrowed = held.try_map(Option::as_ref);
                assert(Self::value_read(tried, Some(narrowed)));
                match narrowed {
                    Ok(part) => Ok(part.keeping(under)),
                    Err(_) => Err(ErrorDesc::Unit(UnitError::OutOfBounds)),
                }
            },
            (None, _, _) => {
                assert(Self::value_read(tried, none));
                Err(ErrorDesc::BorrowedIncompatibly)
            },
            (Some(_), Some(Err(e)), _) => {
                assert(Self::value_read(tried, none));
                Err(e)
            },
            (Some(_), _, Some(None)) => {
                assert(Self::value_read(tried, none));
                Err(ErrorDesc::BorrowedIncompatibly)
            },
            _ => {
                assert(Self::value_read(tried, none));
                Err(ErrorDesc::Unit(UnitError::OutOfBounds))
            },
        }
    }

    /// The borrow is refused with `BorrowedIncompatibly` exactly where the
    /// layout's lock denies the read, or the lock of the place that holds
    /// the value denies the write. Where the layout names no place, the
    /// error is the one that the multiplicity answers with. The borrow is
    /// granted exactly where the guard of the place is narrowed to the value.
    fn ind_mut(&'a self, ind: usize) -> (r: DynamicResult<WriteGuard<'a, T>>)
        ensures
            exists|
                layout: Option<ReadGuard<'a, Layout>>,
                found: Option<Result<usize, ErrorDesc>>,
                access: Option<Option<WriteGuard<'a, Option<T>>>>,
                narrowed: Option<Result<WriteGuard<'a, T>, WriteGuard<'a, Option<T>>>>,
            |
                #![trigger
                    self.layout_read(layout),
                    Self::seen_read(layout, Some(ind), found),
                    self.place_write(found, access),
                    Self::value_write(access, narrowed),
                ]
                self.layout_read(layout) && Self::seen_read(layout, Some(ind), found)
                    && self.place_write(found, access) && (found matches Some(Err(e)) ==> r is Err
                    && r->Err_0 == e) && (r is Err && r->Err_0 == ErrorDesc::BorrowedIncompatibly <==>
                layout is None || (access is Some && access->0 is None)) && Self::value_write(
                    access,
                    narrowed,
                ) && (r is Ok <==> narrowed is Some && narrowed->0 is Ok),
    {
        let ghost none: Option<Result<WriteGuard<'a, T>, WriteGuard<'a, Option<T>>>> = None;
        let (layout, found, access) = self.reach_to_write(Some(ind));
        let ghost tried = access;
        match (layout, found, access) {
            (Some(under), Some(Ok(_)), Some(Some(held))) => {
                let narrowed = held.try_map(Option::as_mut);
                assert(Self::value_write(tried, Some(narrowed)));
                match narrowed {
                    Ok(part) => Ok(part.keeping_shared(under)),
                    Err(_) => Err(ErrorDesc::Unit(UnitError::OutOfBounds)),
                }
            },
            (None, _, _) => {
                assert(Self::value_write(tried, none));
                Err(ErrorDesc::BorrowedIncompatibly)
            },
            (Some(_), Some(Err(e)), _) => {
                assert(Self::value_write(tried, none));
                Err(e)
            },
            (Some(_), _, Some(None)) => {
                assert(Self::value_write(tried, none));
                Err(ErrorDesc::BorrowedIncompatibly)
            },
            _ => {
                assert(Self::value_write(tried, none));
                Err(ErrorDesc::Unit(UnitError::OutOfBounds))
            },
        }
    }

    /// The extraction is refused with `BorrowedIncompatibly` exactly where
    /// the layout's lock denies the write, or the lock of the place that
    /// holds the value denies it. Where the layout names no place, the error
    /// is the one that the multiplicity answers with. The extraction succeeds
    /// exactly where the place gives up a value: that value is the answer,
    /// and the layout lets it go.
    fn extract(&self) -> (r: DynamicResult<Owned<T>>)
        ensures
            exists|
                layout: Option<WriteGuard<'_, Layout>>,
                found: Option<Result<usize, ErrorDesc>>,
                access: Option<Option<WriteGuard<'_, Option<T>>>>,
                taken: Option<Option<T>>,
            |
                #![trigger
                    self.layout_write(layout),
                    Self::seen_write(layout, None, found),
                    self.place_write(found, access),
                    Self::value_taken(access, taken),
                ]
                self.layout_write(layout) && Self::seen_write(layout, None, found)
                    && self.place_write(found, access) && Self::value_taken(access, taken) && (
                found matches Some(Err(e)) ==> r is Err && r->Err_0 == e) && (r is Err && r->Err_0
                    == ErrorDesc::BorrowedIncompatibly <==> layout is None || (access is Some
                    && access->0 is None)) && (r is Ok <==> taken is Some && taken->0 is Some) && (
                r is Ok ==> r->Ok_0 == Owned::One(taken->0->0) && exists|inner: &mut Layout|
                    #[trigger] call_ensures(
                        Layout::give_out,
                        (inner, None, found->0->Ok_0),
                        (),
                    )),
    {
        let ghost none: Option<Option<T>> = None;
        let (layout, found, access) = self.reach_to_take(None);
        let ghost tried = access;
        match (layout, found, access) {
            (Some(mut under), Some(Ok(number)), Some(Some(mut held))) => {
                let taken = held.deref_mut().take();
                assert(Self::value_taken(tried, Some(taken)));
                match taken {
                    Some(value) => {
                        under.deref_mut().give_out(None, number);
                        Ok(Owned::One(value))
                    },
                    None => Err(ErrorDesc::Unit(UnitError::IsNotOne)),
                }
            },
            (None, _, _) => {
                assert(Self::value_taken(tried, none));
                Err(ErrorDesc::BorrowedIncompatibly)
            },
            (Some(_), Some(Err(e)), _) => {
                assert(Self::value_taken(tried, none));
                Err(e)
            },
            (Some(_), _, Some(None)) => {
                assert(Self::value_taken(tried, none));
                Err(ErrorDesc::BorrowedIncompatibly)
            },
            _ => {
                assert(Self::value_taken(tried, none));
                Err(ErrorDesc::Unit(UnitError::IsNotOne))
            },
        }
    }

    /// The extraction is refused with `BorrowedIncompatibly` exactly where
    /// the layout's lock denies the write, or the lock of the place that
    /// holds the value denies it. Where the layout names no place, the error
    /// is the one that the multiplicity answers with. The extraction succeeds
    /// exactly where the place gives up a value: that value is the answer,
    /// and the layout lets it go.
    fn extract_ind(&self, ind: usize) -> (r: DynamicResult<Owned<T>>)
        ensures
            exists|
                layout: Option<WriteGuard<'_, Layout>>,
                found: Option<Result<usize, ErrorDesc>>,
                access: Option<Option<WriteGuard<'_, Option<T>>>>,
                taken: Option<Option<T>>,
            |
                #![trigger
                    self.layout_write(layout),
                    Self::seen_write(layout, Some(ind), found),
                    self.place_write(found, access),
                    Self::value_taken(access, taken),
                ]
                self.layout_write(layout) && Self::seen_write(layout, Some(ind), found)
                    && self.place_write(found, access) && Self::value_taken(access, taken) && (
                found matches Some(Err(e)) ==> r is Err && r->Err_0 == e) && (r is Err && r->Err_0
                    == ErrorDesc::BorrowedIncompatibly <==> layout is None || (access is Some
                    && access->0 is None)) && (r is Ok <==> taken is Some && taken->0 is Some) && (
                r is Ok ==> r->Ok_0 == Owned::One(taken->0->0) && exists|inner: &mut Layout|
                    #[trigger] call_ensures(
                        Layout::give_out,
                        (inner, Some(ind), found->0->Ok_0),
                        (),
                    )),
    {
        let ghost none: Option<Option<T>> = None;
        let (layout, found, access) = self.reach_to_take(Some(ind));
        let ghost tried = access;
        match (layout, found, access) {
            (Some(mut under), Some(Ok(number)), Some(Some(mut held))) => {
                let taken = held.deref_mut().take();
                assert(Self::value_taken(tried, Some(taken)));
                match taken {
                    Some(value) => {
                        under.deref_mut().give_out(Some(ind), number);
                        Ok(Owned::One(value))
                    },
                    None => Err(ErrorDesc::Unit(UnitError::OutOfBounds)),
                }
            },
            (None, _, _) => {
                assert(Self::value_taken(tried, none));
                Err(ErrorDesc::BorrowedIncompatibly)
            },
            (Some(_), Some(Err(e)), _) => {
                assert(Self::value_taken(tried, none));
                Err(e)
            },
            (Some(_), _, Some(None)) => {
                assert(Self::value_taken(tried, none));
                Err(ErrorDesc::BorrowedIncompatibly)
            },
            _ => {
                assert(Self::value_taken(tried, none));
                Err(ErrorDesc::Unit(UnitError::OutOfBounds))
            },
        }
    }

    /// The extraction is refused with `BorrowedIncompatibly` exactly where
    /// the layout's lock denies the write, or the lock of a place of the
    /// sequence denies it. Where there is no sequence, the error is the one
    /// that the multiplicity answers with. The extraction succeeds exactly
    /// where every place of the sequence is granted: the answer holds, in
    /// the order of the places, the values that the places gave up, and the
    /// layout lets the sequence go.
    fn extract_many(&self) -> (r: DynamicResult<Owned<T>>)
        ensures
            exists|
                layout: Option<WriteGuard<'_, Layout>>,
                found: Option<Result<Seq<usize>, ErrorDesc>>,
                granted: Seq<WriteGuard<'_, Option<T>>>,
                stop: Option<bool>,
                taken: Seq<Option<T>>,
            |
                #![trigger
                    self.layout_write(layout),
                    Self::seen_sequence(layout, found),
                    self.places_written(found, false, granted, stop),
                    all_taken(taken),
                ]
                self.layout_write(layout) && Self::seen_sequence(layout, found)
                    && self.places_written(found, false, granted, stop) && (found matches Some(
                    Err(e),
                ) ==> r is Err && r->Err_0 == e) && (r is Err && r->Err_0
                    == ErrorDesc::BorrowedIncompatibly <==> layout is None || stop == Some(true))
                    && (r is Ok <==> (found matches Some(Ok(_))) && stop is None) && (r is Ok
                    ==> all_taken(taken) && taken.len() == granted.len() && r->Ok_0 is Many
                    && r->Ok_0->Many_0@ == present(taken) && exists|
                    inner: &mut Layout,
                    numbers: Vec<usize>,
                |
                    #[trigger] call_ensures(Layout::give_out_all, (inner, numbers), ()) && found
                        == Some(Ok::<Seq<usize>, ErrorDesc>(numbers@))),
    {
        let layout = rwlock_try_write(&self.layout);
        let ghost tried = layout;
        let ghost nothing: Seq<Option<T>> = Seq::empty();
        assert(self.layout_write(tried));
        match layout {
            None => {
                assert(Self::seen_sequence(tried, None));
                assert(self.places_written(None, false, Seq::empty(), None));
                assert(all_taken(nothing));
                Err(ErrorDesc::BorrowedIncompatibly)
            },
            Some(mut under) => match under.deref().numbers() {
                Err(e) => {
                    assert(Self::seen_sequence(tried, Some(Err(e))));
                    assert(self.places_written(Some(Err(e)), false, Seq::empty(), None));
                    assert(all_taken(nothing));
                    Err(e)
                },
                Ok(numbers) => {
                    assert(Self::seen_sequence(tried, Some(Ok(numbers@))));
                    let (mut held, stop) = self.write_places(&numbers, false);
                    let ghost found = Some(Ok::<Seq<usize>, ErrorDesc>(numbers@));
                    let ghost granted = held@;
                    assert(self.places_written(found, false, granted, stop));
                    assert(all_taken(nothing));
                    match stop {
                        Some(true) => Err(ErrorDesc::BorrowedIncompatibly),
                        Some(false) => Err(ErrorDesc::Unit(UnitError::IsNotMany)),
                        None => {
                            let mut taken: Vec<Option<T>> = Vec::new();
                            let mut i: usize = 0;
                            while i < held.len()
                                invariant
                                    i <= held@.len(),
                                    held@.len() == granted.len(),
                                    taken@.len() == i,
                                    all_taken(taken@),
                                    self.layout_write(tried),
                                    Self::seen_sequence(tried, found),
                                    self.places_written(found, false, granted, None),
                                decreases held@.len() - i,
                            {
                                let guard = &mut held[i];
                                let content = guard.deref_mut().take();
                                assert(was_taken(content));
                                let ghost before = taken@;
                                taken.push(content);
                                assert forall|j: int| 0 <= j < taken@.len() implies #[trigger] was_taken(
                                    taken@[j],
                                ) by {
                                    if j < before.len() {
                                        assert(was_taken(before[j]));
                                    }
                                }
                                i = i + 1;
                            }
                            let values = present_values(taken);
                            under.deref_mut().give_out_all(numbers);
                            Ok(Owned::Many(values))
                        },
                    }
                },
            },
        }
    }

    /// The insertion is done exactly where the layout's lock grants the
    /// write, the layout has numbers left for the new values, and the place
    /// of each of those numbers stands and is granted: each value is put
    /// into a place, and the layout takes the values in. Where it is not
    /// done, `new` comes back.
    fn insert_any(&self, new: Owned<T>) -> (r: Option<(Owned<T>, ErrorDesc)>)
        ensures
            exists|
                layout: Option<WriteGuard<'_, Layout>>,
                found: Option<Result<Seq<usize>, ErrorDesc>>,
                granted: Seq<WriteGuard<'_, Option<T>>>,
                stop: Option<bool>,
            |
                #![trigger
                    self.layout_write(layout),
                    Self::seen_plan(layout, new.count() as usize, found),
                    self.places_written(found, true, granted, stop),
                ]
                self.layout_write(layout) && Self::seen_plan(layout, new.count() as usize, found)
                    && self.places_written(found, true, granted, stop) && (r is None
                    <==> (found matches Some(Ok(_))) && stop is None) && (r is None ==> (forall|
                    j: int,
                |
                    0 <= j < new.values().len() ==> #[trigger] was_put(new.values()[j])) && exists|
                    inner: &mut Layout,
                    numbers: Vec<usize>,
                |
                    #[trigger] call_ensures(Layout::take_in, (inner, numbers, new is Many), ())
                        && found == Some(Ok::<Seq<usize>, ErrorDesc>(numbers@))),
    {
        let count = new.len();
        let ghost sought = new.count() as usize;
        assert(sought == count);
        let layout = rwlock_try_write(&self.layout);
        let ghost tried = layout;
        assert(self.layout_write(tried));
        match layout {
            None => {
                assert(Self::seen_plan(tried, sought, None));
                assert(self.places_written(None, true, Seq::empty(), None));
                Some((new, ErrorDesc::BorrowedIncompatibly))
            },
            Some(mut under) => match under.deref().plan(count) {
                Err(e) => {
                    assert(Self::seen_plan(tried, sought, Some(Err(e))));
                    assert(self.places_written(Some(Err(e)), true, Seq::empty(), None));
                    Some((new, ErrorDesc::BorrowedIncompatibly))
                },
                Ok(numbers) => {
                    assert(Self::seen_plan(tried, sought, Some(Ok(numbers@))));
                    let (mut held, stop) = self.write_places(&numbers, true);
                    let ghost found = Some(Ok::<Seq<usize>, ErrorDesc>(numbers@));
                    let ghost granted = held@;
                    assert(self.places_written(found, true, granted, stop));
                    match stop {
                        Some(_) => Some((new, ErrorDesc::BorrowedIncompatibly)),
                        None => {
                            let ghost given = new.values();
                            let (mut values, batch) = match new {
                                Owned::One(value) => {
                                    let mut values = Vec::new();
                                    values.push(value);
                                    (values, false)
                                },
                                Owned::Many(values) => (values, true),
                            };
                            assert(values@ =~= given);
                            while values.len() > 0 && held.len() > 0
                                invariant
                                    values@.len() <= given.len(),
                                    values@ == given.take(values@.len() as int),
                                    forall|j: int|
                                        values@.len() <= j < given.len() ==> #[trigger] was_put(
                                            given[j],
                                        ),
                                    held@.len() == values@.len(),
                                    self.layout_write(tried),
                                    Self::seen_plan(tried, sought, found),
                                    self.places_written(found, true, granted, None),
                                decreases values@.len(),
                            {
                                let ghost before = values@;
                                match (held.pop(), values.pop()) {
                                    (Some(mut access), Some(value)) => {
                                        put(access.deref_mut(), value);
                                        assert(was_put(value));
                                        assert(value == given[before.len() - 1]);
                                    },
                                    _ => {},
                                }
                                assert(values@ =~= given.take(values@.len() as int));
                            }
                            under.deref_mut().take_in(numbers, batch);
                            None
                        },
                    }
                },
            },
        }
    }

    fn id(&self) -> (id: TypeId) {
        self.id
    }
}

} // verus!
