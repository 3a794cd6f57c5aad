pub mod refcell_unit;
pub mod unit;

use crate::black_box::refcell_unit::{ref_map, ref_mut_map, RefCellUnit};
use crate::black_box::unit::{
    into_boxed_slice, refused_index, refused_many, refused_one, same_id, DynamicResult, ErrorDesc,
    Owned, StorageUnit, Unit,
};
use crate::concurrent_black_box::{MutexGuard, MutexUnit, ReadGuard, RwLockUnit, WriteGuard};
use core::cell::{Ref, RefMut};
use core::ops::{Deref, DerefMut};
use core::any::TypeId;
use vstd::prelude::*;

verus! {

/// Whether `part` is what `Ref::map` gave for the borrow `whole` and `f`.
pub closed spec fn ref_narrowed<'a, I, O, F: FnOnce(&I) -> &O>(
    whole: Ref<'a, I>,
    f: F,
    part: Ref<'a, O>,
) -> bool {
    call_ensures(ref_map::<I, O, F>, (whole, f), part)
}

/// Whether `part` is what `RefMut::map` gave for the borrow `whole` and `f`.
pub closed spec fn ref_mut_narrowed<'a, I, O, F: FnOnce(&mut I) -> &mut O>(
    whole: RefMut<'a, I>,
    f: F,
    part: RefMut<'a, O>,
) -> bool {
    call_ensures(ref_mut_map::<I, O, F>, (whole, f), part)
}

/// Whether `part` is what `MappedRwLockReadGuard::map` gave for the guard
/// `whole` and `f`.
pub closed spec fn read_narrowed<'a, I, O, F: FnOnce(&I) -> &O>(
    whole: ReadGuard<'a, I>,
    f: F,
    part: ReadGuard<'a, O>,
) -> bool {
    call_ensures(ReadGuard::<'a, I>::project::<O, F>, (whole, f), part)
}

/// Whether `part` is what `MappedRwLockWriteGuard::map` gave for the guard
/// `whole` and `f`.
pub closed spec fn write_narrowed<'a, I, O, F: FnOnce(&mut I) -> &mut O>(
    whole: WriteGuard<'a, I>,
    f: F,
    part: WriteGuard<'a, O>,
) -> bool {
    call_ensures(WriteGuard::<'a, I>::project::<O, F>, (whole, f), part)
}

/// Whether `part` is what `MappedMutexGuard::map` gave for the guard `whole`
/// and `f`.
pub closed spec fn mutex_narrowed<'a, I, O, F: FnOnce(&mut I) -> &mut O>(
    whole: MutexGuard<'a, I>,
    f: F,
    part: MutexGuard<'a, O>,
) -> bool {
    call_ensures(MutexGuard::<'a, I>::project::<O, F>, (whole, f), part)
}

/// A handle on a shared borrow that can be narrowed to a part of what it
/// guards. The narrowed handle stands in for the one it was made from: the
/// access is neither given up nor asked for again, and ends when the
/// narrowed handle is dropped. Which kind of `f` a handle takes is for the
/// handle to say.
pub trait MapRef<I, O, F>: Deref<Target = I> + Sized {
    type Output: Deref<Target = O>;

    /// Whether `f` can be called on whatever the handle guards.
    spec fn admits(f: F) -> bool;

    /// Whether `part` is what the narrowing of this handle by `f` came to:
    /// the handle and `f` were handed, as they are, to the narrowing that
    /// the handle's own kind offers, and `part` is what it gave.
    spec fn narrowed(self, f: F, part: Self::Output) -> bool;

    /// Narrows the handle to the part that `f` picks.
    fn map(self, f: F) -> (part: Self::Output)
        requires
            Self::admits(f),
        ensures
            self.narrowed(f, part),
    ;
}

impl<'a, I: 'static, O: 'static, F: FnOnce(&I) -> &O> MapRef<I, O, F> for Ref<'a, I> {
    type Output = Ref<'a, O>;

    open spec fn admits(f: F) -> bool {
        forall|data: &I| call_requires(f, (data,))
    }

    closed spec fn narrowed(self, f: F, part: Ref<'a, O>) -> bool {
        ref_narrowed(self, f, part)
    }

    fn map(self, f: F) -> (part: Ref<'a, O>) {
        ref_map(self, f)
    }
}

impl<'a, I: 'static + Sync + Send, O: 'static + Sync + Send, F: FnOnce(&I) -> &O> MapRef<I, O, F> for ReadGuard<'a, I> {
    type Output = ReadGuard<'a, O>;

    open spec fn admits(f: F) -> bool {
        forall|data: &I| call_requires(f, (data,))
    }

    closed spec fn narrowed(self, f: F, part: ReadGuard<'a, O>) -> bool {
        read_narrowed(self, f, part)
    }

    fn map(self, f: F) -> (part: ReadGuard<'a, O>) {
        ReadGuard::project(self, f)
    }
}

/// The one handle of the mutual-exclusion discipline stands for a shared
/// borrow too. It is narrowed as an exclusive one: by an `f` that takes and
/// gives what can be written to.
impl<'a, I: 'static + Sync + Send, O: 'static + Sync + Send, F: FnOnce(&mut I) -> &mut O> MapRef<I, O, F> for MutexGuard<'a, I> {
    type Output = MutexGuard<'a, O>;

    open spec fn admits(f: F) -> bool {
        forall|data: &mut I| call_requires(f, (data,))
    }

    closed spec fn narrowed(self, f: F, part: MutexGuard<'a, O>) -> bool {
        mutex_narrowed(self, f, part)
    }

    fn map(self, f: F) -> (part: MutexGuard<'a, O>) {
        MutexGuard::project(self, f)
    }
}

/// A handle on an exclusive borrow that can be narrowed to a part of what it
/// guards. The narrowed handle stands in for the one it was made from: the
/// access is neither given up nor asked for again, and ends when the
/// narrowed handle is dropped.
pub trait MapMut<I, O, F>: Deref<Target = I> + DerefMut + Sized {
    type Output: Deref<Target = O> + DerefMut;

    /// Whether `f` can be called on whatever the handle guards.
    spec fn admits(f: F) -> bool;

    /// Whether `part` is what the narrowing of this handle by `f` came to:
    /// the handle and `f` were handed, as they are, to the narrowing that
    /// the handle's own kind offers, and `part` is what it gave.
    spec fn narrowed(self, f: F, part: Self::Output) -> bool;

    /// Narrows the handle to the part that `f` picks.
    fn map(self, f: F) -> (part: Self::Output)
        requires
            Self::admits(f),
        ensures
            self.narrowed(f, part),
    ;
}

impl<'a, I: 'static, O: 'static, F: FnOnce(&mut I) -> &mut O> MapMut<I, O, F> for RefMut<'a, I> {
    type Output = RefMut<'a, O>;

    open spec fn admits(f: F) -> bool {
        forall|data: &mut I| call_requires(f, (data,))
    }

    closed spec fn narrowed(self, f: F, part: RefMut<'a, O>) -> bool {
        ref_mut_narrowed(self, f, part)
    }

    fn map(self, f: F) -> (part: RefMut<'a, O>) {
        ref_mut_map(self, f)
    }
}

impl<'a, I: 'static + Sync + Send, O: 'static + Sync + Send, F: FnOnce(&mut I) -> &mut O> MapMut<I, O, F> for WriteGuard<'a, I> {
    type Output = WriteGuard<'a, O>;

    open spec fn admits(f: F) -> bool {
        forall|data: &mut I| call_requires(f, (data,))
    }

    closed spec fn narrowed(self, f: F, part: WriteGuard<'a, O>) -> bool {
        write_narrowed(self, f, part)
    }

    fn map(self, f: F) -> (part: WriteGuard<'a, O>) {
        WriteGuard::project(self, f)
    }
}

impl<'a, I: 'static + Sync + Send, O: 'static + Sync + Send, F: FnOnce(&mut I) -> &mut O> MapMut<I, O, F> for MutexGuard<'a, I> {
    type Output = MutexGuard<'a, O>;

    open spec fn admits(f: F) -> bool {
        forall|data: &mut I| call_requires(f, (data,))
    }

    closed spec fn narrowed(self, f: F, part: MutexGuard<'a, O>) -> bool {
        mutex_narrowed(self, f, part)
    }

    fn map(self, f: F) -> (part: MutexGuard<'a, O>) {
        MutexGuard::project(self, f)
    }
}

/// A registry whose units follow the exclusive-owner discipline.
pub type DynamicStorage<T> = BlackBox<RefCellUnit<T>>;

/// A registry whose units follow the mutual-exclusion discipline.
pub type MutexStorage<T> = BlackBox<MutexUnit<T>>;

/// A registry whose units follow the reader/writer discipline.
pub type RwLockStorage<T> = BlackBox<RwLockUnit<T>>;

/// A registry of units, one for each allocated type identity.
///
/// The units stand in a vector, in the order of their allocation, and the
/// unit of an identity is found by comparing identities one after another.
/// A hash map keyed by `TypeId` would find it faster, but Verus knows
/// nothing of how a `TypeId` is hashed, so that nothing could be proved of
/// what such a map holds after an insertion.
pub struct BlackBox<U: for<'a> Unit<'a>> {
    data: Vec<U>,
}

impl<U: for<'a> Unit<'a>> View for BlackBox<U> {
    type V = Seq<TypeId>;

    /// The allocated type identities, in the order of their allocation.
    open spec fn view(&self) -> Seq<TypeId> {
        Seq::new(self.units().len(), |i: int| self.units()[i].spec_id())
    }
}

impl<U: for<'a> Unit<'a>> BlackBox<U> {
    /// The units, in the order of their allocation.
    pub closed spec fn units(&self) -> Seq<U> {
        self.data@
    }

    /// No type identity has two units.
    #[verifier::type_invariant]
    spec fn one_unit_each(&self) -> bool {
        self@.no_duplicates()
    }

    /// The unit allocated for `id`.
    pub open spec fn unit(&self, id: TypeId) -> U
        recommends
            self@.contains(id),
    {
        self.units()[self@.index_of(id)]
    }

    pub fn new() -> (bx: Self)
        ensures
            bx.units() == Seq::<U>::empty(),
            bx@ == Seq::<TypeId>::empty(),
    {
        BlackBox { data: Vec::new() }
    }

    /// Where the unit for `id` stands, if one was allocated.
    fn position(&self, id: TypeId) -> (at: Option<usize>)
        ensures
            match at {
                Some(i) => i < self@.len() && self@[i as int] == id,
                None => !self@.contains(id),
            },
    {
        let mut i: usize = 0;
        while i < self.data.len()
            invariant
                i <= self.data.len(),
                forall|j: int| 0 <= j < i ==> self@[j] != id,
            decreases self.data.len() - i,
        {
            if same_id(&self.data[i].id(), &id) {
                return Some(i);
            }
            i += 1;
        }
        None
    }

    pub fn unit_get(&self, id: TypeId) -> (r: DynamicResult<&U>)
        ensures
            match r {
                Ok(unit) => self@.contains(id) && *unit == self.unit(id) && unit.spec_id() == id,
                Err(e) => !self@.contains(id) && e == ErrorDesc::NoAllocatedUnit,
            },
            self@.no_duplicates(),
    {
        match self.position(id) {
            Some(i) => {
                proof {
                    use_type_invariant(self);
                    assert(self@.index_of(id) == i);
                }
                Ok(&self.data[i])
            },
            None => {
                proof {
                    use_type_invariant(self);
                }
                Err(ErrorDesc::NoAllocatedUnit)
            },
        }
    }

    /// Borrows the single value stored for `id`.
    ///
    /// An identity without a unit fails with `NoAllocatedUnit`; for any
    /// other, the outcome is the one that its unit's `one` gave.
    pub fn get<'a>(&'a self, id: TypeId) -> (r: DynamicResult<<U as Unit<'a>>::Borrowed>)
        ensures
            self@.contains(id) ==> call_ensures(<U as Unit<'a>>::one, (&self.unit(id),), r),
            match r {
                Ok(_) => self@.contains(id),
                Err(e) => if self@.contains(id) {
                    refused_one(e)
                } else {
                    e == ErrorDesc::NoAllocatedUnit
                },
            },
    {
        match self.unit_get(id) {
            Ok(unit) => unit.one(),
            Err(e) => Err(e),
        }
    }

    /// Borrows the single value stored for `id`, for writing.
    ///
    /// An identity without a unit fails with `NoAllocatedUnit`; for any
    /// other, the outcome is the one that its unit's `one_mut` gave.
    pub fn get_mut<'a>(&'a self, id: TypeId) -> (r: DynamicResult<<U as Unit<'a>>::MutBorrowed>)
        ensures
            self@.contains(id) ==> call_ensures(<U as Unit<'a>>::one_mut, (&self.unit(id),), r),
            match r {
                Ok(_) => self@.contains(id),
                Err(e) => if self@.contains(id) {
                    refused_one(e)
                } else {
                    e == ErrorDesc::NoAllocatedUnit
                },
            },
    {
        match self.unit_get(id) {
            Ok(unit) => unit.one_mut(),
            Err(e) => Err(e),
        }
    }

    /// Borrows the value at position `ind` of the sequence stored for `id`.
    ///
    /// An identity without a unit fails with `NoAllocatedUnit`; for any
    /// other, the outcome is the one that its unit's `ind` gave.
    pub fn ind<'a>(&'a self, id: TypeId, ind: usize) -> (r: DynamicResult<
        <U as Unit<'a>>::Borrowed,
    >)
        ensures
            self@.contains(id) ==> call_ensures(<U as Unit<'a>>::ind, (&self.unit(id), ind), r),
            match r {
                Ok(_) => self@.contains(id),
                Err(e) => if self@.contains(id) {
                    refused_index(e)
                } else {
                    e == ErrorDesc::NoAllocatedUnit
                },
            },
    {
        match self.unit_get(id) {
            Ok(unit) => unit.ind(ind),
            Err(e) => Err(e),
        }
    }

    /// Borrows the value at position `ind` of the sequence stored for `id`,
    /// for writing.
    ///
    /// An identity without a unit fails with `NoAllocatedUnit`; for any
    /// other, the outcome is the one that its unit's `ind_mut` gave.
    pub fn ind_mut<'a>(&'a self, id: TypeId, ind: usize) -> (r: DynamicResult<
        <U as Unit<'a>>::MutBorrowed,
    >)
        ensures
            self@.contains(id) ==> call_ensures(
                <U as Unit<'a>>::ind_mut,
                (&self.unit(id), ind),
                r,
            ),
            match r {
                Ok(_) => self@.contains(id),
                Err(e) => if self@.contains(id) {
                    refused_index(e)
                } else {
                    e == ErrorDesc::NoAllocatedUnit
                },
            },
    {
        match self.unit_get(id) {
            Ok(unit) => unit.ind_mut(ind),
            Err(e) => Err(e),
        }
    }

    /// What an allocation for `id` makes of the registry: `id` is added
    /// behind the identities that stand unless it is among them, so that it
    /// has a unit afterwards; no identity has two units, and every unit that
    /// stood stands unchanged.
    pub open spec fn grown_by(self, id: TypeId, later: Self) -> bool {
        &&& later@ == if self@.contains(id) {
            self@
        } else {
            self@.push(id)
        }
        &&& later@.contains(id)
        &&& self.units().is_prefix_of(later.units())
        &&& later@.no_duplicates()
        &&& forall|other: TypeId| #[trigger]
            self@.contains(other) ==> later.unit(other) == self.unit(other)
    }

    /// On an identity without a unit, a borrow, whichever it is, answers
    /// `NoAllocatedUnit`.
    pub proof fn no_unit_no_borrow<'a>(
        &'a self,
        id: TypeId,
        ind: usize,
        shared: DynamicResult<<U as Unit<'a>>::Borrowed>,
        exclusive: DynamicResult<<U as Unit<'a>>::MutBorrowed>,
    )
        requires
            !self@.contains(id),
            call_ensures(Self::get, (self, id), shared) || call_ensures(
                Self::ind,
                (self, id, ind),
                shared,
            ),
            call_ensures(Self::get_mut, (self, id), exclusive) || call_ensures(
                Self::ind_mut,
                (self, id, ind),
                exclusive,
            ),
        ensures
            shared is Err && shared->Err_0 == ErrorDesc::NoAllocatedUnit,
            exclusive is Err && exclusive->Err_0 == ErrorDesc::NoAllocatedUnit,
    {
    }

    /// Allocation never replaces a unit: where units are only added behind
    /// those that stand, every identity that had a unit keeps that unit.
    pub proof fn units_stay(self, later: Self)
        requires
            self.units().is_prefix_of(later.units()),
            later@.no_duplicates(),
        ensures
            forall|id: TypeId| #[trigger] self@.contains(id) ==> later.unit(id) == self.unit(id),
    {
        assert forall|id: TypeId| #[trigger] self@.contains(id) implies later.unit(id)
            == self.unit(id) by {
            let i = self@.index_of(id);
            assert(later@[i] == id);
            assert(later@.contains(id));
            assert(later@.index_of(id) == i);
        }
    }

    /// Leaving the registry as it is where `id` has a unit, and adding a
    /// unit of that identity behind the others where it has none, are the two
    /// ways in which a registry grows by `id`.
    proof fn grown_by_either(self, id: TypeId, later: Self)
        requires
            later@.no_duplicates(),
            if self@.contains(id) {
                later.units() == self.units()
            } else {
                later.units() == self.units().push(later.units().last())
                    && later.units().last().spec_id() == id
            },
        ensures
            self.grown_by(id, later),
    {
        self.units_stay(later);
        assert(later@ =~= if self@.contains(id) {
            self@
        } else {
            self@.push(id)
        });
        assert(self@.push(id).last() == id);
    }

    /// Adds a unit whose identity has none yet.
    fn install(&mut self, unit: U)
        requires
            !old(self)@.contains(unit.spec_id()),
        ensures
            final(self).units() == old(self).units().push(unit),
            final(self).unit(unit.spec_id()) == unit,
    {
        proof {
            use_type_invariant(&*self);
        }
        let ghost before = self@;
        let mut data = Vec::new();
        core::mem::swap(&mut self.data, &mut data);
        data.push(unit);
        assert(Seq::new(data@.len(), |i: int| data@[i].spec_id()) =~= before.push(
            unit.spec_id(),
        ));
        self.data = data;
        assert(self@.index_of(unit.spec_id()) == before.len()) by {
            assert(self@[before.len() as int] == unit.spec_id());
        }
    }
}

impl<T, U: for<'a> Unit<'a, Item = T>> BlackBox<U> {
    /// On an identity without a unit, an extraction answers
    /// `NoAllocatedUnit`, and an insertion answers with what was to be
    /// inserted, as it was given, and `NoAllocatedUnit`.
    pub proof fn no_unit_no_value(
        &self,
        id: TypeId,
        one: T,
        many: Vec<T>,
        taken: DynamicResult<T>,
        taken_all: DynamicResult<Box<[T]>>,
        put: Result<(), (T, ErrorDesc)>,
        put_all: Result<(), (Vec<T>, ErrorDesc)>,
    )
        requires
            !self@.contains(id),
            call_ensures(Self::extract, (self, id), taken),
            call_ensures(Self::extract_many, (self, id), taken_all),
            call_ensures(Self::insert, (self, id, one), put),
            call_ensures(Self::insert_many, (self, id, many), put_all),
        ensures
            taken == Err::<T, _>(ErrorDesc::NoAllocatedUnit),
            taken_all == Err::<Box<[T]>, _>(ErrorDesc::NoAllocatedUnit),
            put == Err::<(), _>((one, ErrorDesc::NoAllocatedUnit)),
            put_all == Err::<(), _>((many, ErrorDesc::NoAllocatedUnit)),
    {
    }

    /// Stores `data` for `id`.
    ///
    /// An identity without a unit fails with `NoAllocatedUnit`; a unit fails
    /// only where its discipline denies the access. Either way `data` comes
    /// back with the error.
    pub fn insert(&self, id: TypeId, data: T) -> (r: Result<(), (T, ErrorDesc)>)
        ensures
            !self@.contains(id) ==> r == Err::<(), _>((data, ErrorDesc::NoAllocatedUnit)),
            self@.contains(id) ==> r is Ok || r == Err::<(), _>(
                (data, ErrorDesc::BorrowedIncompatibly),
            ),
            self@.contains(id) ==> call_ensures(
                <U as Unit<'_>>::insert_any,
                (&self.unit(id), Owned::One(data)),
                match r {
                    Ok(_) => None,
                    Err((back, e)) => Some((Owned::One(back), e)),
                },
            ),
    {
        match self.unit_get(id) {
            Ok(unit) => match unit.insert_any(Owned::One(data)) {
                None => Ok(()),
                Some((Owned::One(back), e)) => Err((back, e)),
                Some((Owned::Many(_), _)) => unreached(),
            },
            Err(e) => Err((data, e)),
        }
    }

    /// Stores the values of `data`, in their order, for `id`.
    ///
    /// An identity without a unit fails with `NoAllocatedUnit`; a unit fails
    /// only where its discipline denies the access. Either way `data` comes
    /// back with the error.
    pub fn insert_many(&self, id: TypeId, data: Vec<T>) -> (r: Result<(), (Vec<T>, ErrorDesc)>)
        ensures
            !self@.contains(id) ==> r == Err::<(), _>((data, ErrorDesc::NoAllocatedUnit)),
            self@.contains(id) ==> r is Ok || r == Err::<(), _>(
                (data, ErrorDesc::BorrowedIncompatibly),
            ),
            self@.contains(id) ==> call_ensures(
                <U as Unit<'_>>::insert_any,
                (&self.unit(id), Owned::Many(data)),
                match r {
                    Ok(_) => None,
                    Err((back, e)) => Some((Owned::Many(back), e)),
                },
            ),
    {
        match self.unit_get(id) {
            Ok(unit) => match unit.insert_any(Owned::Many(data)) {
                None => Ok(()),
                Some((Owned::Many(back), e)) => Err((back, e)),
                Some((Owned::One(_), _)) => unreached(),
            },
            Err(e) => Err((data, e)),
        }
    }

    /// Takes the single value stored for `id` out.
    ///
    /// An identity without a unit fails with `NoAllocatedUnit`; for any
    /// other, the outcome is the one that its unit's `extract` gave.
    pub fn extract(&self, id: TypeId) -> (r: DynamicResult<T>)
        ensures
            self@.contains(id) ==> call_ensures(
                <U as Unit<'_>>::extract,
                (&self.unit(id),),
                match r {
                    Ok(taken) => Ok(Owned::One(taken)),
                    Err(e) => Err(e),
                },
            ),
            match r {
                Ok(_) => self@.contains(id),
                Err(e) => if self@.contains(id) {
                    refused_one(e)
                } else {
                    e == ErrorDesc::NoAllocatedUnit
                },
            },
    {
        match self.unit_get(id) {
            Ok(unit) => match unit.extract() {
                Ok(Owned::One(taken)) => Ok(taken),
                Ok(Owned::Many(_)) => unreached(),
                Err(e) => Err(e),
            },
            Err(e) => Err(e),
        }
    }

    /// Takes the whole sequence stored for `id` out.
    ///
    /// An identity without a unit fails with `NoAllocatedUnit`; for any
    /// other, the outcome is the one that its unit's `extract_many` gave,
    /// with the values boxed in their order.
    pub fn extract_many(&self, id: TypeId) -> (r: DynamicResult<Box<[T]>>)
        ensures
            self@.contains(id) ==> exists|given: DynamicResult<Owned<T>>|
                #![trigger call_ensures(<U as Unit<'_>>::extract_many, (&self.unit(id),), given)]
                call_ensures(<U as Unit<'_>>::extract_many, (&self.unit(id),), given) && match r {
                    Ok(boxed) => given is Ok && given->Ok_0 is Many && given->Ok_0->Many_0@
                        == boxed@,
                    Err(e) => given == Err::<Owned<T>, _>(e),
                },
            match r {
                Ok(_) => self@.contains(id),
                Err(e) => if self@.contains(id) {
                    refused_many(e)
                } else {
                    e == ErrorDesc::NoAllocatedUnit
                },
            },
    {
        match self.unit_get(id) {
            Ok(unit) => match unit.extract_many() {
                Ok(Owned::Many(taken)) => Ok(into_boxed_slice(taken)),
                Ok(Owned::One(_)) => unreached(),
                Err(e) => Err(e),
            },
            Err(e) => Err(e),
        }
    }
}

impl<T: 'static> BlackBox<RefCellUnit<T>> {
    /// Allocates a unit for `id`, under the exclusive-owner discipline,
    /// unless `id` has a unit. The new unit is one that `RefCellUnit::new`
    /// made around an empty storage; the units that were there stay.
    pub fn allocate_for(&mut self, id: TypeId)
        ensures
            old(self).grown_by(id, *final(self)),
            !old(self)@.contains(id) ==> call_ensures(
                RefCellUnit::<T>::new,
                (id, StorageUnit::Nope),
                final(self).unit(id),
            ),
    {
        let ghost before = *self;
        if self.position(id).is_none() {
            self.install(RefCellUnit::new(id, StorageUnit::new()));
        }
        proof {
            use_type_invariant(&*self);
            before.grown_by_either(id, *self);
        }
    }
}

impl<T: 'static + Send + Sync> BlackBox<MutexUnit<T>> {
    /// Allocates a unit for `id`, under the mutual-exclusion discipline,
    /// unless `id` has a unit. The new unit is one that `MutexUnit::new` made
    /// around an empty storage; the units that were there stay.
    pub fn allocate_for(&mut self, id: TypeId)
        ensures
            old(self).grown_by(id, *final(self)),
            !old(self)@.contains(id) ==> call_ensures(
                MutexUnit::<T>::new,
                (id, StorageUnit::Nope),
                final(self).unit(id),
            ),
    {
        let ghost before = *self;
        if self.position(id).is_none() {
            self.install(MutexUnit::new(id, StorageUnit::new()));
        }
        proof {
            use_type_invariant(&*self);
            before.grown_by_either(id, *self);
        }
    }
}

impl<T: 'static + Send + Sync> BlackBox<RwLockUnit<T>> {
    /// Allocates a unit for `id`, under the reader/writer discipline, unless
    /// `id` has a unit. The new unit is one that `RwLockUnit::new` made
    /// around an empty storage; the units that were there stay.
    pub fn allocate_for(&mut self, id: TypeId)
        ensures
            old(self).grown_by(id, *final(self)),
            !old(self)@.contains(id) ==> call_ensures(
                RwLockUnit::<T>::new,
                (id, StorageUnit::Nope),
                final(self).unit(id),
            ),
    {
        let ghost before = *self;
        if self.position(id).is_none() {
            self.install(RwLockUnit::new(id, StorageUnit::new()));
        }
        proof {
            use_type_invariant(&*self);
            before.grown_by_either(id, *self);
        }
    }
}

} // verus!
