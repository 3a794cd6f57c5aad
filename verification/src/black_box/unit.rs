use core::any::TypeId;
use core::ops::{Deref, DerefMut};
use vstd::prelude::*;

verus! {

/// `core::any::TypeId`, the identity of a type: an opaque token that can be
/// copied and compared.
#[verifier::external_type_specification]
#[verifier::external_body]
pub struct ExTypeId(TypeId);

/// `TypeId`'s `==`: two identities compare equal exactly when they are the
/// same identity.
#[verifier::external_body]
pub(crate) fn same_id(a: &TypeId, b: &TypeId) -> (same: bool)
    ensures
        same == (*a == *b),
{
    a == b
}

/// `TypeId`'s `Debug`: the text that stands for an identity.
#[verifier::external_body]
fn id_text(id: &TypeId) -> (text: String) {
    format!("{:?}", id)
}

/// `String::push_str`: `more` is put behind the text.
pub assume_specification[ String::push_str ](text: &mut String, more: &str)
    ensures
        final(text)@ == old(text)@ + more@,
;

/// Whether `text` is what `TypeId`'s `Debug` gave for `id`.
pub closed spec fn is_id_text(id: TypeId, text: Seq<char>) -> bool {
    exists|given: String| #[trigger] call_ensures(id_text, (&id,), given) && given@ == text
}

/// Why an operation on a single unit's contents was refused.
#[derive(Debug, PartialEq)]
pub enum UnitError {
    /// The unit does not hold exactly one value.
    IsNotOne,
    /// The unit does not hold a sequence of values.
    IsNotMany,
    /// The unit holds a sequence, and the index is past its end.
    OutOfBounds,
}

/// Why an operation on the container failed.
#[derive(Debug, PartialEq)]
pub enum ErrorDesc {
    /// The unit's access discipline could not grant the access right now.
    BorrowedIncompatibly,
    /// No unit was ever allocated for the requested type identity.
    NoAllocatedUnit,
    /// A stored value is not of the type its unit stands for.
    NoMatchingType,
    /// Another error, carried inside this one.
    Inner(Box<ErrorDesc>),
    /// The unit's contents have the wrong shape for the operation.
    Unit(UnitError),
}

pub type DynamicResult<T> = Result<T, ErrorDesc>;

impl ErrorDesc {
    /// The error carried by an `Inner`.
    pub fn unwrap(self) -> (inner: ErrorDesc)
        requires
            self is Inner,
        ensures
            inner == *self->Inner_0,
    {
        match self {
            ErrorDesc::Inner(inner) => *inner,
            _ => unreached(),
        }
    }
}

/// What a unit holds, as a mathematical value: nothing, one value, or an
/// ordered sequence of values.
pub enum Multiplicity<T> {
    Empty,
    Single(T),
    Many(Seq<T>),
}

impl<T> Multiplicity<T> {
    /// The values held, in their order.
    pub open spec fn items(self) -> Seq<T> {
        match self {
            Multiplicity::Empty => Seq::empty(),
            Multiplicity::Single(v) => seq![v],
            Multiplicity::Many(vs) => vs,
        }
    }

    /// The state after one more value arrives: the value already held, if
    /// there is exactly one, becomes the first of a sequence.
    pub open spec fn insert(self, x: T) -> Self {
        match self {
            Multiplicity::Empty => Multiplicity::Single(x),
            Multiplicity::Single(v) => Multiplicity::Many(seq![v, x]),
            Multiplicity::Many(vs) => Multiplicity::Many(vs.push(x)),
        }
    }

    /// The state after a batch of values arrives, behind whatever is held.
    pub open spec fn insert_many(self, xs: Seq<T>) -> Self {
        match self {
            Multiplicity::Empty => Multiplicity::Many(xs),
            Multiplicity::Single(v) => Multiplicity::Many(seq![v] + xs),
            Multiplicity::Many(vs) => Multiplicity::Many(vs + xs),
        }
    }

    /// The single value, where exactly one is held.
    pub open spec fn one(self) -> Result<T, ErrorDesc> {
        match self {
            Multiplicity::Single(v) => Ok(v),
            _ => Err(ErrorDesc::Unit(UnitError::IsNotOne)),
        }
    }

    /// The whole sequence, where a sequence is held.
    pub open spec fn many(self) -> Result<Seq<T>, ErrorDesc> {
        match self {
            Multiplicity::Many(vs) => Ok(vs),
            _ => Err(ErrorDesc::Unit(UnitError::IsNotMany)),
        }
    }

    /// The state that an extraction of the single value leaves.
    pub open spec fn without_one(self) -> Self {
        match self {
            Multiplicity::Single(_) => Multiplicity::Empty,
            _ => self,
        }
    }

    /// The state that an extraction of the whole sequence leaves.
    pub open spec fn without_many(self) -> Self {
        match self {
            Multiplicity::Many(_) => Multiplicity::Empty,
            _ => self,
        }
    }

    /// The state that an extraction at position `i` leaves: the values behind
    /// that position move up by one.
    pub open spec fn without_index(self, i: int) -> Self {
        match self {
            Multiplicity::Many(vs) => if 0 <= i < vs.len() {
                Multiplicity::Many(vs.remove(i))
            } else {
                self
            },
            _ => self,
        }
    }

    /// The value at position `i` of the sequence held.
    pub open spec fn index(self, i: int) -> Result<T, ErrorDesc> {
        match self {
            Multiplicity::Many(vs) => if 0 <= i < vs.len() {
                Ok(vs[i])
            } else {
                Err(ErrorDesc::Unit(UnitError::OutOfBounds))
            },
            _ => Err(ErrorDesc::Unit(UnitError::IsNotMany)),
        }
    }
}

/// A value or a batch of values on its way into or out of a unit.
#[derive(Debug, PartialEq)]
pub enum Owned<T> {
    One(T),
    Many(Vec<T>),
}

impl<T> Owned<T> {
    /// How many values are carried.
    pub open spec fn count(self) -> nat {
        match self {
            Owned::One(_) => 1,
            Owned::Many(values) => values@.len(),
        }
    }

    /// The values carried, in their order.
    pub open spec fn values(self) -> Seq<T> {
        match self {
            Owned::One(value) => seq![value],
            Owned::Many(values) => values@,
        }
    }

    /// How many values are carried.
    pub fn len(&self) -> (count: usize)
        ensures
            count == self.count(),
    {
        match self {
            Owned::One(_) => 1,
            Owned::Many(values) => values.len(),
        }
    }
}

impl<T> Multiplicity<T> {
    /// A value that arrives is put behind the values already held, which keep
    /// their order.
    pub proof fn insert_appends(self, x: T)
        ensures
            self.insert(x).items() == self.items().push(x),
    {
        assert(self.insert(x).items() =~= self.items().push(x));
    }

    /// A batch that arrives is put, in its order, behind the values already
    /// held, which keep theirs; whatever was held, a sequence is held
    /// afterwards.
    pub proof fn insert_many_appends(self, xs: Seq<T>)
        ensures
            self.insert_many(xs) == Multiplicity::Many(self.items() + xs),
    {
        assert(self.insert_many(xs).items() =~= self.items() + xs);
    }

    /// Two values put into an empty unit are held as a sequence of the two:
    /// the first at index 0, the second at index 1, and nothing behind them.
    pub proof fn insert_twice_into_empty(v1: T, v2: T)
        ensures
            Multiplicity::Empty.insert(v1).insert(v2) == Multiplicity::Many(seq![v1, v2]),
            Multiplicity::Empty.insert(v1).insert(v2).index(0) == Ok::<T, ErrorDesc>(v1),
            Multiplicity::Empty.insert(v1).insert(v2).index(1) == Ok::<T, ErrorDesc>(v2),
            Multiplicity::Empty.insert(v1).insert(v2).index(2) == Err::<T, ErrorDesc>(
                ErrorDesc::Unit(UnitError::OutOfBounds),
            ),
    {
    }

    /// A value put into an empty unit is the one that an extraction of the
    /// single value gives back, and that extraction leaves the unit empty.
    pub proof fn insert_then_extract_one(self, v: T)
        requires
            self is Empty,
        ensures
            self.insert(v).one() == Ok::<T, ErrorDesc>(v),
            self.insert(v).without_one() == self,
    {
    }

    /// An extraction succeeds on one shape only, and leaves the unit empty:
    /// that of the single value where exactly one value is held, that of the
    /// sequence where a sequence is held.
    pub proof fn extraction_by_shape(self)
        ensures
            self.one() is Ok <==> self is Single,
            self.one() is Err ==> self.one() == Err::<T, ErrorDesc>(
                ErrorDesc::Unit(UnitError::IsNotOne),
            ) && self.without_one() == self,
            self.one() is Ok ==> self.without_one() is Empty,
            self.many() is Ok <==> self is Many,
            self.many() is Err ==> self.many() == Err::<Seq<T>, ErrorDesc>(
                ErrorDesc::Unit(UnitError::IsNotMany),
            ) && self.without_many() == self,
            self.many() is Ok ==> self.without_many() is Empty,
    {
    }
}

/// Holds the values of one type: none, one, or many in insertion order.
pub enum StorageUnit<T> {
    Nope,
    One(T),
    Many(Vec<T>),
}

impl<T> View for StorageUnit<T> {
    type V = Multiplicity<T>;

    open spec fn view(&self) -> Multiplicity<T> {
        match self {
            StorageUnit::Nope => Multiplicity::Empty,
            StorageUnit::One(v) => Multiplicity::Single(*v),
            StorageUnit::Many(vs) => Multiplicity::Many(vs@),
        }
    }
}

/// `Vec::into_boxed_slice`: the boxed slice holds the vector's elements in
/// the vector's order.
#[verifier::external_body]
pub(crate) fn into_boxed_slice<T>(v: Vec<T>) -> (boxed: Box<[T]>)
    ensures
        boxed@ == v@,
{
    v.into_boxed_slice()
}

impl<T> StorageUnit<T> {
    pub fn new() -> (unit: Self)
        ensures
            unit@ == Multiplicity::<T>::Empty,
    {
        StorageUnit::Nope
    }

    pub fn insert(&mut self, new: T)
        ensures
            final(self)@ == old(self)@.insert(new),
    {
        let mut prev = StorageUnit::Nope;
        core::mem::swap(self, &mut prev);
        match prev {
            StorageUnit::Nope => {
                *self = StorageUnit::One(new);
            },
            StorageUnit::One(first) => {
                let mut many = Vec::new();
                many.push(new);
                many.insert(0, first);
                assert(many@ =~= seq![first, new]);
                *self = StorageUnit::Many(many);
            },
            StorageUnit::Many(mut many) => {
                many.push(new);
                *self = StorageUnit::Many(many);
            },
        }
    }

    pub fn insert_many(&mut self, new: Vec<T>)
        ensures
            final(self)@ == old(self)@.insert_many(new@),
    {
        let mut prev = StorageUnit::Nope;
        core::mem::swap(self, &mut prev);
        match prev {
            StorageUnit::Nope => {
                *self = StorageUnit::Many(new);
            },
            StorageUnit::One(first) => {
                let mut many = new;
                many.insert(0, first);
                assert(many@ =~= seq![first] + new@);
                *self = StorageUnit::Many(many);
            },
            StorageUnit::Many(mut many) => {
                let mut rest = new;
                many.append(&mut rest);
                *self = StorageUnit::Many(many);
            },
        }
    }

    pub fn one(&self) -> (r: DynamicResult<&T>)
        ensures
            match self@.one() {
                Ok(v) => r == Ok::<&T, ErrorDesc>(&v),
                Err(e) => r == Err::<&T, ErrorDesc>(e),
            },
    {
        if let StorageUnit::One(x) = self {
            Ok(x)
        } else {
            Err(ErrorDesc::Unit(UnitError::IsNotOne))
        }
    }

    /// Where this succeeds, the unit afterwards holds the one value that the
    /// caller leaves behind the returned reference.
    pub fn one_mut(&mut self) -> (r: DynamicResult<&mut T>)
        ensures
            match old(self)@.one() {
                Ok(v) => r is Ok && *r->Ok_0 == v
                    && final(self)@ == Multiplicity::Single(*final(r->Ok_0)),
                Err(e) => r == Err::<&mut T, ErrorDesc>(e) && final(self)@ == old(self)@,
            },
    {
        if let StorageUnit::One(x) = self {
            Ok(x)
        } else {
            Err(ErrorDesc::Unit(UnitError::IsNotOne))
        }
    }

    pub fn many(&self) -> (r: DynamicResult<&[T]>)
        ensures
            match self@.many() {
                Ok(vs) => r is Ok && r->Ok_0@ == vs,
                Err(e) => r == Err::<&[T], ErrorDesc>(e),
            },
    {
        if let StorageUnit::Many(x) = self {
            Ok(x.as_slice())
        } else {
            Err(ErrorDesc::Unit(UnitError::IsNotMany))
        }
    }

    /// Where this succeeds, the unit afterwards holds the sequence that the
    /// caller leaves behind the returned reference.
    pub fn many_mut(&mut self) -> (r: DynamicResult<&mut Vec<T>>)
        ensures
            match old(self)@.many() {
                Ok(vs) => r is Ok && r->Ok_0@ == vs
                    && final(self)@ == Multiplicity::Many(final(r->Ok_0)@),
                Err(e) => r == Err::<&mut Vec<T>, ErrorDesc>(e) && final(self)@ == old(self)@,
            },
    {
        if let StorageUnit::Many(x) = self {
            Ok(x)
        } else {
            Err(ErrorDesc::Unit(UnitError::IsNotMany))
        }
    }

    pub fn ind(&self, ind: usize) -> (r: DynamicResult<&T>)
        ensures
            match self@.index(ind as int) {
                Ok(v) => r == Ok::<&T, ErrorDesc>(&v),
                Err(e) => r == Err::<&T, ErrorDesc>(e),
            },
    {
        if let StorageUnit::Many(x) = self {
            if ind < x.len() {
                Ok(&x[ind])
            } else {
                Err(ErrorDesc::Unit(UnitError::OutOfBounds))
            }
        } else {
            Err(ErrorDesc::Unit(UnitError::IsNotMany))
        }
    }

    /// Where this succeeds, the sequence afterwards differs from the one
    /// before at position `ind` alone, where it holds the value that the
    /// caller leaves behind the returned reference.
    pub fn ind_mut(&mut self, ind: usize) -> (r: DynamicResult<&mut T>)
        ensures
            match old(self)@.index(ind as int) {
                Ok(v) => r is Ok && *r->Ok_0 == v && final(self)@ == Multiplicity::Many(
                    old(self)@->Many_0.update(ind as int, *final(r->Ok_0)),
                ),
                Err(e) => r == Err::<&mut T, ErrorDesc>(e) && final(self)@ == old(self)@,
            },
    {
        if let StorageUnit::Many(x) = self {
            if ind < x.len() {
                Ok(&mut x[ind])
            } else {
                Err(ErrorDesc::Unit(UnitError::OutOfBounds))
            }
        } else {
            Err(ErrorDesc::Unit(UnitError::IsNotMany))
        }
    }

    pub fn extract_one(&mut self) -> (r: DynamicResult<T>)
        ensures
            r == old(self)@.one(),
            final(self)@ == old(self)@.without_one(),
    {
        let mut repl = StorageUnit::Nope;
        core::mem::swap(&mut repl, self);
        match repl {
            StorageUnit::One(data) => Ok(data),
            other => {
                *self = other;
                Err(ErrorDesc::Unit(UnitError::IsNotOne))
            },
        }
    }

    /// Takes the value at position `ind` out of the sequence; the values
    /// behind it move up by one.
    pub fn extract_ind(&mut self, ind: usize) -> (r: DynamicResult<T>)
        ensures
            r == old(self)@.index(ind as int),
            final(self)@ == old(self)@.without_index(ind as int),
    {
        if let StorageUnit::Many(x) = self {
            if ind < x.len() {
                Ok(x.remove(ind))
            } else {
                Err(ErrorDesc::Unit(UnitError::OutOfBounds))
            }
        } else {
            Err(ErrorDesc::Unit(UnitError::IsNotMany))
        }
    }

    pub fn extract_many(&mut self) -> (r: DynamicResult<Vec<T>>)
        ensures
            match old(self)@.many() {
                Ok(vs) => r is Ok && r->Ok_0@ == vs,
                Err(e) => r == Err::<Vec<T>, ErrorDesc>(e),
            },
            final(self)@ == old(self)@.without_many(),
    {
        let mut repl = StorageUnit::Nope;
        core::mem::swap(&mut repl, self);
        match repl {
            StorageUnit::Many(data) => Ok(data),
            other => {
                *self = other;
                Err(ErrorDesc::Unit(UnitError::IsNotMany))
            },
        }
    }

    pub fn extract_many_boxed(&mut self) -> (r: DynamicResult<Box<[T]>>)
        ensures
            match old(self)@.many() {
                Ok(vs) => r is Ok && r->Ok_0@ == vs,
                Err(e) => r == Err::<Box<[T]>, ErrorDesc>(e),
            },
            final(self)@ == old(self)@.without_many(),
    {
        match self.extract_many() {
            Ok(data) => Ok(into_boxed_slice(data)),
            Err(e) => Err(e),
        }
    }
}

impl<T> StorageUnit<T> {
    /// Why no value stands at an index that `ind` found none at: there is no
    /// sequence, or there is one and the index is past its end.
    pub fn index_refusal(&self) -> (e: ErrorDesc)
        ensures
            e == match self@ {
                Multiplicity::Many(_) => ErrorDesc::Unit(UnitError::OutOfBounds),
                _ => ErrorDesc::Unit(UnitError::IsNotMany),
            },
    {
        match self {
            StorageUnit::Many(_) => ErrorDesc::Unit(UnitError::OutOfBounds),
            _ => ErrorDesc::Unit(UnitError::IsNotMany),
        }
    }

    /// Takes the single value out, as a unit hands it on.
    pub fn take_one(&mut self) -> (r: DynamicResult<Owned<T>>)
        ensures
            match old(self)@.one() {
                Ok(v) => r == Ok::<Owned<T>, ErrorDesc>(Owned::One(v)),
                Err(e) => r == Err::<Owned<T>, ErrorDesc>(e),
            },
            final(self)@ == old(self)@.without_one(),
    {
        match self.extract_one() {
            Ok(taken) => Ok(Owned::One(taken)),
            Err(e) => Err(e),
        }
    }

    /// Takes the value at position `ind` out, as a unit hands it on.
    pub fn take_ind(&mut self, ind: usize) -> (r: DynamicResult<Owned<T>>)
        ensures
            match old(self)@.index(ind as int) {
                Ok(v) => r == Ok::<Owned<T>, ErrorDesc>(Owned::One(v)),
                Err(e) => r == Err::<Owned<T>, ErrorDesc>(e),
            },
            final(self)@ == old(self)@.without_index(ind as int),
    {
        match self.extract_ind(ind) {
            Ok(taken) => Ok(Owned::One(taken)),
            Err(e) => Err(e),
        }
    }

    /// Takes the whole sequence out, as a unit hands it on.
    pub fn take_many(&mut self) -> (r: DynamicResult<Owned<T>>)
        ensures
            match old(self)@.many() {
                Ok(vs) => r is Ok && r->Ok_0 is Many && r->Ok_0->Many_0@ == vs,
                Err(e) => r == Err::<Owned<T>, ErrorDesc>(e),
            },
            final(self)@ == old(self)@.without_many(),
    {
        match self.extract_many() {
            Ok(taken) => Ok(Owned::Many(taken)),
            Err(e) => Err(e),
        }
    }

    /// Puts in what `new` carries: one value, or a batch.
    pub fn insert_owned(&mut self, new: Owned<T>)
        ensures
            final(self)@ == match new {
                Owned::One(x) => old(self)@.insert(x),
                Owned::Many(xs) => old(self)@.insert_many(xs@),
            },
    {
        match new {
            Owned::One(x) => self.insert(x),
            Owned::Many(xs) => self.insert_many(xs),
        }
    }
}

impl<T: Clone> Clone for StorageUnit<T> {
    /// The copy has the shape of the unit it was made from, and each of its
    /// values is a clone of the value at the same place.
    fn clone(&self) -> (res: Self)
        ensures
            match self@ {
                Multiplicity::Empty => res@ is Empty,
                Multiplicity::Single(v) => res@ is Single && cloned::<T>(v, res@->Single_0),
                Multiplicity::Many(vs) => res@ is Many && res@->Many_0.len() == vs.len()
                    && forall|i: int|
                    0 <= i < vs.len() ==> cloned::<T>(vs[i], #[trigger] res@->Many_0[i]),
            },
    {
        match self {
            StorageUnit::Nope => StorageUnit::Nope,
            StorageUnit::One(data) => StorageUnit::One(data.clone()),
            StorageUnit::Many(data) => StorageUnit::Many(data.clone()),
        }
    }
}

/// The errors with which a borrow or an extraction of the single value may
/// fail: the discipline denied the access, or the unit does not hold exactly
/// one value.
pub open spec fn refused_one(e: ErrorDesc) -> bool {
    e == ErrorDesc::BorrowedIncompatibly || e == ErrorDesc::Unit(UnitError::IsNotOne)
}

/// The errors with which an extraction of the whole sequence may fail: the
/// discipline denied the access, or the unit does not hold a sequence.
pub open spec fn refused_many(e: ErrorDesc) -> bool {
    e == ErrorDesc::BorrowedIncompatibly || e == ErrorDesc::Unit(UnitError::IsNotMany)
}

/// The errors with which a borrow or an extraction at an index may fail: the
/// discipline denied the access, the unit does not hold a sequence, or the
/// index is past the sequence's end.
pub open spec fn refused_index(e: ErrorDesc) -> bool {
    refused_many(e) || e == ErrorDesc::Unit(UnitError::OutOfBounds)
}

/// Whether `f` was called on shared data and picked a part exactly where
/// `granted`.
pub open spec fn picked_shared<T: ?Sized, O: ?Sized, F: FnOnce(&T) -> Option<&O>>(
    f: F,
    granted: bool,
) -> bool {
    exists|data: &T, picked: Option<&O>|
        #[trigger] call_ensures(f, (data,), picked) && (granted <==> picked is Some)
}

/// Whether `f` was called on data to write to and picked a part exactly
/// where `granted`.
pub open spec fn picked_exclusive<T: ?Sized, O: ?Sized, F: FnOnce(&mut T) -> Option<&mut O>>(
    f: F,
    granted: bool,
) -> bool {
    exists|data: &mut T, picked: Option<&mut O>|
        #[trigger] call_ensures(f, (data,), picked) && (granted <==> picked is Some)
}

impl<T> StorageUnit<T> {
    /// Whether a storage was asked for its single value and answered with
    /// one exactly where `granted`.
    pub open spec fn one_answered(granted: bool) -> bool {
        exists|seen: &StorageUnit<T>, answer: DynamicResult<&T>|
            #[trigger] call_ensures(StorageUnit::<T>::one, (seen,), answer) && (granted
                <==> answer is Ok)
    }

    /// Whether a storage was asked for its value at index `ind` and answered
    /// with one exactly where `granted`.
    pub open spec fn ind_answered(ind: usize, granted: bool) -> bool {
        exists|seen: &StorageUnit<T>, answer: DynamicResult<&T>|
            #[trigger] call_ensures(StorageUnit::<T>::ind, (seen, ind), answer) && (granted
                <==> answer is Ok)
    }

    /// Whether a storage that holds no value at an index gave `e` as the
    /// reason.
    pub open spec fn index_refused(e: ErrorDesc) -> bool {
        exists|seen: &StorageUnit<T>|
            #[trigger] call_ensures(StorageUnit::<T>::index_refusal, (seen,), e)
    }
}

/// One type's storage behind one access discipline.
///
/// Every method takes `&self` and attempts the access without blocking. What
/// a unit holds changes behind shared references, so no contract here speaks
/// of the contents: each says what holds of every outcome. The rules by
/// which the contents change are those of [`StorageUnit`].
pub trait Unit<'a> {
    /// The type of the stored values.
    type Item;

    /// A handle on a shared borrow of one stored value.
    type Borrowed: Deref<Target = Self::Item> + 'a;

    /// A handle on an exclusive borrow of one stored value.
    type MutBorrowed: Deref<Target = Self::Item> + DerefMut + 'a;

    /// The type identity that this unit was made for.
    spec fn spec_id(&self) -> TypeId;

    fn one(&'a self) -> (r: DynamicResult<Self::Borrowed>)
        ensures
            r matches Err(e) ==> refused_one(e),
    ;

    fn one_mut(&'a self) -> (r: DynamicResult<Self::MutBorrowed>)
        ensures
            r matches Err(e) ==> refused_one(e),
    ;

    fn ind(&'a self, ind: usize) -> (r: DynamicResult<Self::Borrowed>)
        ensures
            r matches Err(e) ==> refused_index(e),
    ;

    fn ind_mut(&'a self, ind: usize) -> (r: DynamicResult<Self::MutBorrowed>)
        ensures
            r matches Err(e) ==> refused_index(e),
    ;

    /// Takes the single value out.
    fn extract(&self) -> (r: DynamicResult<Owned<Self::Item>>)
        ensures
            match r {
                Ok(taken) => taken is One,
                Err(e) => refused_one(e),
            },
    ;

    /// Takes the value at an index out.
    fn extract_ind(&self, ind: usize) -> (r: DynamicResult<Owned<Self::Item>>)
        ensures
            match r {
                Ok(taken) => taken is One,
                Err(e) => refused_index(e),
            },
    ;

    /// Takes the whole sequence out.
    fn extract_many(&self) -> (r: DynamicResult<Owned<Self::Item>>)
        ensures
            match r {
                Ok(taken) => taken is Many,
                Err(e) => refused_many(e),
            },
    ;

    /// Puts a value or a batch in. Only the discipline can refuse, and what
    /// was refused comes back as it was given.
    fn insert_any(&self, new: Owned<Self::Item>) -> (r: Option<(Owned<Self::Item>, ErrorDesc)>)
        ensures
            r matches Some((back, e)) ==> back == new && e == ErrorDesc::BorrowedIncompatibly,
    ;

    fn id(&self) -> (id: TypeId)
        ensures
            id == self.spec_id(),
    ;

    /// Whether this unit and `other` stand for the same type identity.
    fn same_as(&self, other: &Self) -> (same: bool)
        ensures
            same == (self.spec_id() == other.spec_id()),
    {
        same_id(&self.id(), &other.id())
    }

    /// The unit in text: `Unit(TypeId: ` and `)` around the text that stands
    /// for its identity.
    fn to_text(&self) -> (text: String)
        ensures
            exists|inner: Seq<char>|
                #[trigger] is_id_text(self.spec_id(), inner) && text@ == "Unit(TypeId: "@ + inner
                    + ")"@,
    {
        let id = self.id();
        let inner = id_text(&id);
        assert(is_id_text(self.spec_id(), inner@));
        let mut text = "Unit(TypeId: ".to_owned();
        text.push_str(inner.as_str());
        text.push_str(")");
        text
    }
}

} // verus!
