//! A type-indexed storage container with runtime-checked borrows.
//!
//! A [`BlackBox`] maps a type identity to one *unit*. A unit wraps a
//! [`StorageUnit`], which holds no value, exactly one value or an ordered
//! sequence of values, behind one of three access disciplines:
//! [`RefCellUnit`] (single owner, aliasing counters), [`MutexUnit`] (one
//! accessor at a time) and [`RwLockUnit`] (many readers or one writer, for the
//! unit and for each place of its sequence).
//! Every access is a non-blocking attempt: a denied one fails with
//! [`ErrorDesc::BorrowedIncompatibly`].
pub mod black_box;
pub mod concurrent_black_box;

pub use crate::black_box::unit::{
    DynamicResult, ErrorDesc, Multiplicity, Owned, StorageUnit, Unit, UnitError,
};
pub use crate::black_box::refcell_unit::RefCellUnit;
pub use crate::black_box::{BlackBox, DynamicStorage, MapMut, MapRef, MutexStorage, RwLockStorage};
pub use crate::concurrent_black_box::{MutexGuard, MutexUnit, ReadGuard, RwLockUnit, WriteGuard};
