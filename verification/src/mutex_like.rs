//! A cell that grants access to its value without locking at run time.
//!
//! Access is exclusive by construction: `lock` borrows the cell mutably, so
//! the borrow checker rules out a second view while a guard lives, and
//! `read` borrows it shared, so no guard can live beside a reader. No access
//! needs a run-time check, and none can race.

use vstd::prelude::*;

verus! {

/// A mutex in shape only: taking it locks nothing.
#[derive(Debug)]
pub struct MutexLike<T> {
    data: T,
}

/// The exclusive view of the value of a [`MutexLike`], handed out by `lock`.
/// It reads and writes as the value itself does.
#[derive(Debug)]
pub struct MutexGuardLike<'a, T> {
    pub data: &'a mut T,
}

impl<T> View for MutexLike<T> {
    type V = T;

    closed spec fn view(&self) -> T {
        self.data
    }
}

impl<T> MutexLike<T> {
    /// Creates a new cell that holds `val`.
    #[inline]
    pub fn new(val: T) -> (cell: Self)
        ensures
            cell@ == val,
    {
        Self { data: val }
    }

    /// Acquires the exclusive view of the value, without any locking. The
    /// guard starts at the value of the cell, and the cell ends with the
    /// value that the guard is left with.
    #[inline]
    pub fn lock(&mut self) -> (guard: MutexGuardLike<'_, T>)
        ensures
            *guard.data == old(self)@,
            final(self)@ == *final(guard.data),
    {
        MutexGuardLike { data: &mut self.data }
    }

    /// The shared view of the value.
    #[inline]
    pub fn read(&self) -> (val: &T)
        ensures
            *val == self@,
    {
        &self.data
    }

    /// Gives up the cell for its value.
    #[inline]
    pub fn into_inner(self) -> (val: T)
        ensures
            val == self@,
    {
        self.data
    }
}

impl<T: Default> Default for MutexLike<T> {
    /// A cell that holds the default value of `T`.
    #[inline]
    fn default() -> (cell: Self)
        ensures
            call_ensures(T::default, (), cell@),
    {
        Self::new(T::default())
    }
}

impl<'a, T> core::ops::Deref for MutexGuardLike<'a, T> {
    type Target = T;

    /// The value as it stands.
    #[inline]
    fn deref(&self) -> (val: &T)
        ensures
            *val == *old(self.data),
    {
        &*self.data
    }
}

impl<'a, T> core::ops::DerefMut for MutexGuardLike<'a, T> {
    /// The value, to be written. What is written through the reference is
    /// the value of the guard afterwards, and the guard still stands for the
    /// same cell.
    #[inline]
    fn deref_mut(&mut self) -> (val: &mut T)
        ensures
            *val == *old(self).data,
            *final(self).data == *final(val),
            *final(final(self).data) == *final(old(self).data),
    {
        &mut *self.data
    }
}

} // verus!
