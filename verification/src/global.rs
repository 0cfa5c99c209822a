//! Payload types with a fallback value, and holders of global instances.

use vstd::prelude::*;
use crate::cell::OnceInit;
use crate::error::OnceInitError;
use crate::model::Call;
use crate::model::Reply;

verus! {

/// A payload type that has a fallback value living for the whole process.
///
/// The fallback is asked for on every read of a cell that holds nothing, so
/// an implementation hands out one long-lived instance and does not allocate
/// per call.
pub trait StaticDefault {
    /// The fallback value.
    fn static_default() -> &'static Self;
}

/// Whether `r` is what a read with fallback hands out when the read itself
/// gave `got`: the value that was read, or else a fallback of the payload
/// type.
pub open spec fn settles_on<T: ?Sized + StaticDefault>(
    got: Result<&'static T, OnceInitError>,
    r: &'static T,
) -> bool {
    match got {
        Ok(v) => r == v,
        Err(_) => call_ensures(T::static_default, (), r),
    }
}

/// The reference that a read with fallback hands out for the result `got` of
/// the read.
pub fn or_default<T: ?Sized + StaticDefault>(got: Result<&'static T, OnceInitError>) -> (r:
    &'static T)
    ensures
        settles_on(got, r),
{
    match got {
        Ok(v) => v,
        Err(_) => T::static_default(),
    }
}

impl<T: ?Sized + StaticDefault> OnceInit<T> {
    /// The stored reference, or the payload type's fallback if nothing is
    /// stored. The fallback is never written into the cell. A cell that was
    /// built around a value always yields that value.
    pub fn get_or_default(&self) -> (r: &'static T)
        ensures
            exists|got: Result<&'static T, OnceInitError>| #[trigger]
                self.answers(Call::Get, Reply::Got(got)) && settles_on(got, r),
            self.preset() matches Some(d) ==> r == d,
            self.allows(r) || call_ensures(T::static_default, (), r),
    {
        or_default(self.get())
    }
}

impl<T: StaticDefault> Default for OnceInit<T> {
    /// A cell that is published from the start and holds the payload type's
    /// fallback.
    fn default() -> (cell: Self)
        ensures
            cell.born().phase is Initialized,
            cell.preset() matches Some(d) && call_ensures(T::static_default, (), d),
    {
        OnceInit::new(T::static_default())
    }
}

impl<T: ?Sized + StaticDefault> std::ops::Deref for OnceInit<T> {
    type Target = T;

    /// Reads through the cell as `get_or_default` does.
    fn deref(&self) -> (r: &'static T)
        ensures
            exists|got: Result<&'static T, OnceInitError>| #[trigger]
                self.answers(Call::Get, Reply::Got(got)) && settles_on(got, r),
            self.preset() matches Some(d) ==> r == d,
            self.allows(r) || call_ensures(T::static_default, (), r),
    {
        self.get_or_default()
    }
}

/// Something that holds one process-wide instance which may still be
/// unset, and lets it be set once.
pub trait UninitGlobalHolder<T: ?Sized> {
    /// Sets the instance; the only failure is that it was set before.
    fn init(&self, data: &'static T) -> (r: Result<(), OnceInitError>)
        ensures
            r matches Err(e) ==> e == OnceInitError::DataInitialized,
    ;

    /// Sets the instance from an owned value; the only failure is that it
    /// was set before.
    fn init_boxed(&self, data: Box<T>) -> (r: Result<(), OnceInitError>)
        ensures
            r matches Err(e) ==> e == OnceInitError::DataInitialized,
    ;
}

impl<T: ?Sized> UninitGlobalHolder<T> for OnceInit<T> {
    fn init(&self, data: &'static T) -> (r: Result<(), OnceInitError>)
        ensures
            self.answers(Call::Init(data), Reply::Stored(r)),
            self.preset() is Some ==> r == Err::<(), OnceInitError>(OnceInitError::DataInitialized),
            r is Ok ==> self.preset() is None,
    {
        OnceInit::init(self, data)
    }

    fn init_boxed(&self, data: Box<T>) -> (r: Result<(), OnceInitError>)
        ensures
            self.answers(Call::Init(&*data), Reply::Stored(r)),
            self.preset() is Some ==> r == Err::<(), OnceInitError>(OnceInitError::DataInitialized),
            r is Ok ==> self.preset() is None,
    {
        OnceInit::init_boxed(self, data)
    }
}

/// A type `T` with one process-wide instance, kept in a holder `M`.
pub trait UninitGlobal<T: ?Sized, M: UninitGlobalHolder<T>> {
    /// The holder of the instance.
    fn holder() -> &'static M;

    /// Sets the instance through the holder and returns the holder's answer.
    fn init(data: &'static T) -> (r: Result<(), OnceInitError>)
        where
            M: 'static,
        ensures
            r matches Err(e) ==> e == OnceInitError::DataInitialized,
            exists|h: &'static M|
                call_ensures(Self::holder, (), h) && call_ensures(M::init, (h, data), r),
    {
        Self::holder().init(data)
    }

    /// Sets the instance from an owned value through the holder and returns
    /// the holder's answer.
    fn init_boxed(data: Box<T>) -> (r: Result<(), OnceInitError>)
        where
            M: 'static,
        ensures
            r matches Err(e) ==> e == OnceInitError::DataInitialized,
            exists|h: &'static M|
                call_ensures(Self::holder, (), h) && call_ensures(M::init_boxed, (h, data), r),
    {
        Self::holder().init_boxed(data)
    }
}

} // verus!
