//! Optional values whose presence is part of their type.
//!
//! [`Always<T>`] holds a `T`; [`Empty`] holds nothing. Both answer to the same
//! operation names, so code written once against the traits of this module is
//! compiled twice: once with the value, once without it and without any of
//! the work that would have produced it.

use vstd::prelude::*;

verus! {

/// A value that exists. It is stored as the bare `T`.
pub struct Always<T>(pub T);

/// A value that does not exist. It has no storage.
pub struct Empty;

/// The tag that selects between the two containers.
pub trait PerhapsKind: Sized {
    /// Whether containers of this kind hold a value.
    spec fn present() -> bool;
}

/// How a composite value is taken apart into containers of its parts, for
/// containers of kind `K`. `R` tells apart several ways of doing so for one
/// type.
pub trait PerhapsCast<R, K: PerhapsKind>: Sized {
    /// The parts, each in a container of its own.
    type Output;

    /// Whether `out` is what an absent value is taken apart into.
    spec fn is_empty_output(out: Self::Output) -> bool;

    /// Whether `out` is what `self` is taken apart into.
    spec fn is_cast_output(self, out: Self::Output) -> bool;

    /// The parts of a value that does not exist.
    fn empty() -> (r: Self::Output)
        requires
            !K::present(),
        ensures
            Self::is_empty_output(r),
    ;

    /// The parts of `self`.
    fn cast(self) -> (r: Self::Output)
        requires
            K::present(),
        ensures
            self.is_cast_output(r),
    ;
}

/// A container that holds a `T` exactly when its kind is present.
pub trait Perhaps<T>: Sized {
    /// The kind of this container.
    type Kind: PerhapsKind;

    /// The value held, if any.
    spec fn value(&self) -> Option<T>;

    /// A container holds a value exactly when its kind says so.
    proof fn presence(&self)
        ensures
            self.value().is_some() == Self::Kind::present(),
    ;

    /// Hands out the enclosed value. Only a present kind can be asked.
    fn take(self) -> (r: T)
        requires
            Self::Kind::present(),
        ensures
            self.value() == Some(r),
    ;

    /// Borrows the enclosed value. Only a present kind can be asked.
    fn snag(&self) -> (r: &T)
        requires
            Self::Kind::present(),
        ensures
            self.value() == Some(*r),
    ;

    /// Duplicates the container, cloning the value when there is one.
    fn clone(&self) -> (r: Self) where T: Clone
        ensures
            self.value() matches Some(t) ==> (r.value() matches Some(u) && cloned(t, u)),
            self.value() is None ==> r.value() is None,
    ;

    /// Takes the container apart into containers of the parts of its value.
    /// An absent container yields the absent parts.
    fn cast<R>(self) -> (r: T::Output) where T: PerhapsCast<R, Self::Kind>
        ensures
            self.value() matches Some(t) ==> t.is_cast_output(r),
            self.value() is None ==> T::is_empty_output(r),
    ;
}

/// How a kind wraps a value of type `T`.
pub trait Rebind<T>: PerhapsKind {
    /// The container of this kind for a `T`.
    type Out: Perhaps<T, Kind = Self>;

    /// Builds a container from a deferred computation, which runs only for a
    /// present kind.
    fn perhaps_just<F: FnOnce() -> T>(f: F) -> (r: Self::Out)
        requires
            Self::present() ==> f.requires(()),
        ensures
            Self::present() ==> (r.value() matches Some(t) && f.ensures((), t)),
            !Self::present() ==> r.value() is None,
    ;

    /// Builds a container from a deferred computation that may fail. The
    /// computation runs only for a present kind, and only it can fail.
    fn perhaps_with<E, F: FnOnce() -> Result<T, E>>(f: F) -> (r: Result<Self::Out, E>)
        requires
            Self::present() ==> f.requires(()),
        ensures
            Self::present() ==> match r {
                Ok(p) => p.value() matches Some(t) && f.ensures((), Ok(t)),
                Err(e) => f.ensures((), Err(e)),
            },
            !Self::present() ==> (r matches Ok(p) && p.value() is None),
    ;

    /// The container without a value. Only an absent kind can be asked.
    fn empty() -> (r: Self::Out)
        requires
            !Self::present(),
        ensures
            r.value() is None,
    ;
}

/// Reading a run of values held in a container, for containers of this kind.
pub trait RebindVec<T: Copy>: Rebind<T> + Rebind<Vec<T>> {
    /// The value at `i` of the run, if there is a run.
    fn nth(values: &<Self as Rebind<Vec<T>>>::Out, i: usize) -> (r: <Self as Rebind<T>>::Out)
        requires
            values.value() matches Some(v) ==> i < v@.len(),
        ensures
            values.value() matches Some(v) ==> r.value() == Some(v@[i as int]),
            values.value() is None ==> r.value() is None,
    ;

    /// Whether the run has `n` values. A run that is not there has any
    /// length.
    fn has_length(values: &<Self as Rebind<Vec<T>>>::Out, n: usize) -> (ok: bool)
        ensures
            values.value() matches Some(v) ==> ok == (v@.len() == n),
            values.value() is None ==> ok,
    ;
}

impl<T: Copy> RebindVec<T> for Always<()> {
    fn nth(values: &Always<Vec<T>>, i: usize) -> (r: Always<T>) {
        Always(values.0[i])
    }

    fn has_length(values: &Always<Vec<T>>, n: usize) -> (ok: bool) {
        values.0.len() == n
    }
}

impl<T: Copy> RebindVec<T> for Empty {
    fn nth(values: &Empty, i: usize) -> (r: Empty) {
        Empty
    }

    fn has_length(values: &Empty, n: usize) -> (ok: bool) {
        true
    }
}

/// Transformations from a container of `T` to the container of `U` of the same
/// kind.
pub trait PerhapsMap<T, U>: Perhaps<T> where Self::Kind: Rebind<U> {
    /// Applies `f` to the value, if there is one.
    fn map<F: FnOnce(T) -> U>(self, f: F) -> (r: <Self::Kind as Rebind<U>>::Out)
        requires
            self.value() matches Some(t) ==> f.requires((t,)),
        ensures
            self.value() matches Some(t) ==> (r.value() matches Some(u) && f.ensures((t,), u)),
            self.value() is None ==> r.value() is None,
    ;

    /// Applies `f`, which itself returns a container, to the value, if there
    /// is one.
    fn and_then<F: FnOnce(T) -> <Self::Kind as Rebind<U>>::Out>(self, f: F) -> (r: <
        Self::Kind as Rebind<U>
    >::Out)
        requires
            self.value() matches Some(t) ==> f.requires((t,)),
        ensures
            self.value() matches Some(t) ==> f.ensures((t,), r),
            self.value() is None ==> r.value() is None,
    ;

    /// Converts the value, if there is one, through `Into`.
    fn into(self) -> (r: <Self::Kind as Rebind<U>>::Out) where T: Into<U>
        ensures
            self.value() matches Some(t) ==> (r.value() matches Some(u) && call_ensures(
                <T as Into<U>>::into,
                (t,),
                u,
            )),
            self.value() is None ==> r.value() is None,
    ;
}

/// A shared view into a container.
pub trait PerhapsView<T>: Perhaps<T> {
    /// Borrows the value, if there is one.
    fn view<'a>(&'a self) -> (r: <Self::Kind as Rebind<&'a T>>::Out) where
        Self::Kind: Rebind<&'a T>,
        T: 'a,

        ensures
            self.value() matches Some(t) ==> r.value() == Some(&t),
            self.value() is None ==> r.value() is None,
    ;
}

/// An exclusive view into a container.
pub trait PerhapsViewMut<T>: Perhaps<T> {
    /// Borrows the value mutably, if there is one. What is written through
    /// the borrow is what the container holds afterwards.
    fn view_mut<'a>(&'a mut self) -> (r: <Self::Kind as Rebind<&'a mut T>>::Out) where
        Self::Kind: Rebind<&'a mut T>,
        T: 'a,

        ensures
            old(self).value() matches Some(t) ==> (r.value() matches Some(m) && *m == t
                && final(self).value() == Some(*final(m))),
            old(self).value() is None ==> r.value() is None && final(self).value() is None,
    ;
}

impl PerhapsKind for Always<()> {
    open spec fn present() -> bool {
        true
    }
}

impl PerhapsKind for Empty {
    open spec fn present() -> bool {
        false
    }
}

impl<T> Always<T> {
    /// Wraps the result of `f`.
    pub fn just<R, F: FnOnce() -> R>(f: F) -> (r: Always<R>)
        requires
            f.requires(()),
        ensures
            f.ensures((), r.0),
    {
        Always(f())
    }

    /// Wraps the result of `f`, or hands on its error.
    pub fn with<R, E, F: FnOnce() -> Result<R, E>>(f: F) -> (r: Result<Always<R>, E>)
        requires
            f.requires(()),
        ensures
            match r {
                Ok(p) => f.ensures((), Ok(p.0)),
                Err(e) => f.ensures((), Err(e)),
            },
    {
        match f() {
            Ok(v) => Ok(Always(v)),
            Err(e) => Err(e),
        }
    }
}

impl Empty {
    /// Ignores `f` and returns the container without a value.
    pub fn just<R, F: FnOnce() -> R>(f: F) -> (r: Empty) {
        Empty
    }

    /// Ignores `f` and succeeds with the container without a value.
    pub fn with<R, E, F: FnOnce() -> Result<R, E>>(f: F) -> (r: Result<Empty, E>)
        ensures
            r is Ok,
    {
        Ok(Empty)
    }
}

impl<T> Rebind<T> for Always<()> {
    type Out = Always<T>;

    fn perhaps_just<F: FnOnce() -> T>(f: F) -> (r: Always<T>) {
        Always(f())
    }

    fn perhaps_with<E, F: FnOnce() -> Result<T, E>>(f: F) -> (r: Result<Always<T>, E>) {
        match f() {
            Ok(v) => Ok(Always(v)),
            Err(e) => Err(e),
        }
    }

    fn empty() -> (r: Always<T>) {
        vstd::pervasive::unreached()
    }
}

impl<T> Rebind<T> for Empty {
    type Out = Empty;

    fn perhaps_just<F: FnOnce() -> T>(f: F) -> (r: Empty) {
        Empty
    }

    fn perhaps_with<E, F: FnOnce() -> Result<T, E>>(f: F) -> (r: Result<Empty, E>) {
        Ok(Empty)
    }

    fn empty() -> (r: Empty) {
        Empty
    }
}

impl<T> Perhaps<T> for Always<T> {
    type Kind = Always<()>;

    open spec fn value(&self) -> Option<T> {
        Some(self.0)
    }

    proof fn presence(&self) {
    }

    fn take(self) -> (r: T) {
        self.0
    }

    fn snag(&self) -> (r: &T) {
        &self.0
    }

    fn clone(&self) -> (r: Self) where T: Clone {
        Always(self.0.clone())
    }

    fn cast<R>(self) -> (r: T::Output) where T: PerhapsCast<R, Always<()>> {
        self.0.cast()
    }
}

impl<T> Perhaps<T> for Empty {
    type Kind = Empty;

    open spec fn value(&self) -> Option<T> {
        None
    }

    proof fn presence(&self) {
    }

    fn take(self) -> (r: T) {
        vstd::pervasive::unreached()
    }

    fn snag(&self) -> (r: &T) {
        vstd::pervasive::unreached()
    }

    fn clone(&self) -> (r: Self) where T: Clone {
        Empty
    }

    fn cast<R>(self) -> (r: T::Output) where T: PerhapsCast<R, Empty> {
        T::empty()
    }
}

impl<T, U> PerhapsMap<T, U> for Always<T> {
    fn map<F: FnOnce(T) -> U>(self, f: F) -> (r: Always<U>) {
        Always(f(self.0))
    }

    fn and_then<F: FnOnce(T) -> Always<U>>(self, f: F) -> (r: Always<U>) {
        f(self.0)
    }

    fn into(self) -> (r: Always<U>) where T: Into<U> {
        Always(self.0.into())
    }
}

impl<T, U> PerhapsMap<T, U> for Empty {
    fn map<F: FnOnce(T) -> U>(self, f: F) -> (r: Empty) {
        Empty
    }

    fn and_then<F: FnOnce(T) -> Empty>(self, f: F) -> (r: Empty) {
        Empty
    }

    fn into(self) -> (r: Empty) where T: Into<U> {
        Empty
    }
}

impl<T> PerhapsView<T> for Always<T> {
    fn view<'a>(&'a self) -> (r: <Always<()> as Rebind<&'a T>>::Out) where T: 'a {
        Always(&self.0)
    }
}

impl<T> PerhapsView<T> for Empty {
    fn view<'a>(&'a self) -> (r: <Empty as Rebind<&'a T>>::Out) where T: 'a {
        Empty
    }
}

impl<T> PerhapsViewMut<T> for Always<T> {
    fn view_mut<'a>(&'a mut self) -> (r: <Always<()> as Rebind<&'a mut T>>::Out) where T: 'a {
        Always(&mut self.0)
    }
}

impl<T> PerhapsViewMut<T> for Empty {
    fn view_mut<'a>(&'a mut self) -> (r: <Empty as Rebind<&'a mut T>>::Out) where T: 'a {
        Empty
    }
}

/// A pair is taken apart into a container for each half.
impl<A, B, K: Rebind<A> + Rebind<B>> PerhapsCast<(A, B), K> for (A, B) {
    type Output = (<K as Rebind<A>>::Out, <K as Rebind<B>>::Out);

    open spec fn is_empty_output(out: Self::Output) -> bool {
        out.0.value() is None && out.1.value() is None
    }

    open spec fn is_cast_output(self, out: Self::Output) -> bool {
        out.0.value() == Some(self.0) && out.1.value() == Some(self.1)
    }

    fn empty() -> (r: Self::Output) {
        (<K as Rebind<A>>::empty(), <K as Rebind<B>>::empty())
    }

    fn cast(self) -> (r: Self::Output) {
        let (a, b) = self;
        let first = <K as Rebind<A>>::perhaps_just(move || -> (x: A) ensures x == a { a });
        let second = <K as Rebind<B>>::perhaps_just(move || -> (y: B) ensures y == b { b });
        (first, second)
    }
}

} // verus!
