//! Typed, stable indices into the tables of frames and grids.

use std::marker::PhantomData;
use vstd::prelude::*;

verus! {

/// An opaque index into a table whose entries are tagged by `T`.
///
/// A handle is only a number: it stays valid for as long as the table it was
/// issued by lives, because tables only ever grow.
#[derive(Debug)]
pub struct Handle<T> {
    index: usize,
    _t: PhantomData<T>,
}

/// An optional handle, read as an optional index.
pub trait FallableHandleLike {
    /// The index that the value names, if it names one.
    spec fn spec_index(&self) -> Option<nat>;

    fn index(&self) -> (i: Option<usize>)
        ensures
            index_view(i) == self.spec_index(),
    ;
}

/// A value that stands for exactly one index.
pub trait HandleLike: Sized {
    /// The index that the handle names.
    spec fn spec_index(&self) -> nat;

    fn new(i: usize) -> (h: Self)
        ensures
            h.spec_index() == i,
    ;

    fn index(&self) -> (i: usize)
        ensures
            i == self.spec_index(),
    ;
}

impl<T> Clone for Handle<T> {
    fn clone(&self) -> (h: Self)
        ensures
            h == *self,
    {
        Handle { index: self.index, _t: PhantomData }
    }
}

impl<T> Copy for Handle<T> {

}

impl<T> View for Handle<T> {
    type V = nat;

    closed spec fn view(&self) -> nat {
        self.index as nat
    }
}

impl<T> HandleLike for Handle<T> {
    open spec fn spec_index(&self) -> nat {
        self@
    }

    fn new(i: usize) -> (h: Self) {
        Handle { index: i, _t: PhantomData }
    }

    fn index(&self) -> (i: usize) {
        self.index
    }
}

impl<T: HandleLike> FallableHandleLike for Option<T> {
    open spec fn spec_index(&self) -> Option<nat> {
        match self {
            None => None,
            Some(h) => Some(h.spec_index()),
        }
    }

    fn index(&self) -> (i: Option<usize>) {
        match self {
            None => None,
            Some(h) => Some(h.index()),
        }
    }
}

/// An optional index, as the contracts count it.
pub open spec fn index_view(i: Option<usize>) -> Option<nat> {
    match i {
        Some(n) => Some(n as nat),
        None => None,
    }
}

/// Two handles of one table that name the same index are the same handle.
pub proof fn lemma_handle_by_index<T>(a: Handle<T>, b: Handle<T>)
    requires
        a@ == b@,
    ensures
        a == b,
{
}

} // verus!
