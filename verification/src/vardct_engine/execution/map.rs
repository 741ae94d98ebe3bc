//! The result of one mapping, between the callback that reports it and the stage that takes it.

use vstd::prelude::*;

verus! {

/// A mapping's result, once reported, and who waits for it.
pub struct MapState<E, W> {
    pub result: Option<Result<(), E>>,
    pub waker: Option<W>,
}

/// What a report leads to.
pub enum Reported<W> {
    /// An earlier report stands.
    Ignored,
    /// The report stands, and its waiter is to be woken.
    Stored { waker: Option<W> },
}

impl<E, W> MapState<E, W> {
    /// Nothing was reported, and nobody waits.
    pub fn new() -> (state: Self)
        ensures
            state.result is None,
            state.waker is None,
    {
        MapState { result: None, waker: None }
    }

    /// Reports a result; one that was not taken yet stands.
    pub fn complete(&mut self, result: Result<(), E>) -> (reported: Reported<W>)
        ensures
            match old(self).result {
                Some(_) => reported is Ignored && *final(self) == *old(self),
                None => {
                    &&& reported == (Reported::Stored { waker: old(self).waker })
                    &&& final(self).result == Some(result)
                    &&& final(self).waker is None
                },
            },
    {
        if self.result.is_some() {
            return Reported::Ignored;
        }
        self.result = Some(result);
        Reported::Stored { waker: self.waker.take() }
    }

    /// Takes the result, or leaves word whom to wake.
    pub fn poll(&mut self, waker: W) -> (result: Option<Result<(), E>>)
        ensures
            result == old(self).result,
            final(self).result is None,
            final(self).waker == if old(self).result is None {
                Some(waker)
            } else {
                old(self).waker
            },
    {
        if self.result.is_none() {
            self.waker = Some(waker);
        }
        self.result.take()
    }

    /// Takes the result.
    pub fn take(&mut self) -> (result: Option<Result<(), E>>)
        ensures
            result == old(self).result,
            final(self).result is None,
            final(self).waker == old(self).waker,
    {
        self.result.take()
    }
}

} // verus!
