//! Work that runs elsewhere and is asked for its result without waiting.

use std::future::Future;
use std::task::Waker;
use vstd::prelude::*;

verus! {

/// The handle by which work wakes the one who polls it. Nothing is known of a
/// value of it here.
#[verifier::external_type_specification]
#[verifier::external_body]
pub struct ExWaker(Waker);

/// Calls `Future::poll` once, with a context made of `waker`, and gives the
/// result where the work is done. Whether it is done is not known beforehand.
#[verifier::external_body]
fn poll_once<F: Future + Unpin>(future: &mut F, waker: &Waker) -> (r: Option<F::Output>) {
    let mut cx = std::task::Context::from_waker(waker);
    match std::pin::Pin::new(future).poll(&mut cx) {
        std::task::Poll::Ready(res) => Some(res),
        std::task::Poll::Pending => None,
    }
}

/// A place for one piece of work and for the last result that came in. It is
/// asked, never waited for.
pub struct Promise<F: Future> {
    waker: Waker,
    future: Option<F>,
    last_result: Option<F::Output>,
}

impl<F: Future + Unpin> Promise<F> {
    /// The work that is under way, if there is any.
    pub closed spec fn work(&self) -> Option<F> {
        self.future
    }

    /// Whether work is under way.
    pub open spec fn pending(&self) -> bool {
        self.work() is Some
    }

    /// The result that is held, if there is one.
    pub closed spec fn held(&self) -> Option<F::Output> {
        self.last_result
    }

    /// A promise without work and without a result.
    pub fn new(waker: Waker) -> (r: Self)
        ensures
            r.work() is None,
            r.held() is None,
    {
        Self { waker, future: None, last_result: None }
    }

    /// A promise with `future` under way.
    pub fn launched(waker: Waker, future: F) -> (r: Self)
        ensures
            r.work() == Some(future),
            r.held() is None,
    {
        let mut slf = Self::new(waker);
        slf.launch(future);
        slf
    }

    /// Puts `future` under way, in place of the work that was. The result that
    /// is held stays.
    pub fn launch(&mut self, future: F)
        ensures
            final(self).work() == Some(future),
            final(self).held() == old(self).held(),
    {
        self.future = Some(future);
    }

    pub fn is_pending(&self) -> (r: bool)
        ensures
            r == self.pending(),
    {
        self.future.is_some()
    }

    /// Holds `response` as the result, as if work had given it.
    pub fn set_response(&mut self, response: F::Output)
        ensures
            final(self).work() == old(self).work(),
            final(self).held() == Some(response),
    {
        self.last_result = Some(response);
    }

    /// Takes in what polling the work gave: where it gave a result, the work is
    /// over and the result is held; where it gave none, nothing changes.
    pub fn settle(&mut self, outcome: Option<F::Output>)
        ensures
            match outcome {
                Some(res) => final(self).work() is None && final(self).held() == Some(res),
                None => final(self).work() == old(self).work() && final(self).held() == old(self).held(),
            },
    {
        if let Some(res) = outcome {
            self.future = None;
            self.last_result = Some(res);
        }
    }

    fn poll_future(&mut self)
        ensures
            !old(self).pending() ==> !final(self).pending() && final(self).held() == old(self).held(),
            old(self).pending() ==> (final(self).pending() && final(self).held() == old(self).held())
                || (!final(self).pending() && final(self).held() is Some),
    {
        let outcome: Option<F::Output> = match &mut self.future {
            Some(future) => poll_once(future, &self.waker),
            None => None,
        };
        self.settle(outcome);
    }

    /// Polls the work, if any is under way, and shows the result that is then
    /// held. Without work under way the result is the one that was held.
    pub fn response(&mut self) -> (r: Option<&F::Output>)
        ensures
            match r {
                Some(res) => final(self).held() == Some(*res),
                None => final(self).held() is None,
            },
            !old(self).pending() ==> !final(self).pending() && final(self).held() == old(self).held(),
            old(self).pending() ==> (final(self).pending() && final(self).held() == old(self).held())
                || (!final(self).pending() && final(self).held() is Some),
    {
        self.poll_future();
        self.last_result.as_ref()
    }

    /// Polls the work, if any is under way, and hands out the result that is
    /// then held; nothing is held afterwards.
    pub fn take_response(&mut self) -> (r: Option<F::Output>)
        ensures
            final(self).held() is None,
            !old(self).pending() ==> !final(self).pending() && r == old(self).held(),
            old(self).pending() ==> (final(self).pending() && r == old(self).held())
                || (!final(self).pending() && r is Some),
    {
        self.poll_future();
        self.last_result.take()
    }
}

} // verus!
