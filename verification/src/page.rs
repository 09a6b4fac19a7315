//! The cursor-pagination engine behind `get_all`.
//!
//! One `get_all` call walks a server-side cursor to completion: an initial
//! query yields a first batch and an optional continuation identifier, and
//! each continuation fetch yields the next batch, until a batch arrives
//! without a continuation identifier. The engine here is the decision part
//! of that walk: a state machine fed one fetch outcome at a time. The
//! caller (verified against a modelled collection, or unverified glue
//! against a real connection) performs the fetches and hands the outcomes
//! in; the engine accumulates the documents and decides what to do next.
//!
//! A failed continuation fetch poisons the run: finishing after a failure
//! yields `QueryError`, never a silently truncated document sequence.

use vstd::prelude::*;

use crate::error::EngineError;

verus! {

/// The number of documents requested per batch.
pub const PAGE_SIZE: usize = 25;

/// One fetch outcome: the documents of a batch, and the continuation
/// identifier under which the next batch can be fetched, if there is one.
pub struct Batch<T, C> {
    /// The documents of this batch, in server order.
    pub items: Vec<T>,
    /// The identifier of the next batch; `None` on the last batch.
    pub continuation: Option<C>,
}

/// Where a pagination run stands.
pub enum PageState<C> {
    /// The initial query has been issued; its batch has not arrived yet.
    Pending,
    /// A continuation fetch under this identifier is outstanding.
    Fetching(C),
    /// The last batch has arrived; the run is complete.
    Done,
    /// A fetch failed; the run is poisoned and yields `QueryError`.
    Failed,
}

/// The pagination state machine of one `get_all` call. It owns the
/// collected result for the duration of the run; the result is the
/// concatenation of the batches fed in, in arrival order.
pub struct Paginator<T, C> {
    collected: Vec<T>,
    state: PageState<C>,
}

impl<T, C> Paginator<T, C> {
    /// The documents collected so far, in batch-arrival order.
    pub closed spec fn collected(&self) -> Seq<T> {
        self.collected@
    }

    /// The run's current state.
    pub closed spec fn state(&self) -> PageState<C> {
        self.state
    }

    /// Whether the run still waits for a batch.
    pub open spec fn is_fetching(&self) -> bool {
        self.state() is Pending || self.state() is Fetching
    }

    /// A fresh run, right after the initial query was issued: nothing
    /// collected, first batch outstanding.
    pub fn new() -> (p: Self)
        ensures
            p.collected() == Seq::<T>::empty(),
            p.state() is Pending,
    {
        Paginator { collected: Vec::new(), state: PageState::Pending }
    }

    /// The identifier the caller must fetch next, if any. `None` once the
    /// initial batch is outstanding or the run has ended.
    pub fn next_continuation(&self) -> (r: Option<&C>)
        ensures
            match r {
                Some(c) => self.state() == PageState::Fetching(*c),
                None => !(self.state() is Fetching),
            },
    {
        match &self.state {
            PageState::Fetching(c) => Some(c),
            _ => None,
        }
    }

    /// Whether the run has ended, in success or failure.
    pub fn is_finished(&self) -> (r: bool)
        ensures
            r == (self.state() is Done || self.state() is Failed),
    {
        match &self.state {
            PageState::Done => true,
            PageState::Failed => true,
            _ => false,
        }
    }

    /// Feed the batch that answered the outstanding fetch. Its documents
    /// are appended to the collected result in order; its continuation
    /// identifier, if any, becomes the next fetch, and its absence ends
    /// the run.
    pub fn on_batch(&mut self, batch: Batch<T, C>)
        requires
            old(self).is_fetching(),
        ensures
            final(self).collected() == old(self).collected() + batch.items@,
            final(self).state() == (match batch.continuation {
                Some(c) => PageState::Fetching(c),
                None => PageState::<C>::Done,
            }),
    {
        let Batch { mut items, continuation } = batch;
        self.collected.append(&mut items);
        self.state = match continuation {
            Some(c) => PageState::Fetching(c),
            None => PageState::Done,
        };
    }

    /// Record that the outstanding fetch failed. The run is poisoned:
    /// whatever was collected so far will not be returned as a success.
    pub fn on_fetch_error(&mut self)
        requires
            old(self).is_fetching(),
        ensures
            final(self).state() is Failed,
            final(self).collected() == old(self).collected(),
    {
        self.state = PageState::Failed;
    }

    /// The result a closed run yields: every collected document in
    /// arrival order for a complete run, `QueryError` for a poisoned one.
    pub open spec fn spec_outcome(&self) -> Result<Seq<T>, EngineError>
        recommends
            self.state() is Done || self.state() is Failed,
    {
        if self.state() is Done {
            Ok(self.collected())
        } else {
            Err(EngineError::QueryError)
        }
    }

    /// Close the run. A complete run yields every collected document in
    /// arrival order; a poisoned run yields `QueryError` and no documents.
    pub fn finish(self) -> (r: Result<Vec<T>, EngineError>)
        requires
            self.state() is Done || self.state() is Failed,
        ensures
            r is Ok <==> self.spec_outcome() is Ok,
            r is Ok ==> r->Ok_0@ == self.spec_outcome()->Ok_0,
            r is Err ==> r->Err_0 == self.spec_outcome()->Err_0,
    {
        match self.state {
            PageState::Done => Ok(self.collected),
            _ => Err(EngineError::QueryError),
        }
    }

    /// A run that saw a fetch failure yields `QueryError` and nothing
    /// else: whatever documents were already collected, a poisoned run
    /// never surfaces a truncated sequence as success.
    pub proof fn lemma_failed_run_yields_query_error(p: &Paginator<T, C>)
        requires
            p.state() is Failed,
        ensures
            p.spec_outcome() == Err::<Seq<T>, EngineError>(EngineError::QueryError),
    {
    }
}

} // verus!
