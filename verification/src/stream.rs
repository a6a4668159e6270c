//! The decisions of the streaming bridge.  The host runs a generation on a
//! worker and forwards its tokens through a bounded channel; what the worker
//! does next, and how a stream ends, is decided here.

use vstd::prelude::*;
use crate::error::EngineError;
use crate::pipeline::Generation;

verus! {

/// Why a stream ended.
#[derive(Clone, Copy, Debug, PartialEq, Eq, Structural)]
pub enum StreamEnd {
    /// The generation reached its last token.
    Finished,
    /// The host asked the generation to stop.
    Cancelled,
    /// A step of the generation failed.
    Failed(EngineError),
}

/// What the worker does before a step.
#[derive(Clone, Copy, Debug, PartialEq, Eq, Structural)]
pub enum Poll {
    /// Take the next step of the generation.
    Step,
    /// Close the stream for the given reason.
    Close(StreamEnd),
}

/// What the worker does with the outcome of a step.
pub enum Action {
    /// Send the token to the consumer and go on.
    Emit(Generation),
    /// Send the token to the consumer, then close the stream: it was the
    /// last.
    EmitLast(Generation),
    /// Close the stream for the given reason without sending anything.
    Close(StreamEnd),
}

/// The state of one stream: the number of tokens sent and, once it has
/// ended, why.
#[derive(Clone, Copy, Debug, PartialEq, Eq, Structural)]
pub struct Bridge {
    /// The number of tokens sent to the consumer.
    pub emitted: usize,
    /// Why the stream ended, once it has.
    pub ended: Option<StreamEnd>,
}

impl Bridge {
    /// The state after the worker has looked at the cancellation signal: a
    /// running stream that sees the signal ends as cancelled, and nothing
    /// else changes.
    pub open spec fn after_poll(self, cancel_signalled: bool) -> Bridge {
        match self.ended {
            Some(_) => self,
            None => if cancel_signalled {
                Bridge { emitted: self.emitted, ended: Some(StreamEnd::Cancelled) }
            } else {
                self
            },
        }
    }

    /// What the worker does before a step: close a stream that has ended,
    /// for its first reason, and step otherwise.
    pub open spec fn poll_result(self, cancel_signalled: bool) -> Poll {
        match self.after_poll(cancel_signalled).ended {
            Some(end) => Poll::Close(end),
            None => Poll::Step,
        }
    }

    /// The state after the outcome of a step: a running stream counts a
    /// token, and ends on the last token, on an error and on a generation
    /// that has nothing more to give; a stream that has ended stays as it is.
    pub open spec fn after_item(self, item: Option<Result<Generation, EngineError>>) -> Bridge {
        match self.ended {
            Some(_) => self,
            None => match item {
                None => Bridge { emitted: self.emitted, ended: Some(StreamEnd::Finished) },
                Some(Err(e)) => Bridge { emitted: self.emitted, ended: Some(StreamEnd::Failed(e)) },
                Some(Ok(g)) => Bridge {
                    emitted: if self.emitted < usize::MAX {
                        (self.emitted + 1) as usize
                    } else {
                        self.emitted
                    },
                    ended: if g.generated_text is Some {
                        Some(StreamEnd::Finished)
                    } else {
                        None
                    },
                },
            },
        }
    }

    /// What the worker does with the outcome of a step: a token is sent only
    /// while the stream runs.
    pub open spec fn action_for(self, item: Option<Result<Generation, EngineError>>) -> Action {
        match self.ended {
            Some(end) => Action::Close(end),
            None => match item {
                None => Action::Close(StreamEnd::Finished),
                Some(Err(e)) => Action::Close(StreamEnd::Failed(e)),
                Some(Ok(g)) => if g.generated_text is Some {
                    Action::EmitLast(g)
                } else {
                    Action::Emit(g)
                },
            },
        }
    }

    /// A stream that has sent nothing yet.
    pub fn new() -> (b: Bridge)
        ensures
            b == (Bridge { emitted: 0, ended: None }),
    {
        Bridge { emitted: 0, ended: None }
    }

    /// The number of tokens sent to the consumer.
    pub fn emitted_count(&self) -> (n: usize)
        ensures
            n == self.emitted,
    {
        self.emitted
    }

    /// Why the stream ended, once it has.
    pub fn end(&self) -> (e: Option<StreamEnd>)
        ensures
            e == self.ended,
    {
        self.ended
    }

    /// Decides, before a step, whether to take it.  The cancellation signal
    /// is looked at here, once per token.
    pub fn poll(&mut self, cancel_signalled: bool) -> (p: Poll)
        ensures
            *final(self) == old(self).after_poll(cancel_signalled),
            p == old(self).poll_result(cancel_signalled),
    {
        match self.ended {
            Some(end) => Poll::Close(end),
            None => {
                if cancel_signalled {
                    self.ended = Some(StreamEnd::Cancelled);
                    Poll::Close(StreamEnd::Cancelled)
                } else {
                    Poll::Step
                }
            },
        }
    }

    /// Decides what to do with the outcome of a step.
    pub fn on_item(&mut self, item: Option<Result<Generation, EngineError>>) -> (a: Action)
        ensures
            *final(self) == old(self).after_item(item),
            a == old(self).action_for(item),
    {
        match self.ended {
            Some(end) => Action::Close(end),
            None => match item {
                None => {
                    self.ended = Some(StreamEnd::Finished);
                    Action::Close(StreamEnd::Finished)
                },
                Some(Err(err)) => {
                    self.ended = Some(StreamEnd::Failed(err));
                    Action::Close(StreamEnd::Failed(err))
                },
                Some(Ok(g)) => {
                    if self.emitted < usize::MAX {
                        self.emitted = self.emitted + 1;
                    }
                    if g.generated_text.is_some() {
                        self.ended = Some(StreamEnd::Finished);
                        Action::EmitLast(g)
                    } else {
                        Action::Emit(g)
                    }
                },
            },
        }
    }

    /// A cancellation signal seen after `k` tokens ends the stream as
    /// cancelled, which is no error, with `k` tokens sent.
    pub proof fn lemma_cancel_closes_cleanly(self)
        requires
            self.ended is None,
        ensures
            self.after_poll(true).ended == Some(StreamEnd::Cancelled),
            self.after_poll(true).emitted == self.emitted,
            self.poll_result(true) == Poll::Close(StreamEnd::Cancelled),
    {
    }

    /// Once a stream has ended, whatever the worker is told afterwards, the
    /// state stays as it is and nothing is sent: after a cancellation no
    /// further token is emitted, and the stream stays cancelled.
    pub proof fn lemma_end_is_final(
        self,
        later_signal: bool,
        later_item: Option<Result<Generation, EngineError>>,
    )
        requires
            self.ended is Some,
        ensures
            self.after_poll(later_signal) == self,
            self.poll_result(later_signal) == Poll::Close(self.ended.unwrap()),
            self.after_item(later_item) == self,
            self.action_for(later_item) == Action::Close(self.ended.unwrap()),
    {
    }

    /// Tokens are counted one by one: a step sends at most one.
    pub proof fn lemma_one_token_per_step(self, item: Option<Result<Generation, EngineError>>)
        ensures
            self.emitted <= self.after_item(item).emitted <= self.emitted + 1,
            self.after_item(item).emitted > self.emitted ==> (self.ended is None && item matches Some(
                Ok(_),
            )),
    {
    }
}

/// The runs of one session.  At most one run produces tokens at a time: a
/// new run is installed only together with the order to cancel the run before
/// it, if that one is still going.
#[derive(Clone, Copy, Debug, PartialEq, Eq, Structural)]
pub struct Session {
    running: Option<u64>,
    started: u64,
}

impl Session {
    /// The run that is producing tokens, if any.
    pub closed spec fn running(&self) -> Option<u64> {
        self.running
    }

    /// The number of runs started so far.
    pub closed spec fn started(&self) -> nat {
        self.started as nat
    }

    /// A session without a run.
    pub fn new() -> (s: Session)
        ensures
            s.running() is None,
            s.started() == 0,
    {
        Session { running: None, started: 0 }
    }

    /// Installs a new run.  It returns the run's number and the run to
    /// cancel first: the one that was producing until now, if any.  There is
    /// no run to install once the numbers are used up.
    pub fn begin(&mut self) -> (r: Option<(u64, Option<u64>)>)
        ensures
            match r {
                Some((id, cancel)) => {
                    &&& id == old(self).started()
                    &&& cancel == old(self).running()
                    &&& final(self).running() == Some(id)
                    &&& final(self).started() == old(self).started() + 1
                },
                None => old(self).started() == u64::MAX && *final(self) == *old(self),
            },
    {
        if self.started == u64::MAX {
            return None;
        }
        let id = self.started;
        let cancel = self.running;
        self.running = Some(id);
        self.started = self.started + 1;
        Some((id, cancel))
    }

    /// Records that a run has ended.  It frees the session only if that run
    /// is the one producing: a run that was cancelled for a newer one changes
    /// nothing.
    pub fn finish(&mut self, id: u64)
        ensures
            final(self).started() == old(self).started(),
            final(self).running() == if old(self).running() == Some(id) {
                None
            } else {
                old(self).running()
            },
    {
        if self.running == Some(id) {
            self.running = None;
        }
    }
}

} // verus!
