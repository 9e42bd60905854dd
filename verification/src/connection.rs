//! One connection of a client, as far as its calls are concerned.
//!
//! A connection carries one call at a time: a frame goes out, and what comes
//! in next is the answer to it. `Connection` keeps that turn-taking and,
//! for the proofs, the record of what was sent and what was answered. The
//! socket and the waiting are the caller's; a caller that finds the
//! connection taken waits for its turn.

use crate::client::{connect_outcome, received, Opening, WsMessage};
use crate::error::WebTonicError;
use vstd::prelude::*;

verus! {

/// How a call on the wire ended: with the frame that answered it, or with
/// an error.
pub type Outcome = Result<Seq<u8>, WebTonicError>;

/// What a `Connection` stands for.
pub ghost struct ConnectionView {
    /// Whether a frame went out whose answer has not come in.
    pub waiting: bool,
    /// The frames that went out, in order.
    pub sent: Seq<Seq<u8>>,
    /// How the calls ended, in order.
    pub answers: Seq<Outcome>,
}

/// What a call comes to on the wire: where its frame could not be sent, a
/// `ConnectionError`; else a message is its answer, an error of the socket a
/// `ConnectionError`, and a close, or a socket that is gone, is
/// `ConnectionClosed`.
pub open spec fn call_outcome(sent: bool, event: Option<WsMessage>) -> Outcome {
    if !sent {
        Err(WebTonicError::ConnectionError)
    } else {
        match event {
            Some(WsMessage::Message(bytes)) => Ok(bytes@),
            Some(WsMessage::Error(_)) => Err(WebTonicError::ConnectionError),
            Some(WsMessage::Close) => Err(WebTonicError::ConnectionClosed),
            None => Err(WebTonicError::ConnectionClosed),
        }
    }
}

/// The view of how a call ended.
pub open spec fn outcome_view(r: Result<Vec<u8>, WebTonicError>) -> Outcome {
    match r {
        Ok(bytes) => Ok(bytes@),
        Err(e) => Err(e),
    }
}

impl ConnectionView {
    /// A connection on which nothing has happened yet.
    pub open spec fn fresh() -> ConnectionView {
        ConnectionView { waiting: false, sent: Seq::empty(), answers: Seq::empty() }
    }

    /// Frames and answers go in step: every frame has its answer, but for
    /// the last one while the connection waits.
    pub open spec fn in_step(self) -> bool {
        self.sent.len() == self.answers.len() + (if self.waiting {
            1nat
        } else {
            0nat
        })
    }

    /// The connection after a call asked for its turn with `frame`: where
    /// the connection is free, the frame goes out and the connection waits;
    /// where it waits already, nothing changes.
    pub open spec fn begun(self, frame: Seq<u8>) -> ConnectionView {
        if self.waiting {
            self
        } else {
            ConnectionView { waiting: true, sent: self.sent.push(frame), ..self }
        }
    }

    /// The connection after the call that it waited for has ended: the
    /// outcome is that call's, and the connection is free. Where no call
    /// waits, nothing changes.
    pub open spec fn finished(self, outcome: Outcome) -> ConnectionView {
        if self.waiting {
            ConnectionView { waiting: false, answers: self.answers.push(outcome), ..self }
        } else {
            self
        }
    }

    /// The connection after a run of calls, each begun and ended before the
    /// next: a call is its frame and how it ends.
    pub open spec fn after_calls(self, calls: Seq<(Seq<u8>, Outcome)>) -> ConnectionView
        decreases calls.len(),
    {
        if calls.len() == 0 {
            self
        } else {
            self.after_calls(calls.drop_last()).begun(calls.last().0).finished(calls.last().1)
        }
    }

    /// Calls that are issued one after the other send one frame each, in
    /// the order of the calls and with the bytes unchanged, and each call
    /// ends with what came in for it, in the same order. After them the
    /// connection is free again.
    pub proof fn lemma_calls_in_order(self, calls: Seq<(Seq<u8>, Outcome)>)
        requires
            self.in_step(),
            !self.waiting,
        ensures
            ({
                let end = self.after_calls(calls);
                &&& !end.waiting
                &&& end.in_step()
                &&& end.sent == self.sent + calls.map_values(|c: (Seq<u8>, Outcome)| c.0)
                &&& end.answers == self.answers + calls.map_values(|c: (Seq<u8>, Outcome)| c.1)
            }),
        decreases calls.len(),
    {
        let frames = calls.map_values(|c: (Seq<u8>, Outcome)| c.0);
        let outcomes = calls.map_values(|c: (Seq<u8>, Outcome)| c.1);
        if calls.len() == 0 {
            assert(self.sent + frames =~= self.sent);
            assert(self.answers + outcomes =~= self.answers);
        } else {
            let front = calls.drop_last();
            self.lemma_calls_in_order(front);
            let end = self.after_calls(calls);
            assert(end.sent =~= self.sent + frames);
            assert(end.answers =~= self.answers + outcomes);
        }
    }

    /// At most one call is under way: while the connection waits, a call
    /// that asks for its turn sends nothing; and when the call under way
    /// ends, its outcome stands at the place of the frame that was sent
    /// last.
    pub proof fn lemma_one_call_at_a_time(self, frame: Seq<u8>, outcome: Outcome)
        requires
            self.in_step(),
        ensures
            self.begun(frame).in_step(),
            self.finished(outcome).in_step(),
            self.waiting ==> self.begun(frame) == self,
            self.sent.len() <= self.answers.len() + 1,
            self.waiting ==> ({
                let end = self.finished(outcome);
                &&& !end.waiting
                &&& end.sent == self.sent
                &&& end.answers.len() == end.sent.len()
                &&& end.answers[end.sent.len() - 1] == outcome
            }),
    {
    }

    /// A connection that was just opened owes nothing to any other: its
    /// first call sends its one frame and ends with what comes in for it.
    pub proof fn lemma_fresh_serves(frame: Seq<u8>, outcome: Outcome)
        ensures
            ({
                let end = ConnectionView::fresh().begun(frame).finished(outcome);
                &&& ConnectionView::fresh().in_step()
                &&& !end.waiting
                &&& end.sent == seq![frame]
                &&& end.answers == seq![outcome]
            }),
    {
        let end = ConnectionView::fresh().begun(frame).finished(outcome);
        assert(end.sent =~= seq![frame]);
        assert(end.answers =~= seq![outcome]);
    }
}

/// The state of one connection.
pub struct Connection {
    waiting: bool,
    sent: Ghost<Seq<Seq<u8>>>,
    answers: Ghost<Seq<Outcome>>,
}

impl View for Connection {
    type V = ConnectionView;

    closed spec fn view(&self) -> ConnectionView {
        ConnectionView { waiting: self.waiting, sent: self.sent@, answers: self.answers@ }
    }
}

impl Connection {
    /// Frames and answers are in step on every connection.
    #[verifier::type_invariant]
    closed spec fn kept_in_step(&self) -> bool {
        self.sent@.len() == self.answers@.len() + (if self.waiting {
            1nat
        } else {
            0nat
        })
    }

    /// The connection for a socket, given how opening it went: a fresh one
    /// where the socket is open, whatever became of earlier connections;
    /// `InvalidUrl` where the address was refused, `ConnectionError` where
    /// opening failed.
    pub fn open(opening: Opening) -> (r: Result<Connection, WebTonicError>)
        ensures
            match r {
                Ok(connection) => opening == Opening::Opened && connection@
                    == ConnectionView::fresh(),
                Err(e) => match opening {
                    Opening::Refused => e == WebTonicError::InvalidUrl,
                    Opening::Failed => e == WebTonicError::ConnectionError,
                    Opening::Opened => false,
                },
            },
    {
        match connect_outcome(opening) {
            Ok(()) => Ok(
                Connection {
                    waiting: false,
                    sent: Ghost(Seq::empty()),
                    answers: Ghost(Seq::empty()),
                },
            ),
            Err(e) => Err(e),
        }
    }

    /// Whether a frame went out whose answer has not come in. On every
    /// connection, whatever was done with it, frames and answers are in
    /// step: at most one frame is without its answer, and that only while
    /// the connection waits.
    pub fn is_waiting(&self) -> (waiting: bool)
        ensures
            waiting == self@.waiting,
            self@.in_step(),
            self@.sent.len() <= self@.answers.len() + 1,
    {
        proof {
            use_type_invariant(self);
        }
        self.waiting
    }

    /// Asks for the turn of a call whose frame is `frame`. Where the
    /// connection is free, the answer is yes: the frame is to be sent now,
    /// and the connection waits for what comes in. Where it waits for an
    /// earlier call, the answer is no and nothing is to be sent.
    pub fn begin(&mut self, frame: &[u8]) -> (go: bool)
        ensures
            go == !old(self)@.waiting,
            final(self)@ == old(self)@.begun(frame@),
            final(self)@.in_step(),
    {
        proof {
            use_type_invariant(&*self);
        }
        if self.waiting {
            false
        } else {
            *self = Connection {
                waiting: true,
                sent: Ghost(self.sent@.push(frame@)),
                answers: self.answers,
            };
            true
        }
    }

    /// Ends the call that the connection waits for: `sent` says whether its
    /// frame could be handed to the socket, `event` what came in after
    /// that. The result is the frame that answers the call, or the error
    /// that `call_outcome` names, and the connection is free again. Where no
    /// call waits, the result is a `ConnectionError` and nothing changes.
    pub fn finish(&mut self, sent: bool, event: Option<WsMessage>) -> (r: Result<
        Vec<u8>,
        WebTonicError,
    >)
        ensures
            old(self)@.waiting ==> outcome_view(r) == call_outcome(sent, event) && final(self)@
                == old(self)@.finished(call_outcome(sent, event)),
            !old(self)@.waiting ==> r == Err::<Vec<u8>, WebTonicError>(
                WebTonicError::ConnectionError,
            ) && final(self)@ == old(self)@,
            final(self)@.in_step(),
    {
        proof {
            use_type_invariant(&*self);
        }
        if !self.waiting {
            return Err(WebTonicError::ConnectionError);
        }
        let ghost outcome = call_outcome(sent, event);
        let r = if sent {
            received(event)
        } else {
            Err(WebTonicError::ConnectionError)
        };
        *self = Connection {
            waiting: false,
            sent: self.sent,
            answers: Ghost(self.answers@.push(outcome)),
        };
        r
    }
}

} // verus!
