//! The body of a request or response that came through the tunnel.
//!
//! Such a body is complete when it arrives, so it is read in one go: the
//! first read of data gives all its bytes, the read of trailers after that
//! gives all its trailers, and then the body is at its end. A request or
//! response that came without a body gives nothing on either read.

use crate::codec::{call_to_request, headers_from_wire};
use crate::message::CallView;
use crate::model::{
    body_of_parts, http_body_view, http_headers_view, HttpBody, HttpBodyView, HttpHeader,
    HttpHeaderView,
};
use vstd::prelude::*;

verus! {

/// A body that is read once.
#[derive(Clone, Debug, PartialEq, Eq)]
pub struct OneShotBody {
    data: Option<Vec<u8>>,
    trailers: Vec<HttpHeader>,
}

/// What is left to read of a `OneShotBody`.
pub ghost struct OneShotBodyView {
    /// The bytes that the next read of data gives, if it gives any.
    pub data: Option<Seq<u8>>,
    /// The trailers that are still to come.
    pub trailers: Seq<HttpHeaderView>,
}

impl OneShotBodyView {
    /// What is left to read of a body that has not been read yet.
    pub open spec fn of_body(body: Option<HttpBodyView>) -> OneShotBodyView {
        match body {
            Some(b) => OneShotBodyView { data: Some(b.data), trailers: b.trailers },
            None => OneShotBodyView { data: None, trailers: Seq::empty() },
        }
    }

    /// What a read of trailers gives: all of them, or nothing where there
    /// are none.
    pub open spec fn next_trailers(self) -> Option<Seq<HttpHeaderView>> {
        if self.trailers.len() == 0 {
            None
        } else {
            Some(self.trailers)
        }
    }

    /// Whether nothing is left to read.
    pub open spec fn at_end(self) -> bool {
        self.data.is_none() && self.trailers.len() == 0
    }
}

impl View for OneShotBody {
    type V = OneShotBodyView;

    closed spec fn view(&self) -> OneShotBodyView {
        OneShotBodyView {
            data: match self.data {
                Some(d) => Some(d@),
                None => None,
            },
            trailers: http_headers_view(self.trailers@),
        }
    }
}

/// Reading a fresh body to its end and putting the parts together gives the
/// body back, and the absent body stays absent.
pub proof fn lemma_read_gives_body_back(body: Option<HttpBodyView>)
    ensures
        body_of_parts(
            OneShotBodyView::of_body(body).data,
            OneShotBodyView::of_body(body).next_trailers(),
        ) == body,
{
    match body {
        Some(b) => {
            if b.trailers.len() == 0 {
                assert(b.trailers =~= Seq::empty());
            }
        },
        None => {},
    }
}

/// A body that is there but empty is not an absent body: the request read
/// from a call with a body gives that body's bytes on the first read of
/// data, be they none at all, and its trailers after that; the request read
/// from a call without a body gives nothing on the first read of data.
pub proof fn lemma_empty_is_not_absent(call: CallView)
    requires
        call_to_request(call).is_some(),
    ensures
        ({
            let fresh = OneShotBodyView::of_body(call_to_request(call).unwrap().body);
            match call.body {
                Some(body) => fresh.data == Some(body.body) && Some(fresh.trailers)
                    == headers_from_wire(body.trailers),
                None => fresh.data.is_none() && fresh.at_end(),
            }
        }),
{
}

impl OneShotBody {
    /// The body to hand to the reader of a request or response: `body` where
    /// it came with one, and a body that gives nothing where it did not.
    pub fn new(body: Option<HttpBody>) -> (fresh: OneShotBody)
        ensures
            fresh@ == OneShotBodyView::of_body(http_body_view(body)),
    {
        match body {
            Some(b) => OneShotBody { data: Some(b.data), trailers: b.trailers },
            None => {
                let fresh = OneShotBody { data: None, trailers: Vec::new() };
                proof {
                    assert(fresh@.trailers =~= Seq::empty());
                }
                fresh
            },
        }
    }

    /// The body that gives nothing.
    pub fn empty() -> (fresh: OneShotBody)
        ensures
            fresh@ == OneShotBodyView::of_body(None),
            fresh@.at_end(),
    {
        OneShotBody::new(None)
    }

    /// Reads data: all the body's bytes on the first read, be they none at
    /// all, and nothing after that or where there is no body. The trailers
    /// stay as they are.
    pub fn poll_data(&mut self) -> (data: Option<Vec<u8>>)
        ensures
            match data {
                Some(d) => old(self)@.data == Some(d@),
                None => old(self)@.data.is_none(),
            },
            final(self)@ == (OneShotBodyView { data: None, trailers: old(self)@.trailers }),
    {
        self.data.take()
    }

    /// Reads trailers: all of them at once, and nothing after that or where
    /// there are none. The data stays as it is.
    pub fn poll_trailers(&mut self) -> (trailers: Option<Vec<HttpHeader>>)
        ensures
            match trailers {
                Some(t) => old(self)@.next_trailers() == Some(http_headers_view(t@)),
                None => old(self)@.next_trailers().is_none(),
            },
            final(self)@ == (OneShotBodyView { data: old(self)@.data, trailers: Seq::empty() }),
    {
        if self.trailers.len() == 0 {
            proof {
                assert(self@.trailers =~= Seq::empty());
            }
            None
        } else {
            let mut taken: Vec<HttpHeader> = Vec::new();
            std::mem::swap(&mut self.trailers, &mut taken);
            proof {
                assert(self@.trailers =~= Seq::empty());
            }
            Some(taken)
        }
    }

    /// Whether nothing is left to read.
    pub fn is_end_stream(&self) -> (at_end: bool)
        ensures
            at_end == self@.at_end(),
    {
        self.data.is_none() && self.trailers.len() == 0
    }
}

} // verus!
