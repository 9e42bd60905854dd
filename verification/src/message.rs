//! The framing messages and their wire format.
//!
//! A `Call` travels from client to server and carries a request envelope and
//! an optional body; a `Reply` travels back with a response envelope and an
//! optional body. Both are written in the protobuf wire format with the field
//! numbers given at each type, so that every message that was written reads
//! back as itself.

use crate::body::{
    body_encoding, body_view, body_wire_sized, lemma_payload_body, payload_body, read_body,
    BodyView,
};
use crate::envelope::{
    lemma_payload_request, lemma_payload_response, payload_request, payload_response,
    read_request, read_response, request_view, response_view, RequestView, ResponseView,
};
use crate::error::WebTonicError;
use crate::wire::{
    lemma_next_field_len, lemma_parse_fields_step, len_field, next_field, parse_fields, read_field,
    write_len_field, Field, NESTING_LIMIT,
};
use vstd::prelude::*;
use vstd::slice::slice_subrange;

pub use crate::body::Body;
pub use crate::envelope::{Method, Request, Response};
pub use crate::header::Header;

verus! {

/// A part that may be absent: one length-delimited field where it is there,
/// nothing where it is not.
pub open spec fn optional_field(number: nat, part: Option<Seq<u8>>) -> Seq<u8> {
    match part {
        Some(bytes) => len_field(number, bytes),
        None => Seq::empty(),
    }
}

/// The frame that a client sends: a request envelope and, where the request
/// has one, its body.
#[derive(Clone, Debug, PartialEq, Eq, Default)]
pub struct Call {
    /// Field 1.
    pub request: Option<Request>,
    /// Field 2.
    pub body: Option<Body>,
}

/// What a `Call` stands for.
pub ghost struct CallView {
    pub request: Option<RequestView>,
    pub body: Option<BodyView>,
}

impl View for Call {
    type V = CallView;

    open spec fn view(&self) -> CallView {
        CallView { request: request_view(self.request), body: body_view(self.body) }
    }
}

impl CallView {
    /// The message with neither envelope nor body.
    pub open spec fn empty() -> CallView {
        CallView { request: None, body: None }
    }

    /// The message on the wire.
    pub open spec fn encoding(self) -> Seq<u8> {
        optional_field(
            1,
            match self.request {
                Some(r) => Some(r.encoding()),
                None => None,
            },
        ) + optional_field(2, body_encoding(self.body))
    }

    /// Every length that is written for this message fits in 64 bits.
    pub open spec fn wire_sized(self) -> bool {
        &&& match self.request {
            Some(r) => r.wire_sized() && r.encoding().len() <= u64::MAX,
            None => true,
        }
        &&& body_wire_sized(self.body)
    }

    /// What one field does to a message: field 1 is read onto the envelope,
    /// field 2 onto the body, any other field is stepped over.
    pub open spec fn merge(self, field: Field) -> Option<CallView> {
        if field.number == 1 {
            match payload_request(field.payload, self.request) {
                Some(r) => Some(CallView { request: Some(r), ..self }),
                None => None,
            }
        } else if field.number == 2 {
            match payload_body(field.payload, self.body) {
                Some(b) => Some(CallView { body: Some(b), ..self }),
                None => None,
            }
        } else {
            Some(self)
        }
    }

    /// `merge` as a value.
    pub open spec fn merger() -> spec_fn(CallView, Field) -> Option<CallView> {
        |m: CallView, f: Field| m.merge(f)
    }

    /// Reads the fields in `bytes` onto this message.
    pub open spec fn parse_onto(self, bytes: Seq<u8>) -> Option<CallView> {
        parse_fields(bytes, NESTING_LIMIT as nat, self, CallView::merger())
    }

    /// Reads a message from a frame.
    pub open spec fn parse(bytes: Seq<u8>) -> Option<CallView> {
        CallView::empty().parse_onto(bytes)
    }

    /// A message whose frame fits in 64 bits has every length in it fit.
    pub proof fn lemma_fits(self)
        requires
            self.encoding().len() <= u64::MAX,
        ensures
            self.wire_sized(),
    {
        match self.request {
            Some(r) => {
                r.lemma_fits();
            },
            None => {},
        }
        match self.body {
            Some(b) => {
                b.lemma_fits();
            },
            None => {},
        }
    }

    /// Every message reads back from its frame as itself, so long as the
    /// frame's length fits in 64 bits.
    pub proof fn lemma_round_trip(self)
        requires
            self.encoding().len() <= u64::MAX,
        ensures
            CallView::parse(self.encoding()) == Some(self),
    {
        self.lemma_fits();
        let budget = NESTING_LIMIT as nat;
        let merge = CallView::merger();
        let none = Seq::<u8>::empty();
        let second = optional_field(2, body_encoding(self.body));
        let first = optional_field(
            1,
            match self.request {
                Some(r) => Some(r.encoding()),
                None => None,
            },
        );
        let half = CallView { request: self.request, body: None };
        assert(half.parse_onto(second) == Some(self)) by {
            match self.body {
                Some(b) => {
                    lemma_payload_body(b);
                    lemma_next_field_len(2, b.encoding(), none, budget);
                    let field = next_field(second + none, budget).unwrap();
                    lemma_parse_fields_step(second, none, budget, half, merge, field);
                    assert(second + none =~= second);
                },
                None => {},
            }
        }
        match self.request {
            Some(r) => {
                lemma_payload_request(r);
                lemma_next_field_len(1, r.encoding(), second, budget);
                let field = next_field(first + second, budget).unwrap();
                lemma_parse_fields_step(first, second, budget, CallView::empty(), merge, field);
            },
            None => {
                assert(self.encoding() =~= second);
            },
        }
    }
}

impl Call {
    /// The message's wire form: what goes into one binary frame.
    pub fn encode(&self) -> (frame: Vec<u8>)
        ensures
            frame@ == self@.encoding(),
    {
        let mut out: Vec<u8> = Vec::new();
        match &self.request {
            Some(r) => {
                let mut payload: Vec<u8> = Vec::new();
                r.encode_into(&mut payload);
                write_len_field(1, payload.as_slice(), &mut out);
            },
            None => {},
        }
        match &self.body {
            Some(b) => {
                let mut payload: Vec<u8> = Vec::new();
                b.encode_into(&mut payload);
                write_len_field(2, payload.as_slice(), &mut out);
            },
            None => {},
        }
        proof {
            assert(out@ =~= self@.encoding());
        }
        out
    }

    /// Reads a message from a frame. Fails with `DecodingError` exactly
    /// where the frame is not the wire form of a message.
    pub fn decode(frame: &[u8]) -> (r: Result<Call, WebTonicError>)
        ensures
            match r {
                Ok(message) => CallView::parse(frame@) == Some(message@),
                Err(e) => e == WebTonicError::DecodingError && CallView::parse(frame@).is_none(),
            },
    {
        let mut request: Option<Request> = None;
        let mut body: Option<Body> = None;
        let mut rest = frame;
        while rest.len() > 0
            invariant
                CallView::parse(frame@) == (CallView {
                    request: request_view(request),
                    body: body_view(body),
                }).parse_onto(rest@),
            decreases rest@.len(),
        {
            match read_field(rest, NESTING_LIMIT) {
                Some(field) => {
                    if field.number == 1 {
                        match read_request(&field.value, request) {
                            Some(r) => {
                                request = Some(r);
                            },
                            None => {
                                return Err(WebTonicError::DecodingError);
                            },
                        }
                    } else if field.number == 2 {
                        match read_body(&field.value, body) {
                            Some(b) => {
                                body = Some(b);
                            },
                            None => {
                                return Err(WebTonicError::DecodingError);
                            },
                        }
                    }
                    rest = slice_subrange(rest, field.size, rest.len());
                },
                None => {
                    return Err(WebTonicError::DecodingError);
                },
            }
        }
        Ok(Call { request, body })
    }
}

/// The frame that a server sends back: a response envelope and, where the
/// response has one, its body.
#[derive(Clone, Debug, PartialEq, Eq, Default)]
pub struct Reply {
    /// Field 1.
    pub response: Option<Response>,
    /// Field 2.
    pub body: Option<Body>,
}

/// What a `Reply` stands for.
pub ghost struct ReplyView {
    pub response: Option<ResponseView>,
    pub body: Option<BodyView>,
}

impl View for Reply {
    type V = ReplyView;

    open spec fn view(&self) -> ReplyView {
        ReplyView { response: response_view(self.response), body: body_view(self.body) }
    }
}

impl ReplyView {
    /// The message with neither envelope nor body.
    pub open spec fn empty() -> ReplyView {
        ReplyView { response: None, body: None }
    }

    /// The message on the wire.
    pub open spec fn encoding(self) -> Seq<u8> {
        optional_field(
            1,
            match self.response {
                Some(r) => Some(r.encoding()),
                None => None,
            },
        ) + optional_field(2, body_encoding(self.body))
    }

    /// Every length that is written for this message fits in 64 bits.
    pub open spec fn wire_sized(self) -> bool {
        &&& match self.response {
            Some(r) => r.wire_sized() && r.encoding().len() <= u64::MAX,
            None => true,
        }
        &&& body_wire_sized(self.body)
    }

    /// What one field does to a message: field 1 is read onto the envelope,
    /// field 2 onto the body, any other field is stepped over.
    pub open spec fn merge(self, field: Field) -> Option<ReplyView> {
        if field.number == 1 {
            match payload_response(field.payload, self.response) {
                Some(r) => Some(ReplyView { response: Some(r), ..self }),
                None => None,
            }
        } else if field.number == 2 {
            match payload_body(field.payload, self.body) {
                Some(b) => Some(ReplyView { body: Some(b), ..self }),
                None => None,
            }
        } else {
            Some(self)
        }
    }

    /// `merge` as a value.
    pub open spec fn merger() -> spec_fn(ReplyView, Field) -> Option<ReplyView> {
        |m: ReplyView, f: Field| m.merge(f)
    }

    /// Reads the fields in `bytes` onto this message.
    pub open spec fn parse_onto(self, bytes: Seq<u8>) -> Option<ReplyView> {
        parse_fields(bytes, NESTING_LIMIT as nat, self, ReplyView::merger())
    }

    /// Reads a message from a frame.
    pub open spec fn parse(bytes: Seq<u8>) -> Option<ReplyView> {
        ReplyView::empty().parse_onto(bytes)
    }

    /// A message whose frame fits in 64 bits has every length in it fit.
    pub proof fn lemma_fits(self)
        requires
            self.encoding().len() <= u64::MAX,
        ensures
            self.wire_sized(),
    {
        match self.response {
            Some(r) => {
                r.lemma_fits();
            },
            None => {},
        }
        match self.body {
            Some(b) => {
                b.lemma_fits();
            },
            None => {},
        }
    }

    /// Every message reads back from its frame as itself, so long as the
    /// frame's length fits in 64 bits.
    pub proof fn lemma_round_trip(self)
        requires
            self.encoding().len() <= u64::MAX,
        ensures
            ReplyView::parse(self.encoding()) == Some(self),
    {
        self.lemma_fits();
        let budget = NESTING_LIMIT as nat;
        let merge = ReplyView::merger();
        let none = Seq::<u8>::empty();
        let second = optional_field(2, body_encoding(self.body));
        let first = optional_field(
            1,
            match self.response {
                Some(r) => Some(r.encoding()),
                None => None,
            },
        );
        let half = ReplyView { response: self.response, body: None };
        assert(half.parse_onto(second) == Some(self)) by {
            match self.body {
                Some(b) => {
                    lemma_payload_body(b);
                    lemma_next_field_len(2, b.encoding(), none, budget);
                    let field = next_field(second + none, budget).unwrap();
                    lemma_parse_fields_step(second, none, budget, half, merge, field);
                    assert(second + none =~= second);
                },
                None => {},
            }
        }
        match self.response {
            Some(r) => {
                lemma_payload_response(r);
                lemma_next_field_len(1, r.encoding(), second, budget);
                let field = next_field(first + second, budget).unwrap();
                lemma_parse_fields_step(first, second, budget, ReplyView::empty(), merge, field);
            },
            None => {
                assert(self.encoding() =~= second);
            },
        }
    }
}

impl Reply {
    /// The message's wire form: what goes into one binary frame.
    pub fn encode(&self) -> (frame: Vec<u8>)
        ensures
            frame@ == self@.encoding(),
    {
        let mut out: Vec<u8> = Vec::new();
        match &self.response {
            Some(r) => {
                let mut payload: Vec<u8> = Vec::new();
                r.encode_into(&mut payload);
                write_len_field(1, payload.as_slice(), &mut out);
            },
            None => {},
        }
        match &self.body {
            Some(b) => {
                let mut payload: Vec<u8> = Vec::new();
                b.encode_into(&mut payload);
                write_len_field(2, payload.as_slice(), &mut out);
            },
            None => {},
        }
        proof {
            assert(out@ =~= self@.encoding());
        }
        out
    }

    /// Reads a message from a frame. Fails with `DecodingError` exactly
    /// where the frame is not the wire form of a message.
    pub fn decode(frame: &[u8]) -> (r: Result<Reply, WebTonicError>)
        ensures
            match r {
                Ok(message) => ReplyView::parse(frame@) == Some(message@),
                Err(e) => e == WebTonicError::DecodingError && ReplyView::parse(frame@).is_none(),
            },
    {
        let mut response: Option<Response> = None;
        let mut body: Option<Body> = None;
        let mut rest = frame;
        while rest.len() > 0
            invariant
                ReplyView::parse(frame@) == (ReplyView {
                    response: response_view(response),
                    body: body_view(body),
                }).parse_onto(rest@),
            decreases rest@.len(),
        {
            match read_field(rest, NESTING_LIMIT) {
                Some(field) => {
                    if field.number == 1 {
                        match read_response(&field.value, response) {
                            Some(r) => {
                                response = Some(r);
                            },
                            None => {
                                return Err(WebTonicError::DecodingError);
                            },
                        }
                    } else if field.number == 2 {
                        match read_body(&field.value, body) {
                            Some(b) => {
                                body = Some(b);
                            },
                            None => {
                                return Err(WebTonicError::DecodingError);
                            },
                        }
                    }
                    rest = slice_subrange(rest, field.size, rest.len());
                },
                None => {
                    return Err(WebTonicError::DecodingError);
                },
            }
        }
        Ok(Reply { response, body })
    }
}

} // verus!
