//! Bodies on the wire: bytes, and the trailers that follow them.

use crate::header::{
    encode_headers, headers_encoding, headers_view, headers_wire_sized, lemma_headers_fit,
    lemma_headers_wire_sized_tail, lemma_payload_header, payload_header, read_header, Header,
    HeaderView,
};
use crate::text::{bytes_field, payload_bytes, read_bytes};
use crate::wire::{
    lemma_next_field_len, lemma_parse_fields_step, len_field, next_field, parse_fields, read_field,
    write_len_field, Field, Payload, RawValue, PART_BUDGET,
};
use vstd::prelude::*;
use vstd::slice::slice_subrange;

verus! {

/// The body of a request or a response: its bytes and the trailers that
/// follow them.
#[derive(Clone, Debug, PartialEq, Eq, Default)]
pub struct Body {
    /// Field 1.
    pub body: Vec<u8>,
    /// Field 2, repeated.
    pub trailers: Vec<Header>,
}

/// What a `Body` stands for.
pub ghost struct BodyView {
    pub body: Seq<u8>,
    pub trailers: Seq<HeaderView>,
}

impl View for Body {
    type V = BodyView;

    open spec fn view(&self) -> BodyView {
        BodyView { body: self.body@, trailers: headers_view(self.trailers@) }
    }
}

impl BodyView {
    /// The body with no bytes and no trailers.
    pub open spec fn empty() -> BodyView {
        BodyView { body: Seq::empty(), trailers: Seq::empty() }
    }

    /// The body on the wire.
    pub open spec fn encoding(self) -> Seq<u8> {
        bytes_field(1, self.body) + headers_encoding(2, self.trailers)
    }

    /// Every length that is written for this body fits in 64 bits.
    pub open spec fn wire_sized(self) -> bool {
        self.body.len() <= u64::MAX && headers_wire_sized(self.trailers)
    }

    /// What one field does to a body: field 1 replaces the bytes, field 2
    /// adds a trailer, any other field is stepped over.
    pub open spec fn merge(self, field: Field) -> Option<BodyView> {
        if field.number == 1 {
            match payload_bytes(field.payload) {
                Some(data) => Some(BodyView { body: data, ..self }),
                None => None,
            }
        } else if field.number == 2 {
            match payload_header(field.payload) {
                Some(header) => Some(BodyView { trailers: self.trailers.push(header), ..self }),
                None => None,
            }
        } else {
            Some(self)
        }
    }

    /// `merge` as a value.
    pub open spec fn merger() -> spec_fn(BodyView, Field) -> Option<BodyView> {
        |b: BodyView, f: Field| b.merge(f)
    }

    /// Reads the fields in `bytes` onto this body.
    pub open spec fn parse_onto(self, bytes: Seq<u8>) -> Option<BodyView> {
        parse_fields(bytes, PART_BUDGET as nat, self, BodyView::merger())
    }

    /// Reads a body.
    pub open spec fn parse(bytes: Seq<u8>) -> Option<BodyView> {
        BodyView::empty().parse_onto(bytes)
    }

    /// This body laid over `under`: bytes that are empty here show what
    /// `under` has, and the trailers follow those of `under`.
    pub open spec fn over(self, under: BodyView) -> BodyView {
        BodyView {
            body: if self.body.len() == 0 {
                under.body
            } else {
                self.body
            },
            trailers: under.trailers + self.trailers,
        }
    }

    /// Reading written trailers adds them, in order.
    pub proof fn lemma_parse_trailers(self, trailers: Seq<HeaderView>)
        requires
            headers_wire_sized(trailers),
        ensures
            self.parse_onto(headers_encoding(2, trailers)) == Some(
                BodyView { trailers: self.trailers + trailers, ..self },
            ),
        decreases trailers.len(),
    {
        let budget = PART_BUDGET as nat;
        if trailers.len() == 0 {
            assert(self.trailers + trailers =~= self.trailers);
        } else {
            let first = trailers[0];
            let tail = trailers.drop_first();
            let rest = headers_encoding(2, tail);
            let bytes = len_field(2, first.encoding());
            lemma_payload_header(first);
            lemma_next_field_len(2, first.encoding(), rest, budget);
            let field = next_field(bytes + rest, budget).unwrap();
            lemma_parse_fields_step(bytes, rest, budget, self, BodyView::merger(), field);
            let next = BodyView { trailers: self.trailers.push(first), ..self };
            lemma_headers_wire_sized_tail(trailers);
            next.lemma_parse_trailers(tail);
            assert(next.trailers + tail =~= self.trailers + trailers);
        }
    }

    /// A body whose wire form fits in 64 bits has every length in it fit.
    pub proof fn lemma_fits(self)
        requires
            self.encoding().len() <= u64::MAX,
        ensures
            self.wire_sized(),
    {
        lemma_headers_fit(2, self.trailers);
    }

    /// Reading a written body onto another lays it over that one.
    pub proof fn lemma_parse_encoding(self, under: BodyView)
        requires
            self.wire_sized(),
        ensures
            under.parse_onto(self.encoding()) == Some(self.over(under)),
    {
        let budget = PART_BUDGET as nat;
        let rest = headers_encoding(2, self.trailers);
        let filled = BodyView { body: self.over(under).body, ..under };
        filled.lemma_parse_trailers(self.trailers);
        if self.body.len() > 0 {
            let first = bytes_field(1, self.body);
            lemma_next_field_len(1, self.body, rest, budget);
            let field = next_field(first + rest, budget).unwrap();
            lemma_parse_fields_step(first, rest, budget, under, BodyView::merger(), field);
        } else {
            assert(self.encoding() =~= rest);
        }
    }
}

impl Body {
    /// The body with no bytes and no trailers.
    pub fn empty() -> (body: Body)
        ensures
            body@ == BodyView::empty(),
    {
        let body = Body { body: Vec::new(), trailers: Vec::new() };
        proof {
            assert(body@.trailers =~= Seq::empty());
        }
        body
    }

    /// Appends the body's wire form to `out`.
    pub fn encode_into(&self, out: &mut Vec<u8>)
        ensures
            final(out)@ == old(out)@ + self@.encoding(),
    {
        if self.body.len() > 0 {
            write_len_field(1, self.body.as_slice(), out);
        }
        encode_headers(2, &self.trailers, out);
        proof {
            assert(out@ =~= old(out)@ + self@.encoding());
        }
    }

    /// Reads the fields in `buf` onto this body.
    pub fn merge_from(self, buf: &[u8]) -> (r: Option<Body>)
        ensures
            match r {
                Some(body) => self@.parse_onto(buf@) == Some(body@),
                None => self@.parse_onto(buf@).is_none(),
            },
    {
        let mut acc = self;
        let mut rest = buf;
        while rest.len() > 0
            invariant
                self@.parse_onto(buf@) == acc@.parse_onto(rest@),
            decreases rest@.len(),
        {
            match read_field(rest, PART_BUDGET) {
                Some(field) => {
                    if field.number == 1 {
                        match read_bytes(&field.value) {
                            Some(data) => {
                                acc.body = data;
                            },
                            None => {
                                return None;
                            },
                        }
                    } else if field.number == 2 {
                        match read_header(&field.value) {
                            Some(header) => {
                                let ghost before = acc.trailers@;
                                acc.trailers.push(header);
                                proof {
                                    assert(headers_view(acc.trailers@) =~= headers_view(
                                        before,
                                    ).push(header@));
                                }
                            },
                            None => {
                                return None;
                            },
                        }
                    }
                    rest = slice_subrange(rest, field.size, rest.len());
                },
                None => {
                    return None;
                },
            }
        }
        Some(acc)
    }

    /// Reads a body from its wire form.
    pub fn decode(buf: &[u8]) -> (r: Option<Body>)
        ensures
            match r {
                Some(body) => BodyView::parse(buf@) == Some(body@),
                None => BodyView::parse(buf@).is_none(),
            },
    {
        Body::empty().merge_from(buf)
    }
}

/// The view of a body that may be absent.
pub open spec fn body_view(body: Option<Body>) -> Option<BodyView> {
    match body {
        Some(b) => Some(b@),
        None => None,
    }
}

/// The wire form of a body that may be absent.
pub open spec fn body_encoding(body: Option<BodyView>) -> Option<Seq<u8>> {
    match body {
        Some(b) => Some(b.encoding()),
        None => None,
    }
}

/// Every length that is written for this body, if it is there, fits in 64
/// bits.
pub open spec fn body_wire_sized(body: Option<BodyView>) -> bool {
    match body {
        Some(b) => b.wire_sized() && b.encoding().len() <= u64::MAX,
        None => true,
    }
}

/// The body that a field carries, read onto the body that is there already.
pub open spec fn payload_body(payload: Payload, under: Option<BodyView>) -> Option<BodyView> {
    match payload {
        Payload::Bytes(bytes) => (match under {
            Some(b) => b,
            None => BodyView::empty(),
        }).parse_onto(bytes),
        _ => None,
    }
}

/// A written body, read where there was none, is itself.
pub proof fn lemma_payload_body(body: BodyView)
    requires
        body.wire_sized(),
    ensures
        payload_body(Payload::Bytes(body.encoding()), None) == Some(body),
{
    body.lemma_parse_encoding(BodyView::empty());
    let read = body.over(BodyView::empty());
    assert(read.body =~= body.body);
    assert(read.trailers =~= body.trailers);
}

/// Takes the body out of a field's value, reading it onto `under`.
pub fn read_body(value: &RawValue<'_>, under: Option<Body>) -> (body: Option<Body>)
    ensures
        match body {
            Some(b) => payload_body(value@, body_view(under)) == Some(b@),
            None => payload_body(value@, body_view(under)).is_none(),
        },
{
    match value {
        RawValue::Bytes(bytes) => {
            let base = match under {
                Some(b) => b,
                None => Body::empty(),
            };
            base.merge_from(bytes)
        },
        _ => None,
    }
}

} // verus!
