//! Headers on the wire: a name and a value, and lists of them.

use crate::text::{payload_text, read_text, string_field};
use crate::wire::{
    lemma_next_field_len, lemma_parse_fields_step, len_field, next_field, parse_fields, read_field,
    write_len_field, Field, Payload, RawValue, HEADER_BUDGET, MAX_FIELD_NUMBER,
};
use vstd::prelude::*;
use vstd::slice::slice_subrange;
use vstd::utf8::{encode_utf8, encode_utf8_decode_utf8, encode_utf8_valid_utf8};

verus! {

/// A header: a name and a value, both text.
#[derive(Clone, Debug, PartialEq, Eq, Default)]
pub struct Header {
    /// Field 1.
    pub name: String,
    /// Field 2.
    pub value: String,
}

/// What a `Header` stands for.
pub ghost struct HeaderView {
    pub name: Seq<char>,
    pub value: Seq<char>,
}

impl View for Header {
    type V = HeaderView;

    open spec fn view(&self) -> HeaderView {
        HeaderView { name: self.name@, value: self.value@ }
    }
}

/// The views of a list of headers, in order.
pub open spec fn headers_view(headers: Seq<Header>) -> Seq<HeaderView> {
    headers.map_values(|h: Header| h@)
}

impl HeaderView {
    /// The header with no name and no value.
    pub open spec fn empty() -> HeaderView {
        HeaderView { name: Seq::empty(), value: Seq::empty() }
    }

    /// The header on the wire.
    pub open spec fn encoding(self) -> Seq<u8> {
        string_field(1, self.name) + string_field(2, self.value)
    }

    /// Every length that is written for this header fits in 64 bits.
    pub open spec fn wire_sized(self) -> bool {
        encode_utf8(self.name).len() <= u64::MAX && encode_utf8(self.value).len() <= u64::MAX
    }

    /// What one field does to a header: fields 1 and 2 replace name and
    /// value and must be text, any other field is stepped over.
    pub open spec fn merge(self, field: Field) -> Option<HeaderView> {
        if field.number == 1 {
            match payload_text(field.payload) {
                Some(text) => Some(HeaderView { name: text, ..self }),
                None => None,
            }
        } else if field.number == 2 {
            match payload_text(field.payload) {
                Some(text) => Some(HeaderView { value: text, ..self }),
                None => None,
            }
        } else {
            Some(self)
        }
    }

    /// `merge` as a value.
    pub open spec fn merger() -> spec_fn(HeaderView, Field) -> Option<HeaderView> {
        |h: HeaderView, f: Field| h.merge(f)
    }

    /// Reads the fields in `bytes` onto this header.
    pub open spec fn parse_onto(self, bytes: Seq<u8>) -> Option<HeaderView> {
        parse_fields(bytes, HEADER_BUDGET as nat, self, HeaderView::merger())
    }

    /// Reads a header.
    pub open spec fn parse(bytes: Seq<u8>) -> Option<HeaderView> {
        HeaderView::empty().parse_onto(bytes)
    }

    /// This header laid over `under`: a part that is empty here shows what
    /// `under` has.
    pub open spec fn over(self, under: HeaderView) -> HeaderView {
        HeaderView {
            name: if self.name.len() == 0 {
                under.name
            } else {
                self.name
            },
            value: if self.value.len() == 0 {
                under.value
            } else {
                self.value
            },
        }
    }

    /// A header whose wire form fits in 64 bits has every length in it fit.
    pub proof fn lemma_fits(self)
        requires
            self.encoding().len() <= u64::MAX,
        ensures
            self.wire_sized(),
    {
    }

    /// Reading a written header onto another lays it over that one.
    pub proof fn lemma_parse_encoding(self, under: HeaderView)
        requires
            self.wire_sized(),
        ensures
            under.parse_onto(self.encoding()) == Some(self.over(under)),
    {
        broadcast use encode_utf8_decode_utf8, encode_utf8_valid_utf8;

        let budget = HEADER_BUDGET as nat;
        let merge = HeaderView::merger();
        let none = Seq::<u8>::empty();
        let second = string_field(2, self.value);
        let named = HeaderView { name: self.over(under).name, ..under };
        assert(named.parse_onto(second) == Some(self.over(under))) by {
            if self.value.len() > 0 {
                lemma_next_field_len(2, encode_utf8(self.value), none, budget);
                let field = next_field(second + none, budget).unwrap();
                lemma_parse_fields_step(second, none, budget, named, merge, field);
                assert(second =~= second + none);
            }
        }
        if self.name.len() > 0 {
            let first = string_field(1, self.name);
            lemma_next_field_len(1, encode_utf8(self.name), second, budget);
            let field = next_field(first + second, budget).unwrap();
            lemma_parse_fields_step(first, second, budget, under, merge, field);
        } else {
            assert(self.encoding() =~= second);
        }
    }
}

impl Header {
    /// A header from its two parts.
    pub fn new(name: String, value: String) -> (header: Header)
        ensures
            header.name == name,
            header.value == value,
    {
        Header { name, value }
    }

    /// Appends the header's wire form to `out`.
    pub fn encode_into(&self, out: &mut Vec<u8>)
        ensures
            final(out)@ == old(out)@ + self@.encoding(),
    {
        if !self.name.as_str().is_empty() {
            write_len_field(1, self.name.as_str().as_bytes(), out);
        }
        if !self.value.as_str().is_empty() {
            write_len_field(2, self.value.as_str().as_bytes(), out);
        }
        proof {
            assert(out@ =~= old(out)@ + self@.encoding());
        }
    }

    /// Reads the fields in `buf` onto this header.
    pub fn merge_from(self, buf: &[u8]) -> (r: Option<Header>)
        ensures
            match r {
                Some(header) => self@.parse_onto(buf@) == Some(header@),
                None => self@.parse_onto(buf@).is_none(),
            },
    {
        let mut acc = self;
        let mut rest = buf;
        while rest.len() > 0
            invariant
                self@.parse_onto(buf@) == acc@.parse_onto(rest@),
            decreases rest@.len(),
        {
            match read_field(rest, HEADER_BUDGET) {
                Some(field) => {
                    if field.number == 1 {
                        match read_text(&field.value) {
                            Some(text) => {
                                acc.name = text;
                            },
                            None => {
                                return None;
                            },
                        }
                    } else if field.number == 2 {
                        match read_text(&field.value) {
                            Some(text) => {
                                acc.value = text;
                            },
                            None => {
                                return None;
                            },
                        }
                    }
                    rest = slice_subrange(rest, field.size, rest.len());
                },
                None => {
                    return None;
                },
            }
        }
        Some(acc)
    }

    /// Reads a header from its wire form.
    pub fn decode(buf: &[u8]) -> (r: Option<Header>)
        ensures
            match r {
                Some(header) => HeaderView::parse(buf@) == Some(header@),
                None => HeaderView::parse(buf@).is_none(),
            },
    {
        let empty = Header { name: String::new(), value: String::new() };
        empty.merge_from(buf)
    }
}

/// A list of headers on the wire: one length-delimited field each, in order.
pub open spec fn headers_encoding(number: nat, headers: Seq<HeaderView>) -> Seq<u8>
    decreases headers.len(),
{
    if headers.len() == 0 {
        Seq::empty()
    } else {
        len_field(number, headers[0].encoding()) + headers_encoding(number, headers.drop_first())
    }
}

/// Every length that is written for these headers fits in 64 bits.
pub open spec fn headers_wire_sized(headers: Seq<HeaderView>) -> bool {
    forall|i: int|
        0 <= i < headers.len() ==> (#[trigger] headers[i]).wire_sized()
            && headers[i].encoding().len() <= u64::MAX
}

/// Headers whose wire form fits in 64 bits have every length in them fit.
pub proof fn lemma_headers_fit(number: nat, headers: Seq<HeaderView>)
    requires
        headers_encoding(number, headers).len() <= u64::MAX,
    ensures
        headers_wire_sized(headers),
    decreases headers.len(),
{
    if headers.len() > 0 {
        let tail = headers.drop_first();
        headers[0].lemma_fits();
        lemma_headers_fit(number, tail);
        assert forall|i: int| 0 <= i < headers.len() implies (#[trigger] headers[i]).wire_sized()
            && headers[i].encoding().len() <= u64::MAX by {
            if i > 0 {
                assert(headers[i] == tail[i - 1]);
            }
        }
    }
}

/// What holds of a list holds of the list without its first header.
pub proof fn lemma_headers_wire_sized_tail(headers: Seq<HeaderView>)
    requires
        headers_wire_sized(headers),
        headers.len() > 0,
    ensures
        headers_wire_sized(headers.drop_first()),
        headers[0].wire_sized(),
        headers[0].encoding().len() <= u64::MAX,
{
    let tail = headers.drop_first();
    assert forall|i: int| 0 <= i < tail.len() implies (#[trigger] tail[i]).wire_sized()
        && tail[i].encoding().len() <= u64::MAX by {
        assert(tail[i] == headers[i + 1]);
    }
}

/// The header that a field carries: its value must be a run of bytes that
/// reads as a header.
pub open spec fn payload_header(payload: Payload) -> Option<HeaderView> {
    match payload {
        Payload::Bytes(bytes) => HeaderView::parse(bytes),
        _ => None,
    }
}

/// A written header reads back as itself.
pub proof fn lemma_payload_header(header: HeaderView)
    requires
        header.wire_sized(),
    ensures
        payload_header(Payload::Bytes(header.encoding())) == Some(header),
{
    header.lemma_parse_encoding(HeaderView::empty());
    let read = header.over(HeaderView::empty());
    assert(read.name =~= header.name);
    assert(read.value =~= header.value);
}

/// Appends a list of headers, each as field `number`.
pub fn encode_headers(number: u32, headers: &Vec<Header>, out: &mut Vec<u8>)
    requires
        1 <= number <= MAX_FIELD_NUMBER,
    ensures
        final(out)@ == old(out)@ + headers_encoding(number as nat, headers_view(headers@)),
{
    let ghost start = out@;
    let ghost all = headers_view(headers@);
    let mut i: usize = 0;
    proof {
        assert(all.skip(0) =~= all);
    }
    while i < headers.len()
        invariant
            i <= headers.len(),
            1 <= number <= MAX_FIELD_NUMBER,
            all == headers_view(headers@),
            out@ + headers_encoding(number as nat, all.skip(i as int)) == start + headers_encoding(
                number as nat,
                all,
            ),
        decreases headers.len() - i,
    {
        let ghost before = out@;
        let mut payload: Vec<u8> = Vec::new();
        headers[i].encode_into(&mut payload);
        write_len_field(number, payload.as_slice(), out);
        proof {
            let here = all.skip(i as int);
            assert(here[0] == headers@[i as int]@);
            assert(payload@ =~= here[0].encoding());
            assert(here.drop_first() =~= all.skip(i + 1));
            assert(out@ + headers_encoding(number as nat, all.skip(i + 1)) =~= before
                + headers_encoding(number as nat, here));
        }
        i = i + 1;
    }
    proof {
        assert(out@ =~= start + headers_encoding(number as nat, all));
    }
}

/// Takes the header out of a field's value.
pub fn read_header(value: &RawValue<'_>) -> (header: Option<Header>)
    ensures
        match header {
            Some(h) => payload_header(value@) == Some(h@),
            None => payload_header(value@).is_none(),
        },
{
    match value {
        RawValue::Bytes(bytes) => Header::decode(bytes),
        _ => None,
    }
}

} // verus!
