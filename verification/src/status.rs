//! gRPC statuses as the server reports them.
//!
//! A failure on the tunnel is answered in band: an HTTP response with status
//! 200 that carries the gRPC status in its headers, as the gRPC protocol
//! over HTTP/2 has it. `tonic` builds that response; this module hands it on
//! as a plain value.

use crate::codec::lemma_ascii_bytes;
use crate::model::{http_headers_view, HttpHeader, HttpHeaderView, HttpResponse, HttpResponseView};
use crate::validate::{header_value_visible, value_byte_visible};
use vstd::prelude::*;
use vstd::utf8::{encode_utf8, is_ascii_chars};

verus! {

/// The gRPC statuses that the server reports on its own account.
#[derive(Clone, Copy, Debug, PartialEq, Eq, Structural)]
pub enum Code {
    /// The frame was not what a client may send: status 3.
    InvalidArgument,
    /// No service is registered under the name: status 12.
    Unimplemented,
    /// The frame could not be read, or the answer not written: status 13.
    Internal,
}

impl Code {
    /// The status as the `grpc-status` header spells it.
    pub open spec fn text(self) -> Seq<char> {
        match self {
            Code::InvalidArgument => "3"@,
            Code::Unimplemented => "12"@,
            Code::Internal => "13"@,
        }
    }

    /// The status as a number.
    pub open spec fn spec_number(self) -> i32 {
        match self {
            Code::InvalidArgument => 3,
            Code::Unimplemented => 12,
            Code::Internal => 13,
        }
    }

    /// The status as a number.
    pub fn number(self) -> (n: i32)
        ensures
            n == self.spec_number(),
    {
        match self {
            Code::InvalidArgument => 3,
            Code::Unimplemented => 12,
            Code::Internal => 13,
        }
    }
}

/// Whether a byte of a message is written as it stands: visible ASCII but
/// for the space and the characters `"`, `#`, `<`, `>`, `?`, `` ` ``, `{`
/// and `}`. Any other byte is percent-encoded.
pub open spec fn message_byte_kept(b: u8) -> bool {
    &&& 0x21 <= b <= 0x7E
    &&& b != 0x22 && b != 0x23 && b != 0x3C && b != 0x3E
    &&& b != 0x3F && b != 0x60 && b != 0x7B && b != 0x7D
}

/// The upper-case hexadecimal digit for a number below sixteen.
pub open spec fn hex_digit(n: u8) -> u8 {
    if n < 10 {
        (0x30 + n) as u8
    } else {
        (0x37 + n) as u8
    }
}

/// A byte of a message as it is written: itself, or a percent sign and its
/// two hexadecimal digits.
pub open spec fn percent_byte(b: u8) -> Seq<u8> {
    if message_byte_kept(b) {
        seq![b]
    } else {
        seq![0x25u8, hex_digit(b / 16), hex_digit(b % 16)]
    }
}

/// Bytes percent-encoded, one after the other.
pub open spec fn percent_encoded(bytes: Seq<u8>) -> Seq<u8>
    decreases bytes.len(),
{
    if bytes.len() == 0 {
        Seq::empty()
    } else {
        percent_byte(bytes[0]) + percent_encoded(bytes.drop_first())
    }
}

/// The value of the `grpc-message` header for a message: its bytes,
/// percent-encoded.
pub open spec fn grpc_message_value(message: Seq<char>) -> Seq<u8> {
    percent_encoded(encode_utf8(message))
}

/// The headers of a status response: the content type, the status, and,
/// where the message is not empty, the message.
pub open spec fn status_headers(code: Code, message: Seq<char>) -> Seq<HttpHeaderView> {
    let fixed = seq![
        HttpHeaderView { name: "content-type"@, value: encode_utf8("application/grpc"@) },
        HttpHeaderView { name: "grpc-status"@, value: encode_utf8(code.text()) },
    ];
    if message.len() == 0 {
        fixed
    } else {
        fixed.push(
            HttpHeaderView { name: "grpc-message"@, value: grpc_message_value(message) },
        )
    }
}

/// The response that reports a status: HTTP status 200, the status headers,
/// and no body.
pub open spec fn status_response_view(code: Code, message: Seq<char>) -> HttpResponseView {
    HttpResponseView { status: 200, headers: status_headers(code, message), body: None }
}

/// Percent-encoded bytes are visible ASCII.
pub proof fn lemma_percent_encoded_visible(bytes: Seq<u8>)
    ensures
        header_value_visible(percent_encoded(bytes)),
    decreases bytes.len(),
{
    if bytes.len() > 0 {
        let first = percent_byte(bytes[0]);
        let rest = percent_encoded(bytes.drop_first());
        lemma_percent_encoded_visible(bytes.drop_first());
        assert forall|i: int| 0 <= i < (first + rest).len() implies value_byte_visible(
            #[trigger] (first + rest)[i],
        ) by {
            if i >= first.len() {
                assert((first + rest)[i] == rest[i - first.len()]);
            }
        }
    }
}

/// Every value among the headers of a status response is visible ASCII, so
/// the response can always be framed.
pub proof fn lemma_status_headers_visible(code: Code, message: Seq<char>)
    ensures
        forall|i: int|
            0 <= i < status_headers(code, message).len() ==> header_value_visible(
                (#[trigger] status_headers(code, message)[i]).value,
            ),
{
    reveal_strlit("application/grpc");
    reveal_strlit("3");
    reveal_strlit("12");
    reveal_strlit("13");
    assert(is_ascii_chars("application/grpc"@));
    assert(is_ascii_chars(code.text()));
    lemma_ascii_bytes("application/grpc"@);
    lemma_ascii_bytes(code.text());
    lemma_percent_encoded_visible(encode_utf8(message));
}

/// Calls `tonic::Status::new` and `to_http` on the result, and hands out the
/// HTTP status and the headers of the response in the order in which the
/// header map yields them. By `tonic`'s source the response has status 200
/// and an empty body, and its headers are set in this order: `content-type`
/// to `application/grpc`, `grpc-status` to the code's number in decimal, and,
/// for a message that is not empty, `grpc-message` to the bytes of the
/// message percent-encoded. By the source of the `percent-encoding` crate a
/// byte is written as a percent sign and two upper-case hexadecimal digits
/// where it is not ASCII or is in the set that `tonic` names (the control
/// characters, the space, and `"`, `#`, `<`, `>`, `?`, `` ` ``, `{`, `}`),
/// and as itself otherwise.
#[verifier::external_body]
pub(crate) fn status_to_http(code: Code, message: &str) -> (envelope: (u16, Vec<HttpHeader>))
    ensures
        envelope.0 == 200,
        http_headers_view(envelope.1@) == status_headers(code, message@),
{
    let code = match code {
        Code::InvalidArgument => tonic::Code::InvalidArgument,
        Code::Unimplemented => tonic::Code::Unimplemented,
        Code::Internal => tonic::Code::Internal,
    };
    let response = tonic::Status::new(code, message).to_http();
    let mut headers = Vec::new();
    for (name, value) in response.headers().iter() {
        headers.push(HttpHeader::new(name.as_str().to_string(), value.as_bytes().to_vec()));
    }
    (response.status().as_u16(), headers)
}

/// The response that reports `code` with `message`.
pub fn status_response(code: Code, message: &str) -> (response: HttpResponse)
    ensures
        response@ == status_response_view(code, message@),
        forall|i: int|
            0 <= i < response.headers@.len() ==> header_value_visible(
                (#[trigger] response.headers@[i]).value@,
            ),
{
    let (status, headers) = status_to_http(code, message);
    let response = HttpResponse { status, headers, body: None };
    proof {
        lemma_status_headers_visible(code, message@);
        assert forall|i: int| 0 <= i < response.headers@.len() implies header_value_visible(
            (#[trigger] response.headers@[i]).value@,
        ) by {
            assert(response.headers@[i]@ == status_headers(code, message@)[i]);
        }
    }
    response
}

} // verus!
