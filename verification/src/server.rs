//! The server side of the tunnel.
//!
//! A server is built by naming the services it offers. For each frame that
//! a WebSocket hands over, `handle_frame` decides what happens next: which
//! service is invoked with which request, which frame is sent back at once,
//! or that the connection ends. For each response that a service hands
//! back, `handle_response` gives the frame to send. Failures that concern
//! one frame are answered with a gRPC status and never end the connection;
//! `after_send` ends it where a frame could not be sent.

use crate::codec::{
    call_to_http_request, call_to_request, http_response_to_reply, response_to_reply,
};
use crate::message::{Call, CallView, Reply};
use crate::model::{
    HttpHeader, HttpHeaderView, HttpRequest, HttpRequestView, HttpResponse, HttpResponseView,
};
use crate::status::{
    lemma_status_headers_visible, status_response, status_response_view, Code,
};
use crate::validate::{header_value_visible, uri_path, uri_path_of};
use vstd::prelude::*;
use vstd::slice::{slice_subrange, slice_to_vec};
use vstd::string::{StrSliceExecFns, StringExecFns};
use vstd::utf8::{decode_utf8, encode_utf8, encode_utf8_decode_utf8, is_ascii_chars};

verus! {

/// The byte that parts a path into segments.
pub const SLASH: u8 = 47;

/// The index of the first slash in `bytes`, or their length where there is
/// none.
pub open spec fn slash_index(bytes: Seq<u8>) -> nat
    decreases bytes.len(),
{
    if bytes.len() == 0 || bytes[0] == SLASH {
        0
    } else {
        1 + slash_index(bytes.drop_first())
    }
}

/// The key under which a request's path looks up its service: what stands
/// between the first slash and the next one, or the end; a lone slash where
/// the path holds no slash at all.
pub open spec fn service_key(path: Seq<u8>) -> Seq<u8> {
    let first = slash_index(path);
    if first >= path.len() {
        seq![SLASH]
    } else {
        let rest = path.skip(first as int + 1);
        rest.take(slash_index(rest) as int)
    }
}

/// The first slash is where no byte before it is one.
pub proof fn lemma_slash_index(bytes: Seq<u8>, i: nat)
    requires
        i <= bytes.len(),
        forall|j: int| 0 <= j < i ==> bytes[j] != SLASH,
        i == bytes.len() || bytes[i as int] == SLASH,
    ensures
        slash_index(bytes) == i,
    decreases i,
{
    if i > 0 {
        let tail = bytes.drop_first();
        assert forall|j: int| 0 <= j < i - 1 implies tail[j] != SLASH by {
            assert(tail[j] == bytes[j + 1]);
        }
        if i < bytes.len() {
            assert(tail[i - 1] == bytes[i as int]);
        }
        lemma_slash_index(tail, (i - 1) as nat);
    }
}

/// The index of the first slash in `buf` at or after `from`, or the length
/// of `buf`.
fn find_slash(buf: &[u8], from: usize) -> (at: usize)
    requires
        from <= buf@.len(),
    ensures
        from <= at <= buf@.len(),
        at == from + slash_index(buf@.skip(from as int)),
{
    let mut i = from;
    while i < buf.len() && buf[i] != SLASH
        invariant
            from <= i <= buf@.len(),
            forall|j: int| from <= j < i ==> buf@[j] != SLASH,
        decreases buf@.len() - i,
    {
        i = i + 1;
    }
    proof {
        lemma_slash_index(buf@.skip(from as int), (i - from) as nat);
    }
    i
}

/// The key under which `path` looks up its service.
pub fn path_service_key(path: &[u8]) -> (key: Vec<u8>)
    ensures
        key@ == service_key(path@),
{
    proof {
        assert(path@.skip(0) =~= path@);
    }
    let first = find_slash(path, 0);
    if first >= path.len() {
        let mut key: Vec<u8> = Vec::new();
        key.push(SLASH);
        proof {
            assert(key@ =~= seq![SLASH]);
        }
        key
    } else {
        let end = find_slash(path, first + 1);
        let key = slice_to_vec(slice_subrange(path, first + 1, end));
        proof {
            let rest = path@.skip(first + 1);
            assert(key@ =~= rest.take(slash_index(rest) as int));
        }
        key
    }
}

/// A path that starts with a slash, then a name without a slash, and then
/// ends or goes on with a slash, has that name as its key.
pub proof fn lemma_service_key_of_path(name: Seq<u8>, rest: Seq<u8>)
    requires
        forall|i: int| 0 <= i < name.len() ==> name[i] != SLASH,
    ensures
        service_key(seq![SLASH] + name) == name,
        service_key(seq![SLASH] + name + seq![SLASH] + rest) == name,
{
    let short = seq![SLASH] + name;
    let long = seq![SLASH] + name + seq![SLASH] + rest;
    lemma_slash_index(short, 0);
    lemma_slash_index(long, 0);
    assert(short.skip(1) =~= name);
    lemma_slash_index(name, name.len());
    assert(name.take(name.len() as int) =~= name);
    let after = long.skip(1);
    assert(after =~= name + seq![SLASH] + rest);
    lemma_slash_index(after, name.len());
    assert(after.take(name.len() as int) =~= name);
}

/// Whether two runs of bytes are the same.
pub fn bytes_equal(a: &[u8], b: &[u8]) -> (same: bool)
    ensures
        same == (a@ == b@),
{
    if a.len() != b.len() {
        return false;
    }
    let mut i: usize = 0;
    while i < a.len()
        invariant
            i <= a@.len(),
            a@.len() == b@.len(),
            forall|j: int| 0 <= j < i ==> a@[j] == b@[j],
        decreases a@.len() - i,
    {
        if a[i] != b[i] {
            return false;
        }
        i = i + 1;
    }
    proof {
        assert(a@ =~= b@);
    }
    true
}

/// One service on offer: the name under which requests reach it.
#[derive(Clone, Debug, PartialEq, Eq)]
pub struct Route {
    /// The fully qualified name of the service.
    pub name: String,
}

impl Route {
    /// Whether requests with this key are for this service: the key spells
    /// its name.
    pub fn matches(&self, key: &[u8]) -> (yes: bool)
        ensures
            yes == (encode_utf8(self.name@) == key@),
    {
        bytes_equal(self.name.as_str().as_bytes(), key)
    }
}

/// The names of a list of routes, in order.
pub open spec fn route_names(routes: Seq<Route>) -> Seq<Seq<char>> {
    routes.map_values(|r: Route| r.name@)
}

/// The service that answers to `key`: the last of `names` that spells it.
pub open spec fn lookup(names: Seq<Seq<char>>, key: Seq<u8>) -> Option<nat>
    decreases names.len(),
{
    if names.len() == 0 {
        None
    } else if encode_utf8(names.last()) == key {
        Some((names.len() - 1) as nat)
    } else {
        lookup(names.drop_last(), key)
    }
}

/// A key finds the last service registered under it, and finds none only
/// where no service is registered under it.
pub proof fn lemma_lookup(names: Seq<Seq<char>>, key: Seq<u8>)
    ensures
        match lookup(names, key) {
            Some(found) => {
                &&& found < names.len()
                &&& encode_utf8(names[found as int]) == key
                &&& forall|j: int| found < j < names.len() ==> encode_utf8(names[j]) != key
            },
            None => forall|j: int| 0 <= j < names.len() ==> encode_utf8(names[j]) != key,
        },
    decreases names.len(),
{
    if names.len() > 0 && encode_utf8(names.last()) != key {
        let front = names.drop_last();
        lemma_lookup(front, key);
        match lookup(front, key) {
            Some(found) => {
                assert(front[found as int] == names[found as int]);
                assert forall|j: int| found < j < names.len() implies encode_utf8(names[j])
                    != key by {
                    if j < front.len() {
                        assert(front[j] == names[j]);
                    }
                }
            },
            None => {
                assert forall|j: int| 0 <= j < names.len() implies encode_utf8(names[j])
                    != key by {
                    if j < front.len() {
                        assert(front[j] == names[j]);
                    }
                }
            },
        }
    }
}

/// Where a request goes.
#[derive(Clone, Copy, Debug, PartialEq, Eq, Structural)]
pub enum Target {
    /// To the service that was registered as number this, counting from
    /// zero.
    Service(usize),
    /// To no service: nothing is registered under the name.
    Unimplemented,
}

impl Target {
    /// The target as the result of a lookup.
    pub open spec fn found(self) -> Option<nat> {
        match self {
            Target::Service(index) => Some(index as nat),
            Target::Unimplemented => None,
        }
    }
}

/// A server that offers no service yet.
#[derive(Clone, Debug, PartialEq, Eq)]
pub struct Server {}

impl View for Server {
    type V = Seq<Seq<char>>;

    /// The names of the services on offer: none.
    open spec fn view(&self) -> Seq<Seq<char>> {
        Seq::empty()
    }
}

impl Server {
    /// A new server, with nothing on offer.
    pub fn builder() -> (server: Server)
        ensures
            server@ == Seq::<Seq<char>>::empty(),
    {
        Server {  }
    }

    /// Offers a first service under `name`.
    pub fn add_service(self, name: &str) -> (router: Router)
        ensures
            router@ == self@.push(name@),
    {
        let mut routes: Vec<Route> = Vec::new();
        routes.push(Route { name: String::from_str(name) });
        let router = Router { server: self, routes };
        proof {
            assert(router@ =~= self@.push(name@));
        }
        router
    }
}

/// A server with the services it offers, in the order in which they were
/// added.
#[derive(Clone, Debug, PartialEq, Eq)]
pub struct Router {
    server: Server,
    routes: Vec<Route>,
}

impl View for Router {
    type V = Seq<Seq<char>>;

    closed spec fn view(&self) -> Seq<Seq<char>> {
        route_names(self.routes@)
    }
}

impl Router {
    /// Offers one more service under `name`. A name that was added before
    /// now reaches this service.
    pub fn add_service(self, name: &str) -> (router: Router)
        ensures
            router@ == self@.push(name@),
    {
        let Router { server, mut routes } = self;
        routes.push(Route { name: String::from_str(name) });
        let router = Router { server, routes };
        proof {
            assert(router@ =~= self@.push(name@));
        }
        router
    }

    /// How many services were added.
    pub fn len(&self) -> (n: usize)
        ensures
            n == self@.len(),
    {
        self.routes.len()
    }

    /// The service that answers to `key`.
    pub fn route(&self, key: &[u8]) -> (target: Target)
        ensures
            target.found() == lookup(self@, key@),
    {
        let ghost names = self@;
        let mut i = self.routes.len();
        proof {
            assert(names.take(i as int) =~= names);
        }
        while i > 0
            invariant
                i <= self.routes@.len(),
                names == route_names(self.routes@),
                lookup(names, key@) == lookup(names.take(i as int), key@),
            decreases i,
        {
            i = i - 1;
            proof {
                let upto = names.take(i + 1);
                assert(upto.last() == self.routes@[i as int].name@);
                assert(upto.drop_last() =~= names.take(i as int));
            }
            if self.routes[i].matches(key) {
                return Target::Service(i);
            }
        }
        Target::Unimplemented
    }
}

/// What is answered where no service is registered under a name.
#[derive(Clone, Copy, Debug, Default, PartialEq, Eq)]
pub struct Unimplemented;

/// The response that `Unimplemented` gives: HTTP status 200 with the gRPC
/// status 12 and the gRPC content type, and no body.
pub open spec fn unimplemented_response() -> HttpResponseView {
    HttpResponseView {
        status: 200,
        headers: seq![
            HttpHeaderView { name: "grpc-status"@, value: encode_utf8("12"@) },
            HttpHeaderView { name: "content-type"@, value: encode_utf8("application/grpc"@) },
        ],
        body: None,
    }
}

/// The text of a literal that is ASCII is written as bytes one for one.
proof fn lemma_unimplemented_values()
    ensures
        header_value_visible(encode_utf8("12"@)),
        header_value_visible(encode_utf8("application/grpc"@)),
{
    reveal_strlit("12");
    reveal_strlit("application/grpc");
    assert(is_ascii_chars("12"@));
    assert(is_ascii_chars("application/grpc"@));
    crate::codec::lemma_ascii_bytes("12"@);
    crate::codec::lemma_ascii_bytes("application/grpc"@);
}

impl Unimplemented {
    /// The response to any request.
    pub fn call(&self) -> (response: HttpResponse)
        ensures
            response@ == unimplemented_response(),
            response_to_reply(response@).is_some(),
    {
        let mut headers: Vec<HttpHeader> = Vec::new();
        headers.push(HttpHeader::new(String::from_str("grpc-status"), "12".as_bytes_vec()));
        headers.push(
            HttpHeader::new(String::from_str("content-type"), "application/grpc".as_bytes_vec()),
        );
        let response = HttpResponse { status: 200, headers, body: None };
        proof {
            lemma_unimplemented_values();
            assert(response@.headers =~= unimplemented_response().headers);
        }
        response
    }
}

/// What a WebSocket handed over.
#[derive(Clone, Debug, PartialEq, Eq)]
pub enum Frame {
    /// A binary frame, with its bytes.
    Binary(Vec<u8>),
    /// A text frame.
    Text,
    /// A ping or a pong.
    Control,
    /// The frame that closes the connection.
    Close,
    /// No frame but a failure of the socket, with what it said.
    Failed(String),
}

/// What a `Frame` stands for.
pub ghost enum FrameView {
    Binary(Seq<u8>),
    Text,
    Control,
    Close,
    Failed(Seq<char>),
}

impl View for Frame {
    type V = FrameView;

    open spec fn view(&self) -> FrameView {
        match self {
            Frame::Binary(bytes) => FrameView::Binary(bytes@),
            Frame::Text => FrameView::Text,
            Frame::Control => FrameView::Control,
            Frame::Close => FrameView::Close,
            Frame::Failed(text) => FrameView::Failed(text@),
        }
    }
}

/// What the connection does next.
#[derive(Clone, Debug, PartialEq, Eq)]
pub enum Step {
    /// Invoke the service that was registered as number `service`, counting
    /// from zero, with `request`, and hand its response to
    /// `handle_response`.
    Invoke { service: usize, request: HttpRequest },
    /// Send this binary frame, and go on with the next frame that comes in.
    Send(Vec<u8>),
    /// Go on with the next frame that comes in.
    Next,
    /// End the connection.
    Stop,
}

/// What a `Step` stands for.
pub ghost enum StepView {
    Invoke { service: nat, request: HttpRequestView },
    Send(Seq<u8>),
    Next,
    Stop,
}

impl View for Step {
    type V = StepView;

    open spec fn view(&self) -> StepView {
        match self {
            Step::Invoke { service, request } => StepView::Invoke {
                service: *service as nat,
                request: request@,
            },
            Step::Send(frame) => StepView::Send(frame@),
            Step::Next => StepView::Next,
            Step::Stop => StepView::Stop,
        }
    }
}

/// The step that answers with `response`: its frame is sent; where it
/// cannot be framed, the connection ends.
pub open spec fn send_response(response: HttpResponseView) -> StepView {
    match response_to_reply(response) {
        Some(reply) => StepView::Send(reply.encoding()),
        None => StepView::Stop,
    }
}

/// The step that reports a status.
pub open spec fn send_status(code: Code, message: Seq<char>) -> StepView {
    send_response(status_response_view(code, message))
}

/// The key under which a request looks up its service: that of its URI's
/// path.
pub open spec fn request_key(uri: Seq<char>) -> Seq<u8> {
    match uri_path_of(uri) {
        Some(path) => service_key(encode_utf8(path)),
        None => seq![SLASH],
    }
}

/// The step for a request: it goes to the service that answers to its key;
/// where there is none, the answer of `Unimplemented` is sent.
pub open spec fn dispatch_step(names: Seq<Seq<char>>, request: HttpRequestView) -> StepView {
    match lookup(names, request_key(request.uri)) {
        Some(service) => StepView::Invoke { service, request },
        None => send_response(unimplemented_response()),
    }
}

/// The request that a frame carries: the frame must be binary, hold a call,
/// and the call must read as a request.
pub open spec fn frame_request(frame: FrameView) -> Option<HttpRequestView> {
    match frame {
        FrameView::Binary(bytes) => match CallView::parse(bytes) {
            Some(call) => call_to_request(call),
            None => None,
        },
        _ => None,
    }
}

/// The step for a frame, given the services on offer.
pub open spec fn frame_step(names: Seq<Seq<char>>, frame: FrameView) -> StepView {
    match frame {
        FrameView::Close => StepView::Stop,
        FrameView::Control => StepView::Next,
        FrameView::Text => send_status(
            Code::InvalidArgument,
            "websocket messages must be sent in binary"@,
        ),
        FrameView::Failed(text) => send_status(
            Code::Internal,
            "error on the websocket channel "@ + text,
        ),
        FrameView::Binary(_) => match frame_request(frame) {
            Some(request) => dispatch_step(names, request),
            None => send_status(Code::Internal, "failed to decode call"@),
        },
    }
}

/// Looking up the bytes of a name finds the last service registered under
/// that very name, and finds none only where no service has that name.
pub proof fn lemma_lookup_by_name(names: Seq<Seq<char>>, name: Seq<char>)
    ensures
        match lookup(names, encode_utf8(name)) {
            Some(found) => {
                &&& found < names.len()
                &&& names[found as int] == name
                &&& forall|j: int| found < j < names.len() ==> names[j] != name
            },
            None => forall|j: int| 0 <= j < names.len() ==> names[j] != name,
        },
{
    broadcast use encode_utf8_decode_utf8;

    lemma_lookup(names, encode_utf8(name));
    match lookup(names, encode_utf8(name)) {
        Some(found) => {
            let registered = names[found as int];
            assert(decode_utf8(encode_utf8(registered)) == registered);
            assert(decode_utf8(encode_utf8(name)) == name);
        },
        None => {},
    }
}

/// A request whose path is a slash, the name of a service, and then nothing
/// more or a slash and more, goes to the service that was registered last
/// under that name; where no service has the name, the answer of
/// `Unimplemented` is sent. Either way the connection goes on.
pub proof fn lemma_dispatch_by_first_segment(
    names: Seq<Seq<char>>,
    request: HttpRequestView,
    name: Seq<char>,
    rest: Seq<u8>,
)
    requires
        uri_path_of(request.uri).is_some(),
        forall|i: int| 0 <= i < encode_utf8(name).len() ==> encode_utf8(name)[i] != SLASH,
        ({
            let path = encode_utf8(uri_path_of(request.uri).unwrap());
            path == seq![SLASH] + encode_utf8(name) || path == seq![SLASH] + encode_utf8(name)
                + seq![SLASH] + rest
        }),
    ensures
        match dispatch_step(names, request) {
            StepView::Invoke { service, request: handed } => {
                &&& handed == request
                &&& service < names.len()
                &&& names[service as int] == name
                &&& forall|j: int| service < j < names.len() ==> names[j] != name
            },
            StepView::Send(frame) => {
                &&& forall|j: int| 0 <= j < names.len() ==> names[j] != name
                &&& send_response(unimplemented_response()) == StepView::Send(frame)
            },
            _ => false,
        },
{
    lemma_service_key_of_path(encode_utf8(name), rest);
    lemma_lookup_by_name(names, name);
    lemma_unimplemented_values();
    let headers = unimplemented_response().headers;
    assert forall|i: int| 0 <= i < headers.len() implies header_value_visible(
        (#[trigger] headers[i]).value,
    ) by {}
}

/// A status can always be reported: the step that reports it sends a
/// frame.
pub proof fn lemma_status_is_sent(code: Code, message: Seq<char>)
    ensures
        send_status(code, message) is Send,
{
    lemma_status_headers_visible(code, message);
}

/// What `Unimplemented` answers can always be sent.
pub proof fn lemma_unimplemented_is_sent()
    ensures
        send_response(unimplemented_response()) is Send,
{
    lemma_unimplemented_values();
    let headers = unimplemented_response().headers;
    assert forall|i: int| 0 <= i < headers.len() implies header_value_visible(
        (#[trigger] headers[i]).value,
    ) by {}
}

/// Whatever the frame and whatever is on offer: the connection ends on a
/// close frame and on no other; a ping or a pong, and nothing else, is
/// passed over; a text frame, a failure of the socket and a binary frame
/// that holds no call that reads as a request are each answered with one
/// frame; and a request is handed to a service or answered with one frame.
pub proof fn lemma_connection_stays_open(names: Seq<Seq<char>>, frame: FrameView)
    ensures
        frame_step(names, frame) is Stop <==> frame is Close,
        frame_step(names, frame) is Next <==> frame is Control,
        frame is Text || frame is Failed || (frame is Binary && frame_request(frame).is_none())
            ==> frame_step(names, frame) is Send,
        frame_request(frame).is_some() ==> frame_step(names, frame) is Invoke || frame_step(
            names,
            frame,
        ) is Send,
{
    lemma_unimplemented_is_sent();
    match frame {
        FrameView::Text => {
            lemma_status_is_sent(
                Code::InvalidArgument,
                "websocket messages must be sent in binary"@,
            );
        },
        FrameView::Failed(text) => {
            lemma_status_is_sent(Code::Internal, "error on the websocket channel "@ + text);
        },
        FrameView::Binary(_) => {
            lemma_status_is_sent(Code::Internal, "failed to decode call"@);
        },
        _ => {},
    }
}

/// The step that sends `reply` as a frame.
fn send_reply(reply: &Reply) -> (step: Step)
    ensures
        step@ == StepView::Send(reply@.encoding()),
{
    Step::Send(reply.encode())
}

/// The step that reports `code` with `message`: the frame of the status
/// response is sent.
pub fn status_step(code: Code, message: &str) -> (step: Step)
    ensures
        step@ == send_status(code, message@),
        step is Send,
{
    let response = status_response(code, message);
    proof {
        let headers = response@.headers;
        assert forall|i: int| 0 <= i < headers.len() implies header_value_visible(
            (#[trigger] headers[i]).value,
        ) by {
            assert(headers[i] == response.headers@[i]@);
        }
    }
    match http_response_to_reply(&response) {
        Ok(reply) => send_reply(&reply),
        Err(_) => Step::Stop,
    }
}

/// The step that answers for a service that is not on offer: the frame of
/// what `Unimplemented` answers is sent.
pub fn unimplemented_step() -> (step: Step)
    ensures
        step@ == send_response(unimplemented_response()),
        step is Send,
{
    let response = Unimplemented.call();
    match http_response_to_reply(&response) {
        Ok(reply) => send_reply(&reply),
        Err(_) => Step::Stop,
    }
}

/// The step that answers a frame which holds no call that can be read as a
/// request: status 13 is reported.
pub fn undecodable_step() -> (step: Step)
    ensures
        step@ == send_status(Code::Internal, "failed to decode call"@),
        step is Send,
{
    status_step(Code::Internal, "failed to decode call")
}

/// What follows the sending of a frame: the next frame is read where the
/// frame was taken; the connection ends where it was not, because nothing
/// carries frames out any more.
pub fn after_send(delivered: bool) -> (step: Step)
    ensures
        step@ == (if delivered {
            StepView::Next
        } else {
            StepView::Stop
        }),
{
    if delivered {
        Step::Next
    } else {
        Step::Stop
    }
}

/// The step for a request that was read from a frame: it is handed to its
/// service, or a frame is sent.
pub fn dispatch(router: &Router, request: HttpRequest) -> (step: Step)
    ensures
        step@ == dispatch_step(router@, request@),
        step is Invoke || step is Send,
{
    let key = match uri_path(request.uri.as_str()) {
        Some(path) => path_service_key(path.as_str().as_bytes()),
        None => {
            let mut key: Vec<u8> = Vec::new();
            key.push(SLASH);
            proof {
                assert(key@ =~= seq![SLASH]);
            }
            key
        },
    };
    match router.route(key.as_slice()) {
        Target::Service(service) => Step::Invoke { service, request },
        Target::Unimplemented => unimplemented_step(),
    }
}

/// Decides what a frame leads to. A close frame ends the connection; a
/// ping or a pong is passed over. A text frame is answered with status 3, a
/// failure of the socket and a binary frame that does not hold a call that
/// can be read as a request with status 13, a request for a service that is
/// not on offer with what `Unimplemented` answers. Any other request is to
/// be handed to its service. Nothing but a close frame ends the connection,
/// and nothing but a ping or a pong goes without an answer.
pub fn handle_frame(router: &Router, frame: Frame) -> (step: Step)
    ensures
        step@ == frame_step(router@, frame@),
        step is Stop <==> frame is Close,
        step is Next <==> frame is Control,
        frame is Text || frame is Failed ==> step is Send,
        frame is Binary && frame_request(frame@).is_none() ==> step is Send,
        frame is Binary && frame_request(frame@).is_some() ==> step is Invoke || step is Send,
{
    match frame {
        Frame::Close => Step::Stop,
        Frame::Control => Step::Next,
        Frame::Text => status_step(
            Code::InvalidArgument,
            "websocket messages must be sent in binary",
        ),
        Frame::Failed(text) => {
            let message = String::from_str("error on the websocket channel ").concat(
                text.as_str(),
            );
            status_step(Code::Internal, message.as_str())
        },
        Frame::Binary(bytes) => match Call::decode(bytes.as_slice()) {
            Ok(call) => match call_to_http_request(call) {
                Ok(request) => dispatch(router, request),
                Err(_) => undecodable_step(),
            },
            Err(_) => undecodable_step(),
        },
    }
}

/// The step for the response that a service handed back.
pub open spec fn response_step(response: HttpResponseView) -> StepView {
    match response_to_reply(response) {
        Some(reply) => StepView::Send(reply.encoding()),
        None => send_status(Code::Internal, "failed to encode reply"@),
    }
}

/// Decides what follows the response of a service: its frame is sent.
/// Where the response cannot be framed, status 13 is reported in its place.
/// Either way a frame goes out and the connection stays open.
pub fn handle_response(response: &HttpResponse) -> (step: Step)
    ensures
        step@ == response_step(response@),
        step is Send,
{
    match http_response_to_reply(response) {
        Ok(reply) => send_reply(&reply),
        Err(_) => status_step(Code::Internal, "failed to encode reply"),
    }
}

} // verus!
