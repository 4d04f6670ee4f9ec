use vstd::prelude::*;

use vstd::string::StringSliceAdditionalSpecFns;

use crate::framer::{append, decimal, encode, encode_spec, push_decimal, Header, HeaderView};

verus! {

pub open spec fn hex_digit(n: u8) -> u8 {
    if n < 10 {
        (48 + n) as u8
    } else {
        (87 + n) as u8
    }
}

/// How one byte is written inside a JSON string: a quote and a backslash get
/// a backslash before them; backspace, tab, line feed, form feed and carriage
/// return take their short forms; any other control character becomes
/// `\u00XX` in lower-case hex.
pub open spec fn escape_byte(b: u8) -> Seq<u8> {
    if b == 34u8 || b == 92u8 {
        seq![92u8, b]
    } else if b == 8u8 {
        seq![92u8, 98u8]
    } else if b == 9u8 {
        seq![92u8, 116u8]
    } else if b == 10u8 {
        seq![92u8, 110u8]
    } else if b == 12u8 {
        seq![92u8, 102u8]
    } else if b == 13u8 {
        seq![92u8, 114u8]
    } else if b < 32u8 {
        seq![92u8, 117u8, 48u8, 48u8, hex_digit(b / 16), hex_digit(b % 16)]
    } else {
        seq![b]
    }
}

/// The text `m` as it is written inside a JSON string.
pub open spec fn json_escape(m: Seq<u8>) -> Seq<u8>
    decreases m.len(),
{
    if m.len() == 0 {
        Seq::empty()
    } else {
        json_escape(m.drop_last()) + escape_byte(m.last())
    }
}

/// The body of a JSON-RPC request.
pub open spec fn request_body(id: nat, method: Seq<u8>, params: Seq<u8>) -> Seq<u8> {
    "{\"jsonrpc\":\"2.0\",\"id\":".spec_bytes() + decimal(id) + ",\"method\":\"".spec_bytes() + json_escape(method)
        + "\",\"params\":".spec_bytes() + params + "}".spec_bytes()
}

/// The body of a JSON-RPC notification.
pub open spec fn notification_body(method: Seq<u8>, params: Seq<u8>) -> Seq<u8> {
    "{\"jsonrpc\":\"2.0\",\"method\":\"".spec_bytes() + json_escape(method) + "\",\"params\":".spec_bytes() + params
        + "}".spec_bytes()
}

/// The body of a successful JSON-RPC response to the request whose
/// identifier has the JSON text `id`.
pub open spec fn response_body(id: Seq<u8>, result: Seq<u8>) -> Seq<u8> {
    "{\"jsonrpc\":\"2.0\",\"id\":".spec_bytes() + id + ",\"result\":".spec_bytes() + result + "}".spec_bytes()
}

/// The body of the `MethodNotFound` (-32601) error response to the request
/// whose identifier has the JSON text `id`.
pub open spec fn method_not_found_body(id: Seq<u8>) -> Seq<u8> {
    "{\"jsonrpc\":\"2.0\",\"id\":".spec_bytes() + id
        + ",\"error\":{\"code\":-32601,\"message\":\"Method not found\"}}".spec_bytes()
}

/// The body of the `ParseError` (-32700) error response, whose `id` is null.
pub open spec fn parse_error_body() -> Seq<u8> {
    "{\"jsonrpc\":\"2.0\",\"id\":null,\"error\":{\"code\":-32700,\"message\":\"Parse error\"}}".spec_bytes()
}

/// The parameters of a cancellation: `{"id":N}`.
pub open spec fn cancel_params(id: nat) -> Seq<u8> {
    "{\"id\":".spec_bytes() + decimal(id) + "}".spec_bytes()
}

fn push_escaped(out: &mut Vec<u8>, m: &[u8])
    ensures
        final(out)@ == old(out)@ + json_escape(m@),
{
    let mut i: usize = 0;
    while i < m.len()
        invariant
            i <= m@.len(),
            out@ == old(out)@ + json_escape(m@.subrange(0, i as int)),
        decreases m@.len() - i,
    {
        let b = m[i];
        let ghost before = out@;
        if b == 34u8 || b == 92u8 {
            out.push(92u8);
            out.push(b);
        } else if b == 8u8 {
            out.push(92u8);
            out.push(98u8);
        } else if b == 9u8 {
            out.push(92u8);
            out.push(116u8);
        } else if b == 10u8 {
            out.push(92u8);
            out.push(110u8);
        } else if b == 12u8 {
            out.push(92u8);
            out.push(102u8);
        } else if b == 13u8 {
            out.push(92u8);
            out.push(114u8);
        } else if b < 32u8 {
            out.push(92u8);
            out.push(117u8);
            out.push(48u8);
            out.push(48u8);
            let hi = b / 16;
            let lo = b % 16;
            out.push(if hi < 10 { 48 + hi } else { 87 + hi });
            out.push(if lo < 10 { 48 + lo } else { 87 + lo });
        } else {
            out.push(b);
        }
        assert(out@ =~= before + escape_byte(b));
        assert(m@.subrange(0, i + 1).drop_last() =~= m@.subrange(0, i as int));
        i = i + 1;
    }
    assert(m@.subrange(0, i as int) =~= m@);
}

fn frame_body(body: &Vec<u8>) -> (r: Vec<u8>)
    ensures
        r@ == encode_spec(Seq::empty(), body@),
{
    let headers: Vec<Header> = Vec::new();
    let r = encode(&headers, body.as_slice());
    assert(crate::framer::headers_view(headers@) =~= Seq::<HeaderView>::empty());
    r
}

/// The frame of request `id` calling `method` with the JSON `params`.
pub fn request_frame(id: u64, method: &str, params: &[u8]) -> (r: Vec<u8>)
    ensures
        r@ == encode_spec(Seq::empty(), request_body(id as nat, method.spec_bytes(), params@)),
{
    let mut body: Vec<u8> = Vec::new();
    append(&mut body, "{\"jsonrpc\":\"2.0\",\"id\":".as_bytes());
    push_decimal(&mut body, id);
    append(&mut body, ",\"method\":\"".as_bytes());
    push_escaped(&mut body, method.as_bytes());
    append(&mut body, "\",\"params\":".as_bytes());
    append(&mut body, params);
    append(&mut body, "}".as_bytes());
    assert(body@ =~= request_body(id as nat, method.spec_bytes(), params@));
    frame_body(&body)
}

/// The frame of a notification of `method` with the JSON `params`.
pub fn notification_frame(method: &str, params: &[u8]) -> (r: Vec<u8>)
    ensures
        r@ == encode_spec(Seq::empty(), notification_body(method.spec_bytes(), params@)),
{
    let mut body: Vec<u8> = Vec::new();
    append(&mut body, "{\"jsonrpc\":\"2.0\",\"method\":\"".as_bytes());
    push_escaped(&mut body, method.as_bytes());
    append(&mut body, "\",\"params\":".as_bytes());
    append(&mut body, params);
    append(&mut body, "}".as_bytes());
    assert(body@ =~= notification_body(method.spec_bytes(), params@));
    frame_body(&body)
}

/// The frame answering the server's request, whose identifier has the JSON
/// text `id`, with the JSON `result`.
pub fn response_frame(id: &[u8], result: &[u8]) -> (r: Vec<u8>)
    ensures
        r@ == encode_spec(Seq::empty(), response_body(id@, result@)),
{
    let mut body: Vec<u8> = Vec::new();
    append(&mut body, "{\"jsonrpc\":\"2.0\",\"id\":".as_bytes());
    append(&mut body, id);
    append(&mut body, ",\"result\":".as_bytes());
    append(&mut body, result);
    append(&mut body, "}".as_bytes());
    assert(body@ =~= response_body(id@, result@));
    frame_body(&body)
}

/// The default answer to a server request that no handler takes; `id` is
/// the JSON text of its identifier.
pub fn method_not_found_frame(id: &[u8]) -> (r: Vec<u8>)
    ensures
        r@ == encode_spec(Seq::empty(), method_not_found_body(id@)),
{
    let mut body: Vec<u8> = Vec::new();
    append(&mut body, "{\"jsonrpc\":\"2.0\",\"id\":".as_bytes());
    append(&mut body, id);
    append(&mut body, ",\"error\":{\"code\":-32601,\"message\":\"Method not found\"}}".as_bytes());
    assert(body@ =~= method_not_found_body(id@));
    frame_body(&body)
}

/// The answer to a body that is not JSON.
pub fn parse_error_frame() -> (r: Vec<u8>)
    ensures
        r@ == encode_spec(Seq::empty(), parse_error_body()),
{
    let mut body: Vec<u8> = Vec::new();
    append(&mut body, "{\"jsonrpc\":\"2.0\",\"id\":null,\"error\":{\"code\":-32700,\"message\":\"Parse error\"}}".as_bytes());
    frame_body(&body)
}

/// The `$/cancelRequest` notification for request `id`.
pub fn cancel_frame(id: u64) -> (r: Vec<u8>)
    ensures
        r@ == encode_spec(
            Seq::empty(),
            notification_body("$/cancelRequest".spec_bytes(), cancel_params(id as nat)),
        ),
{
    let mut params: Vec<u8> = Vec::new();
    append(&mut params, "{\"id\":".as_bytes());
    push_decimal(&mut params, id);
    append(&mut params, "}".as_bytes());
    assert(params@ =~= cancel_params(id as nat));
    notification_frame("$/cancelRequest", params.as_slice())
}

#[verifier::external_type_specification]
#[verifier::external_body]
pub struct ExJsonError(serde_json::Error);

/// The JSON text of the initialize parameters for a workspace root: the
/// process id and root URI null, the root path set, default capabilities.
pub open spec fn initialize_params_json(root: Seq<char>) -> Seq<u8> {
    "{\"processId\":null,\"rootPath\":\"".spec_bytes() + json_escape(vstd::utf8::encode_utf8(root))
        + "\",\"rootUri\":null,\"capabilities\":{}}".spec_bytes()
}

/// Relies on lsp_types::InitializeParams (its derived `Default`, with
/// `root_path` set to the root) and serde_json::to_vec. Every other optional
/// member is skipped when absent but `processId` and `rootUri`, which are
/// null; the capabilities' members are all skipped, so they are `{}`; a string
/// is escaped by serde_json's table. `to_vec` fails only where a `Serialize`
/// impl fails or a map has non-string keys; these derived impls do neither.
#[verifier::external_body]
#[allow(deprecated)]
fn initialize_params_bytes(root: &str) -> (r: Result<Vec<u8>, serde_json::Error>)
    ensures
        r is Ok,
        r is Ok ==> r->Ok_0@ == initialize_params_json(root@),
{
    let params = lsp_types::InitializeParams { root_path: Some(root.to_string()), ..Default::default() };
    serde_json::to_vec(&params)
}

/// The initialize request `id` for the workspace `root`.
pub fn initialize_frame(id: u64, root: &str) -> (r: Vec<u8>)
    ensures
        r@ == encode_spec(
            Seq::empty(),
            request_body(id as nat, "initialize".spec_bytes(), initialize_params_json(root@)),
        ),
{
    match initialize_params_bytes(root) {
        Ok(params) => request_frame(id, "initialize", params.as_slice()),
        // serialization of these parameters does not fail
        Err(_) => Vec::new(),
    }
}

/// The body of the `initialized` notification, whose parameters are `{}`.
pub open spec fn initialized_body() -> Seq<u8> {
    notification_body("initialized".spec_bytes(), "{}".spec_bytes())
}

/// The `initialized` notification, sent once the initialize response arrived.
pub fn initialized_frame() -> (r: Vec<u8>)
    ensures
        r@ == encode_spec(Seq::empty(), initialized_body()),
{
    notification_frame("initialized", "{}".as_bytes())
}

/// The members of an inbound body that dispatch reads: `None` where the body
/// is not JSON; else the JSON text of its `id` member, that member as an
/// unsigned integer, the text of its `method` string, and the JSON text of its
/// `params`, `result` and `error` members, each where present.
pub uninterp spec fn message_shape(body: Seq<u8>) -> Option<
    (Option<Seq<u8>>, Option<u64>, Option<Seq<u8>>, Option<Seq<u8>>, Option<Seq<u8>>, Option<Seq<u8>>),
>;

pub open spec fn opt_view(o: Option<Vec<u8>>) -> Option<Seq<u8>> {
    match o {
        Some(v) => Some(v@),
        None => None,
    }
}

/// A shape with its byte vectors seen as sequences.
pub open spec fn shape_view(
    x: Option<(Option<Vec<u8>>, Option<u64>, Option<Vec<u8>>, Option<Vec<u8>>, Option<Vec<u8>>, Option<Vec<u8>>)>,
) -> Option<(Option<Seq<u8>>, Option<u64>, Option<Seq<u8>>, Option<Seq<u8>>, Option<Seq<u8>>, Option<Seq<u8>>)> {
    match x {
        None => None,
        Some((id, n, m, p, r, e)) => Some((opt_view(id), n, opt_view(m), opt_view(p), opt_view(r), opt_view(e))),
    }
}

/// Relies on serde_json::from_slice into a `serde_json::Value`, on
/// `Value::get`, `Value::as_u64` and `Value::as_str` to read its members, and
/// on serde_json::to_vec to write members back as JSON text; the outcome
/// depends on the bytes alone.
#[verifier::external_body]
fn inspect_body(body: &[u8]) -> (r: Option<
    (Option<Vec<u8>>, Option<u64>, Option<Vec<u8>>, Option<Vec<u8>>, Option<Vec<u8>>, Option<Vec<u8>>),
>)
    ensures
        shape_view(r) == message_shape(body@),
{
    let v: serde_json::Value = serde_json::from_slice(body).ok()?;
    let id = v.get("id");
    Some((
        id.and_then(|i| serde_json::to_vec(i).ok()),
        id.and_then(|i| i.as_u64()),
        v.get("method").and_then(|m| m.as_str()).map(|m| m.as_bytes().to_vec()),
        v.get("params").and_then(|x| serde_json::to_vec(x).ok()),
        v.get("result").and_then(|x| serde_json::to_vec(x).ok()),
        v.get("error").and_then(|x| serde_json::to_vec(x).ok()),
    ))
}

/// `"id"`, as the bytes that name the member.
pub open spec fn id_key() -> Seq<u8> {
    seq![34u8, 105u8, 100u8, 34u8]
}

/// Whether the bytes hold `"id"` anywhere: a body that is not JSON then
/// appears to be a request.
pub open spec fn mentions_id(b: Seq<u8>) -> bool {
    exists|i: int| 0 <= i && i + 4 <= b.len() && #[trigger] b.subrange(i, i + 4) == id_key()
}

fn mentions_id_exec(b: &[u8]) -> (r: bool)
    ensures
        r == mentions_id(b@),
{
    if b.len() < 4 {
        return false;
    }
    let mut i: usize = 0;
    while i <= b.len() - 4
        invariant
            b@.len() >= 4,
            i <= b@.len() - 3,
            forall|k: int| 0 <= k < i ==> #[trigger] b@.subrange(k, k + 4) != id_key(),
        decreases b@.len() - i,
    {
        if b[i] == 34u8 && b[i + 1] == 105u8 && b[i + 2] == 100u8 && b[i + 3] == 34u8 {
            assert(b@.subrange(i as int, i + 4) =~= id_key());
            return true;
        }
        assert(b@.subrange(i as int, i + 4)[0] == b@[i as int]);
        assert(b@.subrange(i as int, i + 4)[1] == b@[i + 1]);
        assert(b@.subrange(i as int, i + 4)[2] == b@[i + 2]);
        assert(b@.subrange(i as int, i + 4)[3] == b@[i + 3]);
        i = i + 1;
    }
    false
}

/// An inbound message, sorted by the JSON-RPC dispatch rules.
#[derive(Clone, PartialEq, Eq, Debug)]
pub enum Inbound {
    /// An `id` and no `method`: the response to request `id` (`None` where the
    /// identifier is not one this client hands out), with the JSON text of
    /// its `result` and `error` members.
    Response { id: Option<u64>, result: Option<Vec<u8>>, error: Option<Vec<u8>> },
    /// An `id` and a `method`: a request from the server, with the JSON text
    /// of its identifier and parameters.
    ServerRequest { id: Vec<u8>, method: Vec<u8>, params: Option<Vec<u8>> },
    /// A `method` and no `id`: a notification.
    Notification { method: Vec<u8>, params: Option<Vec<u8>> },
    /// JSON with neither `id` nor `method`.
    Invalid,
    /// The body is not JSON; `mentions_id` where it appears to be a request.
    Unparseable { mentions_id: bool },
}

/// The dispatch rule for a body of the given shape; `id_seen` tells whether a
/// body that is not JSON appears to carry an identifier.
pub open spec fn inbound_of(
    shape: Option<(Option<Seq<u8>>, Option<u64>, Option<Seq<u8>>, Option<Seq<u8>>, Option<Seq<u8>>, Option<Seq<u8>>)>,
    id_seen: bool,
    r: Inbound,
) -> bool {
    match shape {
        None => r == Inbound::Unparseable { mentions_id: id_seen },
        Some((id, n, m, p, res, err)) => match (id, m) {
            (Some(t), Some(name)) => match r {
                Inbound::ServerRequest { id: a, method: b, params: c } => a@ == t && b@ == name && opt_view(c) == p,
                _ => false,
            },
            (Some(_), None) => match r {
                Inbound::Response { id: a, result: b, error: c } => a == n && opt_view(b) == res && opt_view(c) == err,
                _ => false,
            },
            (None, Some(name)) => match r {
                Inbound::Notification { method: b, params: c } => b@ == name && opt_view(c) == p,
                _ => false,
            },
            (None, None) => r == Inbound::Invalid,
        },
    }
}

/// Sorts a message whose shape is known.
pub fn inbound_from_shape(
    shape: Option<(Option<Vec<u8>>, Option<u64>, Option<Vec<u8>>, Option<Vec<u8>>, Option<Vec<u8>>, Option<Vec<u8>>)>,
    id_seen: bool,
) -> (r: Inbound)
    ensures
        inbound_of(shape_view(shape), id_seen, r),
{
    match shape {
        None => Inbound::Unparseable { mentions_id: id_seen },
        Some((id, n, m, p, res, err)) => match (id, m) {
            (Some(t), Some(name)) => Inbound::ServerRequest { id: t, method: name, params: p },
            (Some(_), None) => Inbound::Response { id: n, result: res, error: err },
            (None, Some(name)) => Inbound::Notification { method: name, params: p },
            (None, None) => Inbound::Invalid,
        },
    }
}

/// Sorts an inbound body by the dispatch rules.
pub fn classify(body: &[u8]) -> (r: Inbound)
    ensures
        inbound_of(message_shape(body@), mentions_id(body@), r),
{
    let shape = inspect_body(body);
    let seen = mentions_id_exec(body);
    inbound_from_shape(shape, seen)
}

} // verus!
