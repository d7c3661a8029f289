//! The per-request dispatcher: it routes a tagged request to an operation,
//! turns the handler's outcome into the reply body and the observed error,
//! and maps transport-level failures to a distinct status.

use vstd::prelude::*;
use crate::error::{error_json, Error};
use crate::schema::Schema;
use crate::wire::{frame_tagged, lemma_reading_unique, parse_tagged, reads_as, tagged};

verus! {

/// The status of a reply delivered to the remote caller, whatever the
/// logical outcome.
pub const STATUS_OK: u16 = 200;

/// The status of a transport-level failure.
pub const STATUS_BAD_REQUEST: u16 = 400;

/// The code of the error sent back for a request that names no operation.
pub const PARSE_ERROR_CODE: i32 = 400;

/// Request-scoped state, owned by one dispatch: the inbound headers and the
/// response being built, whose status and headers (a cookie) a handler may
/// set.
pub struct Context {
    pub headers: Vec<(String, String)>,
    pub resp_status: u16,
    pub resp_headers: Vec<(String, String)>,
    pub resp_body: String,
}

impl Context {
    pub fn new(headers: Vec<(String, String)>) -> (r: Context)
        ensures
            r.headers@ == headers@,
            r.resp_status == STATUS_OK,
            r.resp_headers@.len() == 0,
            r.resp_body@.len() == 0,
    {
        Context { headers, resp_status: STATUS_OK, resp_headers: Vec::new(), resp_body: String::new() }
    }

    /// Adds a header to the response being built.
    pub fn set_header(&mut self, name: String, value: String)
        ensures
            final(self).resp_headers@ == old(self).resp_headers@.push((name, value)),
            final(self).headers@ == old(self).headers@,
            final(self).resp_status == old(self).resp_status,
            final(self).resp_body@ == old(self).resp_body@,
    {
        self.resp_headers.push((name, value));
    }

    /// Sets the status of the response being built.
    pub fn set_status(&mut self, status: u16)
        ensures
            final(self).resp_status == status,
            final(self).headers@ == old(self).headers@,
            final(self).resp_headers@ == old(self).resp_headers@,
            final(self).resp_body@ == old(self).resp_body@,
    {
        self.resp_status = status;
    }

    /// The response built so far, as a reply.
    pub fn into_reply(self) -> (r: Reply)
        ensures
            r.status == self.resp_status,
            r.headers@ == self.resp_headers@,
            r.body@ == self.resp_body@,
    {
        Reply { status: self.resp_status, headers: self.resp_headers, body: self.resp_body }
    }
}

/// What a handler's outcome becomes: the body sent on the wire and, for a
/// failure, the error kept for the local log.
pub struct Envelope {
    pub body: String,
    pub observed_error: Option<Error>,
}

/// The wire body of a successful outcome whose value encodes as `payload`.
pub open spec fn ok_body(payload: Seq<char>) -> Seq<char> {
    tagged("Ok"@, payload)
}

/// The wire body of a failed outcome.
pub open spec fn err_body(e: Error) -> Seq<char> {
    tagged("Err"@, e.spec_json())
}

/// A reply on the transport.
pub struct Reply {
    pub status: u16,
    pub headers: Vec<(String, String)>,
    pub body: String,
}

/// The first decision on a request.
pub enum Step {
    /// The request names no operation of the schema: this reply goes back and
    /// no handler runs.
    Reject(Reply),
    /// The request names the operation at this index, and `args` is the
    /// still undecoded text of its argument record. The record is decoded
    /// and the result handed to `accept_args` before any handler runs.
    Invoke { op: usize, args: String },
}

/// Decodes the tag of a request and finds its operation. A request is the
/// object whose single key is an operation's tag, up to JSON whitespace.
pub fn begin(schema: &Schema, request: &str) -> (r: Step)
    requires
        schema.wf(),
    ensures
        r matches Step::Invoke { op, args } ==> op < schema.spec_ops().len() && reads_as(
            request@,
            schema.spec_ops()[op as int].name@,
            args@,
        ),
        r matches Step::Reject(reply) ==> reply.status == STATUS_BAD_REQUEST && forall|
            i: int,
            p: Seq<char>,
        |
            0 <= i < schema.spec_ops().len() ==> !#[trigger] reads_as(
                request@,
                schema.spec_ops()[i].name@,
                p,
            ),
        r matches Step::Reject(reply) ==> reply.headers@.len() == 0 && reply.body@ == error_json(
            PARSE_ERROR_CODE as int,
            "無法解析請求"@,
        ),
        forall|i: int, p: Seq<char>|
            0 <= i < schema.spec_ops().len() && #[trigger] reads_as(
                request@,
                schema.spec_ops()[i].name@,
                p,
            ) ==> (r matches Step::Invoke { op, args } && op == i && args@ == p),
{
    match parse_tagged(request) {
        Some((tag, args)) => {
            match schema.find(tag.as_str()) {
                Some(op) => {
                    proof {
                        assert forall|i: int, p: Seq<char>|
                            0 <= i < schema.spec_ops().len() && #[trigger] reads_as(
                                request@,
                                schema.spec_ops()[i].name@,
                                p,
                            ) implies op == i && args@ == p by {
                            lemma_reading_unique(
                                request@,
                                schema.spec_ops()[i].name@,
                                p,
                                tag@,
                                args@,
                            );
                            crate::schema::lemma_tag_names_one_operation(schema, i, op as int);
                        }
                    }
                    Step::Invoke { op, args }
                },
                None => {
                    proof {
                        assert forall|i: int, p: Seq<char>|
                            0 <= i < schema.spec_ops().len() implies !#[trigger] reads_as(
                            request@,
                            schema.spec_ops()[i].name@,
                            p,
                        ) by {
                            if reads_as(request@, schema.spec_ops()[i].name@, p) {
                                lemma_reading_unique(
                                    request@,
                                    schema.spec_ops()[i].name@,
                                    p,
                                    tag@,
                                    args@,
                                );
                            }
                        }
                    }
                    Step::Reject(reject_request())
                },
            }
        },
        None => Step::Reject(reject_request()),
    }
}

/// The reply to a request that cannot be decoded: the transport error status
/// and the parse error object.
pub fn reject_request() -> (r: Reply)
    ensures
        r.status == STATUS_BAD_REQUEST,
        r.headers@.len() == 0,
        r.body@ == error_json(PARSE_ERROR_CODE as int, "無法解析請求"@),
{
    let e = Error::new_logic("無法解析請求", PARSE_ERROR_CODE);
    let body = e.to_json();
    Reply { status: STATUS_BAD_REQUEST, headers: Vec::new(), body }
}

/// The second decision on a request: whether its argument record decoded.
/// A record that did not is a decode failure like a malformed request, and
/// its rejection is returned; no handler runs.
pub fn accept_args(decoded: bool) -> (r: Option<Reply>)
    ensures
        decoded ==> r is None,
        !decoded ==> (r matches Some(reply) && reply.status == STATUS_BAD_REQUEST
            && reply.headers@.len() == 0 && reply.body@ == error_json(
            PARSE_ERROR_CODE as int,
            "無法解析請求"@,
        )),
{
    if decoded {
        None
    } else {
        Some(reject_request())
    }
}

/// Turns a handler's outcome into the envelope: the success payload or the
/// error, tagged, as the body, and the error alone as the observed error.
/// Both come from the one outcome, so they agree on success or failure.
pub fn encode_outcome(outcome: Result<String, Error>) -> (r: Envelope)
    ensures
        match outcome {
            Ok(p) => r.body@ == ok_body(p@) && r.observed_error is None,
            Err(e) => r.body@ == err_body(e) && r.observed_error == Some(e),
        },
{
    match outcome {
        Ok(p) => Envelope { body: frame_tagged("Ok", p.as_str()), observed_error: None },
        Err(e) => {
            let json = e.to_json();
            Envelope { body: frame_tagged("Err", json.as_str()), observed_error: Some(e) }
        },
    }
}

/// Finishes a dispatch: the outcome's body goes into the response being built
/// and the log line of the observed error, if any, is returned.
pub fn finish(ctx: &mut Context, outcome: Result<String, Error>) -> (r: Option<String>)
    ensures
        match outcome {
            Ok(p) => final(ctx).resp_body@ == old(ctx).resp_body@ + ok_body(p@) && r is None,
            Err(e) => final(ctx).resp_body@ == old(ctx).resp_body@ + err_body(e) && (r matches Some(
                line,
            ) && line@ == e.spec_log_record()),
        },
        final(ctx).headers@ == old(ctx).headers@,
        final(ctx).resp_status == old(ctx).resp_status,
        final(ctx).resp_headers@ == old(ctx).resp_headers@,
{
    let env = encode_outcome(outcome);
    ctx.resp_body.append(env.body.as_str());
    match env.observed_error {
        Some(e) => Some(e.log_line()),
        None => None,
    }
}

/// The reply for a dispatch: the response that was built, as it is, or the
/// error that stopped the dispatch, with the transport error status.
pub fn to_response(resp: Result<Reply, Error>) -> (r: Reply)
    ensures
        match resp {
            Ok(reply) => r == reply,
            Err(e) => r.status == STATUS_BAD_REQUEST && r.headers@.len() == 0 && r.body@
                == e.spec_json(),
        },
{
    match resp {
        Ok(reply) => reply,
        Err(err) => Reply { status: STATUS_BAD_REQUEST, headers: Vec::new(), body: err.to_json() },
    }
}

/// Redaction on the wire: the reply body of a failed outcome is the same for
/// every internal error, so neither its message nor its cause is sent.
pub proof fn lemma_internal_reply_redacted(e: Error, f: Error)
    requires
        e is InternalError,
        f is InternalError,
    ensures
        err_body(e) == err_body(f),
{
    crate::error::lemma_internal_cause_redacted(e, f);
}

} // verus!
