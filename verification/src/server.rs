//! The per-message logic of the IPC server: answer the two built-in
//! introspection methods, delegate everything else to the injected dispatch
//! capability, and wrap the outcome as a response.
//!
//! The socket itself — binding, accepting, reading and writing — is I/O and
//! lives with the hosting program; it hands each inbound message's text to
//! [`IpcServer::handle_message`] and writes back the returned text.

use vstd::prelude::*;
use crate::json::{Json, JsonV, arr_view, lemma_arr_view, obj_view, lemma_obj_view};
use crate::protocol::{
    JsonRpcRequest, JsonRpcResponse, ResponseV, spec_ok, spec_err, spec_json_of_response,
    spec_parse_request, id_view, parse_request, serialize_response,
};
use crate::text::encode_of;
use crate::registry::{Tool, ToolV, spec_json_of_tool};
use crate::router::ProprioHandler;

verus! {

broadcast use vstd::std_specs::vec::group_vec_axioms, vstd::seq::group_seq_axioms;

/// The models of a tool list, in order.
pub open spec fn tool_views(tools: Seq<Tool>) -> Seq<ToolV> {
    Seq::new(tools.len(), |i: int| tools[i]@)
}

/// The manifest document: one object whose `tools` member lists every tool
/// the server was constructed with, in that order.
pub open spec fn spec_manifest_json(tools: Seq<ToolV>) -> JsonV {
    JsonV::Obj(
        seq![
            ("tools"@, JsonV::Arr(Seq::new(tools.len(), |i: int| spec_json_of_tool(tools[i])))),
        ],
    )
}

/// The response to a dispatch outcome: the result in a success response, or
/// the capability's message under the application error code.
pub open spec fn spec_dispatch_response(id: Option<int>, out: Result<JsonV, Seq<char>>) -> ResponseV {
    match out {
        Ok(v) => spec_ok(id, v),
        Err(m) => spec_err(id, -32000, m),
    }
}

pub open spec fn out_view(out: Result<Json, String>) -> Result<JsonV, Seq<char>> {
    match out {
        Ok(v) => Ok(v@),
        Err(m) => Err(m@),
    }
}

/// A method nobody routes is answered as an error response under the
/// application error code, carrying the router's message, which names the
/// method; the request's id is echoed.
pub proof fn lemma_unknown_method(id: Option<int>, m: Seq<char>)
    ensures
        spec_dispatch_response(id, Err(crate::router::not_found_msg(m))) == spec_err(
            id,
            -32000,
            crate::router::not_found_msg(m),
        ),
        spec_dispatch_response(id, Err(crate::router::not_found_msg(m))).id == id,
{
}

/// Wraps one dispatch outcome as the response to send.
pub fn dispatch_response(id: Option<u64>, outcome: Result<Json, String>) -> (r: JsonRpcResponse)
    ensures
        r@ == spec_dispatch_response(id_view(id), out_view(outcome)),
{
    match outcome {
        Ok(v) => JsonRpcResponse::ok(id, v),
        Err(m) => JsonRpcResponse::err(id, -32000, m.as_str()),
    }
}

/// One application's transport endpoint: the socket path to serve on, the
/// immutable tool list, and the injected dispatch capability.  Stateless
/// across connections.
pub struct IpcServer<P> {
    pub socket_path: String,
    pub tools: Vec<Tool>,
    pub handler: P,
}

impl<P: ProprioHandler> IpcServer<P> {
    /// A server from its socket path, tool list and dispatch capability.
    pub fn new(socket_path: &str, tools: Vec<Tool>, handler: P) -> (s: IpcServer<P>)
        ensures
            s.socket_path@ == socket_path@,
            s.tools == tools,
            s.handler == handler,
    {
        IpcServer { socket_path: socket_path.to_owned(), tools, handler }
    }

    /// The manifest document for this server's tools.
    #[verifier::loop_isolation(false)]
    pub fn manifest_json(&self) -> (j: Json)
        ensures
            j@ == spec_manifest_json(tool_views(self.tools@)),
    {
        let mut arr: Vec<Json> = Vec::new();
        let mut i: usize = 0;
        while i < self.tools.len()
            invariant
                i <= self.tools@.len(),
                arr@.len() == i as int,
                forall|k: int| 0 <= k < i ==> arr@[k]@ == spec_json_of_tool(self.tools@[k]@),
            decreases self.tools@.len() - i,
        {
            arr.push(self.tools[i].to_json());
            i = i + 1;
        }
        let mut members: Vec<(String, Json)> = Vec::new();
        members.push(("tools".to_owned(), Json::Arr(arr)));
        proof {
            let tv = tool_views(self.tools@);
            lemma_arr_view(arr@);
            assert(arr_view(arr@) =~= Seq::new(tv.len(), |k: int| spec_json_of_tool(tv[k])));
            lemma_obj_view(members@);
            assert(obj_view(members@)[0] == ("tools"@, JsonV::Arr(arr_view(arr@))));
            assert(obj_view(members@) =~= spec_manifest_json(tv)->Obj_0);
        }
        Json::Obj(members)
    }

    /// Answers one message, already parsed or found unparseable.
    ///
    /// Unparseable input gets the parse-error response with no id, since
    /// none could be recovered.  `__proprio_ping__` and
    /// `__proprio_manifest__` are answered here, without touching the
    /// dispatch capability; any other method is forwarded to it and its
    /// outcome wrapped by [`dispatch_response`].  Every response echoes the
    /// request's id and carries exactly one of result and error.
    pub fn respond(&self, parsed: Option<JsonRpcRequest>) -> (r: JsonRpcResponse)
        ensures
            (r@.result is Some) <==> !(r@.error is Some),
            r@.id == (match parsed {
                Some(req) => id_view(req.id),
                None => None::<int>,
            }),
            parsed is None ==> r@ == spec_err(None, -32700, "Parse error"@),
            parsed matches Some(req) ==> {
                &&& req.method@ == "__proprio_ping__"@ ==> r@ == spec_ok(
                    id_view(req.id),
                    JsonV::Str("pong"@),
                )
                &&& req.method@ != "__proprio_ping__"@ && req.method@ == "__proprio_manifest__"@
                    ==> r@ == spec_ok(id_view(req.id), spec_manifest_json(tool_views(self.tools@)))
                &&& req.method@ != "__proprio_ping__"@ && req.method@ != "__proprio_manifest__"@
                    ==> exists|out: Result<JsonV, Seq<char>>|
                    r@ == spec_dispatch_response(id_view(req.id), out)
            },
    {
        let req = match parsed {
            Some(req) => req,
            None => {
                return JsonRpcResponse::err(None, -32700, "Parse error");
            },
        };
        if req.method == "__proprio_ping__".to_owned() {
            JsonRpcResponse::ok(req.id, Json::Str("pong".to_owned()))
        } else if req.method == "__proprio_manifest__".to_owned() {
            JsonRpcResponse::ok(req.id, self.manifest_json())
        } else {
            let out = self.handler.execute(req.method.as_str(), req.params);
            let ghost gout = out_view(out);
            let r = dispatch_response(req.id, out);
            proof {
                assert(r@ == spec_dispatch_response(id_view(req.id), gout));
            }
            r
        }
    }

    /// Handles one wire message: reads it as a request, answers it as
    /// [`Self::respond`] does, and returns that response's wire text — the
    /// compact encoding of its document.
    pub fn handle_message(&self, msg: &str) -> (r: String)
        ensures
            exists|resp: ResponseV|
                {
                    &&& #[trigger] r@ == encode_of(spec_json_of_response(resp))
                    &&& (resp.result is Some) <==> !(resp.error is Some)
                    &&& resp.id == (match spec_parse_request(msg@) {
                        Some(q) => q.id,
                        None => None::<int>,
                    })
                    &&& spec_parse_request(msg@) is None ==> resp == spec_err(
                        None,
                        -32700,
                        "Parse error"@,
                    )
                    &&& spec_parse_request(msg@) matches Some(q) ==> {
                        &&& q.method == "__proprio_ping__"@ ==> resp == spec_ok(
                            q.id,
                            JsonV::Str("pong"@),
                        )
                        &&& q.method != "__proprio_ping__"@ && q.method == "__proprio_manifest__"@
                            ==> resp == spec_ok(q.id, spec_manifest_json(tool_views(self.tools@)))
                        &&& q.method != "__proprio_ping__"@ && q.method != "__proprio_manifest__"@
                            ==> exists|out: Result<JsonV, Seq<char>>|
                            resp == spec_dispatch_response(q.id, out)
                    }
                },
    {
        let parsed = parse_request(msg);
        let ghost gp = parsed;
        let resp = self.respond(parsed);
        let ghost rv = resp@;
        let r = serialize_response(resp);
        proof {
            match gp {
                Some(req) => {
                    assert(spec_parse_request(msg@) == Some(req@));
                    assert(req@.id == id_view(req.id));
                },
                None => {
                    assert(spec_parse_request(msg@) is None);
                },
            }
            assert(r@ == encode_of(spec_json_of_response(rv)));
        }
        r
    }
}

} // verus!
