//! The wire-level request/response shapes and their structural codec.
//!
//! A message is one document on the wire.  Its structure — which members a
//! request or response carries and what each holds — is decided here, over
//! [`Json`] values; the text leg is in [`crate::text`].

use vstd::prelude::*;
use crate::json::{Json, JsonV, first_entry, obj_view, lemma_obj_view, opt_json_view, lemma_pop_prefix, lemma_suffix_step};
use crate::text::{encode_of, decode_of};

verus! {

broadcast use vstd::std_specs::vec::group_vec_axioms, vstd::seq::group_seq_axioms;

/// A failure reported inside a response.
#[derive(Debug, PartialEq)]
pub struct JsonRpcError {
    pub code: i32,
    pub message: String,
}

/// What a caller sends: a method name, optional parameters, an optional
/// correlation id that is echoed back.
#[derive(Debug, PartialEq)]
pub struct JsonRpcRequest {
    pub jsonrpc: String,
    pub method: String,
    pub params: Option<Json>,
    pub id: Option<u64>,
}

/// What the server replies: exactly one of `result`/`error` is set by the
/// constructors, and `id` echoes the request's.
#[derive(Debug, PartialEq)]
pub struct JsonRpcResponse {
    pub jsonrpc: String,
    pub result: Option<Json>,
    pub error: Option<JsonRpcError>,
    pub id: Option<u64>,
}

#[verifier::ext_equal]
pub struct ErrorV {
    pub code: int,
    pub message: Seq<char>,
}

#[verifier::ext_equal]
pub struct RequestV {
    pub jsonrpc: Seq<char>,
    pub method: Seq<char>,
    pub params: Option<JsonV>,
    pub id: Option<int>,
}

#[verifier::ext_equal]
pub struct ResponseV {
    pub jsonrpc: Seq<char>,
    pub result: Option<JsonV>,
    pub error: Option<ErrorV>,
    pub id: Option<int>,
}

impl View for JsonRpcError {
    type V = ErrorV;

    open spec fn view(&self) -> ErrorV {
        ErrorV { code: self.code as int, message: self.message@ }
    }
}

pub open spec fn id_view(id: Option<u64>) -> Option<int> {
    match id {
        Some(i) => Some(i as int),
        None => None,
    }
}

pub open spec fn params_view(params: Option<Json>) -> Option<JsonV> {
    match params {
        Some(p) => Some(p@),
        None => None,
    }
}

pub open spec fn error_view(error: Option<JsonRpcError>) -> Option<ErrorV> {
    match error {
        Some(e) => Some(e@),
        None => None,
    }
}

impl View for JsonRpcRequest {
    type V = RequestV;

    open spec fn view(&self) -> RequestV {
        RequestV {
            jsonrpc: self.jsonrpc@,
            method: self.method@,
            params: params_view(self.params),
            id: id_view(self.id),
        }
    }
}

impl View for JsonRpcResponse {
    type V = ResponseV;

    open spec fn view(&self) -> ResponseV {
        ResponseV {
            jsonrpc: self.jsonrpc@,
            result: params_view(self.result),
            error: error_view(self.error),
            id: id_view(self.id),
        }
    }
}

/// A success response: `result` set, no error, version tag fixed.
pub open spec fn spec_ok(id: Option<int>, result: JsonV) -> ResponseV {
    ResponseV { jsonrpc: "2.0"@, result: Some(result), error: None, id }
}

/// An error response: `error` set, no result, version tag fixed.
pub open spec fn spec_err(id: Option<int>, code: int, message: Seq<char>) -> ResponseV {
    ResponseV {
        jsonrpc: "2.0"@,
        result: None,
        error: Some(ErrorV { code, message }),
        id,
    }
}

impl JsonRpcResponse {
    /// A success response carrying `result`.
    pub fn ok(id: Option<u64>, result: Json) -> (r: JsonRpcResponse)
        ensures
            r@ == spec_ok(id_view(id), result@),
    {
        JsonRpcResponse { jsonrpc: "2.0".to_owned(), result: Some(result), error: None, id }
    }

    /// An error response carrying `code` and `message`.
    pub fn err(id: Option<u64>, code: i32, msg: &str) -> (r: JsonRpcResponse)
        ensures
            r@ == spec_err(id_view(id), code as int, msg@),
    {
        JsonRpcResponse {
            jsonrpc: "2.0".to_owned(),
            result: None,
            error: Some(JsonRpcError { code, message: msg.to_owned() }),
            id,
        }
    }
}

/// The constructors are exclusive: `ok` always carries exactly the result
/// and no error, `err` exactly the error and no result, and both echo `id`.
pub proof fn lemma_constructors_exclusive(id: Option<int>, v: JsonV, c: int, m: Seq<char>)
    ensures
        spec_ok(id, v).result == Some(v),
        spec_ok(id, v).error is None,
        spec_ok(id, v).id == id,
        spec_err(id, c, m).result is None,
        spec_err(id, c, m).error == Some((ErrorV { code: c, message: m })),
        spec_err(id, c, m).id == id,
{
}

/// The `params` member: absent stands for no parameters, and so does an
/// explicit null.
pub open spec fn spec_params_field(f: Option<JsonV>) -> Option<JsonV> {
    match f {
        None => None,
        Some(JsonV::Null) => None,
        Some(p) => Some(p),
    }
}

/// The `id` member: absent or null is no id; an unsigned 64-bit integer is
/// an id; anything else makes the request ill-formed.
pub open spec fn spec_id_field(f: Option<JsonV>) -> Option<Option<int>> {
    match f {
        None => Some(None),
        Some(JsonV::Null) => Some(None),
        Some(JsonV::Int(i)) => if 0 <= i <= u64::MAX { Some(Some(i)) } else { None },
        _ => None,
    }
}

/// The document structure of a request: one object with the four members,
/// in this order, absent options written as null.
pub open spec fn spec_json_of_request(r: RequestV) -> JsonV {
    JsonV::Obj(
        seq![
            ("jsonrpc"@, JsonV::Str(r.jsonrpc)),
            ("method"@, JsonV::Str(r.method)),
            (
                "params"@,
                match r.params {
                    Some(p) => p,
                    None => JsonV::Null,
                },
            ),
            (
                "id"@,
                match r.id {
                    Some(i) => JsonV::Int(i),
                    None => JsonV::Null,
                },
            ),
        ],
    )
}

/// What a document means as a request, if anything: it must be an object
/// whose `jsonrpc` and `method` members are strings; `params` and `id` are
/// read as [`spec_params_field`] and [`spec_id_field`] say; members under
/// other keys are ignored; of members sharing a key the first counts.
pub open spec fn spec_request_of_json(v: JsonV) -> Option<RequestV> {
    match v {
        JsonV::Obj(o) => match (first_entry(o, "jsonrpc"@), first_entry(o, "method"@)) {
            (Some(JsonV::Str(jr)), Some(JsonV::Str(m))) => match spec_id_field(
                first_entry(o, "id"@),
            ) {
                Some(id) => Some(
                    RequestV {
                        jsonrpc: jr,
                        method: m,
                        params: spec_params_field(first_entry(o, "params"@)),
                        id,
                    },
                ),
                None => None,
            },
            _ => None,
        },
        _ => None,
    }
}

pub open spec fn opt_request_view(r: Option<JsonRpcRequest>) -> Option<RequestV> {
    match r {
        Some(q) => Some(q@),
        None => None,
    }
}

/// Builds the document that carries a request.
pub fn json_of_request(req: JsonRpcRequest) -> (j: Json)
    ensures
        j@ == spec_json_of_request(req@),
{
    let ghost rv = req@;
    let mut members: Vec<(String, Json)> = Vec::new();
    members.push(("jsonrpc".to_owned(), Json::Str(req.jsonrpc)));
    members.push(("method".to_owned(), Json::Str(req.method)));
    members.push((
        "params".to_owned(),
        match req.params {
            Some(p) => p,
            None => Json::Null,
        },
    ));
    members.push((
        "id".to_owned(),
        match req.id {
            Some(i) => Json::UInt(i),
            None => Json::Null,
        },
    ));
    proof {
        lemma_obj_view(members@);
        assert(obj_view(members@)[0] == ("jsonrpc"@, JsonV::Str(rv.jsonrpc)));
        assert(obj_view(members@)[1] == ("method"@, JsonV::Str(rv.method)));
        assert(obj_view(members@)[2] == (
            "params"@,
            match rv.params {
                Some(p) => p,
                None => JsonV::Null,
            },
        ));
        assert(obj_view(members@)[3] == (
            "id"@,
            match rv.id {
                Some(i) => JsonV::Int(i),
                None => JsonV::Null,
            },
        ));
        assert(obj_view(members@) =~= spec_json_of_request(rv)->Obj_0);
    }
    Json::Obj(members)
}

/// Reads a request out of a document, exactly as [`spec_request_of_json`]
/// says.
#[verifier::loop_isolation(false)]
pub fn request_of_json(j: Json) -> (r: Option<JsonRpcRequest>)
    ensures
        opt_request_view(r) == spec_request_of_json(j@),
{
    let mut entries: Vec<(String, Json)> = match j {
        Json::Obj(entries) => entries,
        _ => {
            return None;
        },
    };
    let ghost orig = entries@;
    let ghost ov = obj_view(orig);
    proof {
        lemma_obj_view(orig);
        assert(ov.subrange(orig.len() as int, ov.len() as int) =~= Seq::<(Seq<char>, JsonV)>::empty());
    }
    let key_jsonrpc = "jsonrpc".to_owned();
    let key_method = "method".to_owned();
    let key_params = "params".to_owned();
    let key_id = "id".to_owned();
    let mut f_jsonrpc: Option<Json> = None;
    let mut f_method: Option<Json> = None;
    let mut f_params: Option<Json> = None;
    let mut f_id: Option<Json> = None;
    while entries.len() > 0
        invariant
            entries@.len() <= orig.len(),
            entries@ == orig.subrange(0, entries@.len() as int),
            opt_json_view(f_jsonrpc) == first_entry(
                ov.subrange(entries@.len() as int, ov.len() as int),
                "jsonrpc"@,
            ),
            opt_json_view(f_method) == first_entry(
                ov.subrange(entries@.len() as int, ov.len() as int),
                "method"@,
            ),
            opt_json_view(f_params) == first_entry(
                ov.subrange(entries@.len() as int, ov.len() as int),
                "params"@,
            ),
            opt_json_view(f_id) == first_entry(ov.subrange(entries@.len() as int, ov.len() as int), "id"@),
        decreases entries@.len(),
    {
        let ghost pre = entries@;
        let pair = match entries.pop() {
            Some(pair) => pair,
            None => {
                return None;
            },
        };
        proof {
            reveal_strlit("jsonrpc");
            reveal_strlit("method");
            reveal_strlit("params");
            reveal_strlit("id");
            assert("jsonrpc"@.len() == 7 && "method"@.len() == 6 && "params"@.len() == 6
                && "id"@.len() == 2);
            assert("method"@[0] == 'm' && "params"@[0] == 'p');
            let k = entries@.len() as int;
            lemma_pop_prefix(orig, pre, entries@);
            assert(pair == orig[k]);
            lemma_suffix_step(ov, k);
            assert(ov[k] == (orig[k].0@, orig[k].1@));
        }
        if pair.0 == key_jsonrpc {
            f_jsonrpc = Some(pair.1);
        } else if pair.0 == key_method {
            f_method = Some(pair.1);
        } else if pair.0 == key_params {
            f_params = Some(pair.1);
        } else if pair.0 == key_id {
            f_id = Some(pair.1);
        }
    }
    proof {
        assert(ov.subrange(0, ov.len() as int) =~= ov);
    }
    let jsonrpc = match f_jsonrpc {
        Some(Json::Str(s)) => s,
        _ => {
            return None;
        },
    };
    let method = match f_method {
        Some(Json::Str(s)) => s,
        _ => {
            return None;
        },
    };
    let id: Option<u64> = match f_id {
        None => None,
        Some(Json::Null) => None,
        Some(Json::Int(i)) => if i >= 0 {
            Some(i as u64)
        } else {
            return None;
        },
        Some(Json::UInt(u)) => Some(u),
        _ => {
            return None;
        },
    };
    let params = match f_params {
        None => None,
        Some(Json::Null) => None,
        Some(p) => Some(p),
    };
    Some(JsonRpcRequest { jsonrpc, method, params, id })
}

/// The document structure of a reported failure: one object with the code
/// and the message.
pub open spec fn spec_json_of_error(e: ErrorV) -> JsonV {
    JsonV::Obj(seq![("code"@, JsonV::Int(e.code)), ("message"@, JsonV::Str(e.message))])
}

/// The document structure of a response: one object with the four members,
/// in this order, absent options written as null.
pub open spec fn spec_json_of_response(r: ResponseV) -> JsonV {
    JsonV::Obj(
        seq![
            ("jsonrpc"@, JsonV::Str(r.jsonrpc)),
            (
                "result"@,
                match r.result {
                    Some(v) => v,
                    None => JsonV::Null,
                },
            ),
            (
                "error"@,
                match r.error {
                    Some(e) => spec_json_of_error(e),
                    None => JsonV::Null,
                },
            ),
            (
                "id"@,
                match r.id {
                    Some(i) => JsonV::Int(i),
                    None => JsonV::Null,
                },
            ),
        ],
    )
}

/// Builds the document that carries a response.
pub fn json_of_response(resp: JsonRpcResponse) -> (j: Json)
    ensures
        j@ == spec_json_of_response(resp@),
{
    let ghost rv = resp@;
    let error_json = match resp.error {
        Some(e) => {
            let ghost ev = e@;
            let mut emembers: Vec<(String, Json)> = Vec::new();
            emembers.push(("code".to_owned(), Json::Int(e.code as i64)));
            emembers.push(("message".to_owned(), Json::Str(e.message)));
            proof {
                lemma_obj_view(emembers@);
                assert(obj_view(emembers@)[0] == ("code"@, JsonV::Int(ev.code)));
                assert(obj_view(emembers@)[1] == ("message"@, JsonV::Str(ev.message)));
                assert(obj_view(emembers@) =~= spec_json_of_error(ev)->Obj_0);
            }
            Json::Obj(emembers)
        },
        None => Json::Null,
    };
    let mut members: Vec<(String, Json)> = Vec::new();
    members.push(("jsonrpc".to_owned(), Json::Str(resp.jsonrpc)));
    members.push((
        "result".to_owned(),
        match resp.result {
            Some(v) => v,
            None => Json::Null,
        },
    ));
    members.push(("error".to_owned(), error_json));
    members.push((
        "id".to_owned(),
        match resp.id {
            Some(i) => Json::UInt(i),
            None => Json::Null,
        },
    ));
    proof {
        lemma_obj_view(members@);
        assert(obj_view(members@)[0] == ("jsonrpc"@, JsonV::Str(rv.jsonrpc)));
        assert(obj_view(members@)[1] == (
            "result"@,
            match rv.result {
                Some(v) => v,
                None => JsonV::Null,
            },
        ));
        assert(obj_view(members@)[2] == (
            "error"@,
            match rv.error {
                Some(e) => spec_json_of_error(e),
                None => JsonV::Null,
            },
        ));
        assert(obj_view(members@)[3] == (
            "id"@,
            match rv.id {
                Some(i) => JsonV::Int(i),
                None => JsonV::Null,
            },
        ));
        assert(obj_view(members@) =~= spec_json_of_response(rv)->Obj_0);
    }
    Json::Obj(members)
}

/// Writes a request as one wire message: the compact encoding of its
/// document.
pub fn serialize_request(req: JsonRpcRequest) -> (r: String)
    ensures
        r@ == encode_of(spec_json_of_request(req@)),
{
    crate::text::json_to_text(&json_of_request(req))
}

/// What wire text means as a request, if anything: the text must decode to
/// one document, and that document must be a request's.
pub open spec fn spec_parse_request(s: Seq<char>) -> Option<RequestV> {
    match decode_of(s) {
        Some(v) => spec_request_of_json(v),
        None => None,
    }
}

/// Reads one wire message as a request, exactly as [`spec_parse_request`]
/// says.
pub fn parse_request(s: &str) -> (r: Option<JsonRpcRequest>)
    ensures
        opt_request_view(r) == spec_parse_request(s@),
{
    match crate::text::text_to_json(s) {
        Some(j) => request_of_json(j),
        None => None,
    }
}

/// Writes a response as one wire message: the compact encoding of its
/// document.
pub fn serialize_response(resp: JsonRpcResponse) -> (r: String)
    ensures
        r@ == encode_of(spec_json_of_response(resp@)),
{
    crate::text::json_to_text(&json_of_response(resp))
}

/// What a document means as a reported failure, if anything: an object
/// whose `code` member is a signed 32-bit integer and whose `message`
/// member is a string.
pub open spec fn spec_error_of_json(v: JsonV) -> Option<ErrorV> {
    match v {
        JsonV::Obj(o) => match (first_entry(o, "code"@), first_entry(o, "message"@)) {
            (Some(JsonV::Int(c)), Some(JsonV::Str(m))) => if i32::MIN <= c <= i32::MAX {
                Some(ErrorV { code: c, message: m })
            } else {
                None
            },
            _ => None,
        },
        _ => None,
    }
}

/// The `error` member: absent or null is no error; an error object is one;
/// anything else makes the response ill-formed.
pub open spec fn spec_error_field(f: Option<JsonV>) -> Option<Option<ErrorV>> {
    match f {
        None => Some(None),
        Some(JsonV::Null) => Some(None),
        Some(v) => match spec_error_of_json(v) {
            Some(e) => Some(Some(e)),
            None => None,
        },
    }
}

/// What a document means as a response, if anything: an object whose
/// `jsonrpc` member is a string; `result` is read like a request's
/// `params`, `error` as [`spec_error_field`] says, `id` as
/// [`spec_id_field`] says; members under other keys are ignored; of
/// members sharing a key the first counts.
pub open spec fn spec_response_of_json(v: JsonV) -> Option<ResponseV> {
    match v {
        JsonV::Obj(o) => match first_entry(o, "jsonrpc"@) {
            Some(JsonV::Str(jr)) => match (
                spec_error_field(first_entry(o, "error"@)),
                spec_id_field(first_entry(o, "id"@)),
            ) {
                (Some(error), Some(id)) => Some(
                    ResponseV {
                        jsonrpc: jr,
                        result: spec_params_field(first_entry(o, "result"@)),
                        error,
                        id,
                    },
                ),
                _ => None,
            },
            _ => None,
        },
        _ => None,
    }
}

pub open spec fn opt_response_view(r: Option<JsonRpcResponse>) -> Option<ResponseV> {
    match r {
        Some(q) => Some(q@),
        None => None,
    }
}

spec fn opt_error_view(r: Option<JsonRpcError>) -> Option<ErrorV> {
    match r {
        Some(e) => Some(e@),
        None => None,
    }
}

/// Reads a reported failure out of a document, exactly as
/// [`spec_error_of_json`] says.
#[verifier::loop_isolation(false)]
fn error_of_json(j: Json) -> (r: Option<JsonRpcError>)
    ensures
        opt_error_view(r) == spec_error_of_json(j@),
{
    let mut entries: Vec<(String, Json)> = match j {
        Json::Obj(entries) => entries,
        _ => {
            return None;
        },
    };
    let ghost orig = entries@;
    let ghost ov = obj_view(orig);
    proof {
        lemma_obj_view(orig);
        assert(ov.subrange(orig.len() as int, ov.len() as int) =~= Seq::<(
            Seq<char>,
            JsonV,
        )>::empty());
    }
    let key_code = "code".to_owned();
    let key_message = "message".to_owned();
    let mut f_code: Option<Json> = None;
    let mut f_message: Option<Json> = None;
    while entries.len() > 0
        invariant
            entries@.len() <= orig.len(),
            entries@ == orig.subrange(0, entries@.len() as int),
            opt_json_view(f_code) == first_entry(
                ov.subrange(entries@.len() as int, ov.len() as int),
                "code"@,
            ),
            opt_json_view(f_message) == first_entry(
                ov.subrange(entries@.len() as int, ov.len() as int),
                "message"@,
            ),
        decreases entries@.len(),
    {
        let ghost pre = entries@;
        let pair = match entries.pop() {
            Some(pair) => pair,
            None => {
                return None;
            },
        };
        proof {
            reveal_strlit("code");
            reveal_strlit("message");
            assert("code"@.len() == 4 && "message"@.len() == 7);
            let k = entries@.len() as int;
            lemma_pop_prefix(orig, pre, entries@);
            assert(pair == orig[k]);
            lemma_suffix_step(ov, k);
            assert(ov[k] == (orig[k].0@, orig[k].1@));
        }
        if pair.0 == key_code {
            f_code = Some(pair.1);
        } else if pair.0 == key_message {
            f_message = Some(pair.1);
        }
    }
    proof {
        assert(ov.subrange(0, ov.len() as int) =~= ov);
    }
    let code: i32 = match f_code {
        Some(Json::Int(i)) => if i32::MIN as i64 <= i && i <= i32::MAX as i64 {
            i as i32
        } else {
            return None;
        },
        Some(Json::UInt(u)) => if u <= i32::MAX as u64 {
            u as i32
        } else {
            return None;
        },
        _ => {
            return None;
        },
    };
    let message = match f_message {
        Some(Json::Str(s)) => s,
        _ => {
            return None;
        },
    };
    Some(JsonRpcError { code, message })
}

/// Reads a response out of a document, exactly as [`spec_response_of_json`]
/// says.
#[verifier::loop_isolation(false)]
pub fn response_of_json(j: Json) -> (r: Option<JsonRpcResponse>)
    ensures
        opt_response_view(r) == spec_response_of_json(j@),
{
    let mut entries: Vec<(String, Json)> = match j {
        Json::Obj(entries) => entries,
        _ => {
            return None;
        },
    };
    let ghost orig = entries@;
    let ghost ov = obj_view(orig);
    proof {
        lemma_obj_view(orig);
        assert(ov.subrange(orig.len() as int, ov.len() as int) =~= Seq::<(
            Seq<char>,
            JsonV,
        )>::empty());
    }
    let key_jsonrpc = "jsonrpc".to_owned();
    let key_result = "result".to_owned();
    let key_error = "error".to_owned();
    let key_id = "id".to_owned();
    let mut f_jsonrpc: Option<Json> = None;
    let mut f_result: Option<Json> = None;
    let mut f_error: Option<Json> = None;
    let mut f_id: Option<Json> = None;
    while entries.len() > 0
        invariant
            entries@.len() <= orig.len(),
            entries@ == orig.subrange(0, entries@.len() as int),
            opt_json_view(f_jsonrpc) == first_entry(
                ov.subrange(entries@.len() as int, ov.len() as int),
                "jsonrpc"@,
            ),
            opt_json_view(f_result) == first_entry(
                ov.subrange(entries@.len() as int, ov.len() as int),
                "result"@,
            ),
            opt_json_view(f_error) == first_entry(
                ov.subrange(entries@.len() as int, ov.len() as int),
                "error"@,
            ),
            opt_json_view(f_id) == first_entry(
                ov.subrange(entries@.len() as int, ov.len() as int),
                "id"@,
            ),
        decreases entries@.len(),
    {
        let ghost pre = entries@;
        let pair = match entries.pop() {
            Some(pair) => pair,
            None => {
                return None;
            },
        };
        proof {
            reveal_strlit("jsonrpc");
            reveal_strlit("result");
            reveal_strlit("error");
            reveal_strlit("id");
            assert("jsonrpc"@.len() == 7 && "result"@.len() == 6 && "error"@.len() == 5
                && "id"@.len() == 2);
            let k = entries@.len() as int;
            lemma_pop_prefix(orig, pre, entries@);
            assert(pair == orig[k]);
            lemma_suffix_step(ov, k);
            assert(ov[k] == (orig[k].0@, orig[k].1@));
        }
        if pair.0 == key_jsonrpc {
            f_jsonrpc = Some(pair.1);
        } else if pair.0 == key_result {
            f_result = Some(pair.1);
        } else if pair.0 == key_error {
            f_error = Some(pair.1);
        } else if pair.0 == key_id {
            f_id = Some(pair.1);
        }
    }
    proof {
        assert(ov.subrange(0, ov.len() as int) =~= ov);
    }
    let jsonrpc = match f_jsonrpc {
        Some(Json::Str(s)) => s,
        _ => {
            return None;
        },
    };
    let error: Option<JsonRpcError> = match f_error {
        None => None,
        Some(Json::Null) => None,
        Some(ej) => match error_of_json(ej) {
            Some(e) => Some(e),
            None => {
                return None;
            },
        },
    };
    let id: Option<u64> = match f_id {
        None => None,
        Some(Json::Null) => None,
        Some(Json::Int(i)) => if i >= 0 {
            Some(i as u64)
        } else {
            return None;
        },
        Some(Json::UInt(u)) => Some(u),
        _ => {
            return None;
        },
    };
    let result = match f_result {
        None => None,
        Some(Json::Null) => None,
        Some(v) => Some(v),
    };
    Some(JsonRpcResponse { jsonrpc, result, error, id })
}

/// What wire text means as a response, if anything: the text must decode to
/// one document, and that document must be a response's.
pub open spec fn spec_parse_response(s: Seq<char>) -> Option<ResponseV> {
    match decode_of(s) {
        Some(v) => spec_response_of_json(v),
        None => None,
    }
}

/// Reads one wire message as a response, exactly as [`spec_parse_response`]
/// says.
pub fn parse_response(s: &str) -> (r: Option<JsonRpcResponse>)
    ensures
        opt_response_view(r) == spec_parse_response(s@),
{
    match crate::text::text_to_json(s) {
        Some(j) => response_of_json(j),
        None => None,
    }
}

/// Round trip for failures: reading back the document built from a reported
/// failure gives it.
pub proof fn lemma_error_round_trip(e: ErrorV)
    requires
        i32::MIN <= e.code <= i32::MAX,
    ensures
        spec_error_of_json(spec_json_of_error(e)) == Some(e),
{
    reveal_strlit("code");
    reveal_strlit("message");
    assert("code"@.len() == 4 && "message"@.len() == 7);
    let o = spec_json_of_error(e)->Obj_0;
    assert(spec_json_of_error(e) == JsonV::Obj(o));
    assert(o.len() == 2);
    assert(o[0] == ("code"@, JsonV::Int(e.code)));
    assert(o[1] == ("message"@, JsonV::Str(e.message)));
    let o1 = o.drop_first();
    assert(o1.len() == 1 && o1[0] == o[1]);
    assert(first_entry(o, "code"@) == Some(JsonV::Int(e.code)));
    assert(first_entry(o1, "message"@) == Some(JsonV::Str(e.message)));
    assert(first_entry(o, "message"@) == first_entry(o1, "message"@));
    assert(spec_error_of_json(JsonV::Obj(o)) matches Some(q) && q =~= e);
}

/// Round trip: reading back the document built from a response gives the
/// response.  The inputs without a faithful document are left out, as for
/// requests: a `result` wrapping an explicit null, an id beyond an unsigned
/// 64-bit integer, and an error code beyond a signed 32-bit integer.
pub proof fn lemma_response_round_trip(r: ResponseV)
    requires
        r.result matches Some(v) ==> v != JsonV::Null,
        r.id matches Some(i) ==> 0 <= i <= u64::MAX,
        r.error matches Some(e) ==> i32::MIN <= e.code <= i32::MAX,
    ensures
        spec_response_of_json(spec_json_of_response(r)) == Some(r),
{
    reveal_strlit("jsonrpc");
    reveal_strlit("result");
    reveal_strlit("error");
    reveal_strlit("id");
    assert("jsonrpc"@.len() == 7 && "result"@.len() == 6 && "error"@.len() == 5 && "id"@.len()
        == 2);
    let rj = match r.result {
        Some(v) => v,
        None => JsonV::Null,
    };
    let ej = match r.error {
        Some(e) => spec_json_of_error(e),
        None => JsonV::Null,
    };
    let ij = match r.id {
        Some(i) => JsonV::Int(i),
        None => JsonV::Null,
    };
    let o = spec_json_of_response(r)->Obj_0;
    assert(spec_json_of_response(r) == JsonV::Obj(o));
    assert(o.len() == 4);
    assert(o[0] == ("jsonrpc"@, JsonV::Str(r.jsonrpc)));
    assert(o[1] == ("result"@, rj));
    assert(o[2] == ("error"@, ej));
    assert(o[3] == ("id"@, ij));
    let o1 = o.drop_first();
    let o2 = o1.drop_first();
    let o3 = o2.drop_first();
    assert(o1.len() == 3 && o1[0] == o[1] && o1[1] == o[2] && o1[2] == o[3]);
    assert(o2.len() == 2 && o2[0] == o[2] && o2[1] == o[3]);
    assert(o3.len() == 1 && o3[0] == o[3]);
    assert(first_entry(o, "jsonrpc"@) == Some(JsonV::Str(r.jsonrpc)));
    assert(first_entry(o1, "result"@) == Some(rj));
    assert(first_entry(o, "result"@) == first_entry(o1, "result"@));
    assert(first_entry(o2, "error"@) == Some(ej));
    assert(first_entry(o1, "error"@) == first_entry(o2, "error"@));
    assert(first_entry(o, "error"@) == first_entry(o1, "error"@));
    assert(first_entry(o3, "id"@) == Some(ij));
    assert(first_entry(o2, "id"@) == first_entry(o3, "id"@));
    assert(first_entry(o1, "id"@) == first_entry(o2, "id"@));
    assert(first_entry(o, "id"@) == first_entry(o1, "id"@));
    if r.error is Some {
        let e = r.error->0;
        lemma_error_round_trip(e);
        assert(ej matches JsonV::Obj(_));
        assert(spec_error_field(Some(ej)) == Some(r.error));
    } else {
        assert(spec_error_field(Some(ej)) == Some(r.error));
    }
    assert(spec_id_field(first_entry(o, "id"@)) == Some(r.id));
    assert(spec_params_field(first_entry(o, "result"@)) == r.result);
    assert(spec_response_of_json(JsonV::Obj(o)) matches Some(q) && q =~= r);
}

/// Round trip: reading back the document built from a request gives the
/// request.  The two inputs without a faithful document are left out: a
/// request whose `params` wraps an explicit null is written as a null
/// member, which reads back as no parameters; and an id is only carried as
/// an unsigned 64-bit integer.
pub proof fn lemma_request_round_trip(r: RequestV)
    requires
        r.params matches Some(p) ==> p != JsonV::Null,
        r.id matches Some(i) ==> 0 <= i <= u64::MAX,
    ensures
        spec_request_of_json(spec_json_of_request(r)) == Some(r),
{
    reveal_strlit("jsonrpc");
    reveal_strlit("method");
    reveal_strlit("params");
    reveal_strlit("id");
    assert("jsonrpc"@.len() == 7 && "method"@.len() == 6 && "params"@.len() == 6 && "id"@.len()
        == 2);
    assert("method"@[0] == 'm' && "params"@[0] == 'p');
    let pj = match r.params {
        Some(p) => p,
        None => JsonV::Null,
    };
    let ij = match r.id {
        Some(i) => JsonV::Int(i),
        None => JsonV::Null,
    };
    let o = spec_json_of_request(r)->Obj_0;
    assert(spec_json_of_request(r) == JsonV::Obj(o));
    assert(o.len() == 4);
    assert(o[0] == ("jsonrpc"@, JsonV::Str(r.jsonrpc)));
    assert(o[1] == ("method"@, JsonV::Str(r.method)));
    assert(o[2] == ("params"@, pj));
    assert(o[3] == ("id"@, ij));
    let o1 = o.drop_first();
    let o2 = o1.drop_first();
    let o3 = o2.drop_first();
    assert(o1.len() == 3 && o1[0] == o[1] && o1[1] == o[2] && o1[2] == o[3]);
    assert(o2.len() == 2 && o2[0] == o[2] && o2[1] == o[3]);
    assert(o3.len() == 1 && o3[0] == o[3]);
    assert(first_entry(o, "jsonrpc"@) == Some(JsonV::Str(r.jsonrpc)));
    assert(first_entry(o1, "method"@) == Some(JsonV::Str(r.method)));
    assert(first_entry(o, "method"@) == first_entry(o1, "method"@));
    assert(first_entry(o2, "params"@) == Some(pj));
    assert(first_entry(o1, "params"@) == first_entry(o2, "params"@));
    assert(first_entry(o, "params"@) == first_entry(o1, "params"@));
    assert(first_entry(o3, "id"@) == Some(ij));
    assert(first_entry(o2, "id"@) == first_entry(o3, "id"@));
    assert(first_entry(o1, "id"@) == first_entry(o2, "id"@));
    assert(first_entry(o, "id"@) == first_entry(o1, "id"@));
    assert(spec_id_field(first_entry(o, "id"@)) == Some(r.id));
    assert(spec_params_field(first_entry(o, "params"@)) == r.params);
    assert(spec_request_of_json(JsonV::Obj(o)) matches Some(q) && q =~= r);
}

} // verus!
