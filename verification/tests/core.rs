use proprio_core::json::Json;
use proprio_core::protocol::{
    parse_request, parse_response, serialize_request, serialize_response, JsonRpcRequest,
    JsonRpcResponse,
};
use proprio_core::registry::{AppRegistration, Registry, RegistryError, Tool, is_json_file, parse_registration, registry_dir};
use proprio_core::router::{ProprioHandler, Router, ToolHandler};
use proprio_core::server::IpcServer;

struct Echo;

impl ToolHandler for Echo {
    fn call(&self, params: Option<Json>) -> Result<Json, String> {
        Ok(params.unwrap_or(Json::Null))
    }
}

struct Failing;

impl ToolHandler for Failing {
    fn call(&self, _params: Option<Json>) -> Result<Json, String> {
        Err("boom".to_string())
    }
}

fn sample_params() -> Json {
    Json::Obj(vec![("x".to_string(), Json::Int(1))])
}

fn reparse(text: &str) -> serde_json::Value {
    serde_json::from_str(text).expect("response text must be a well-formed document")
}

#[test]
fn request_round_trip_with_params_and_id() {
    let req = JsonRpcRequest {
        jsonrpc: "2.0".to_string(),
        method: "draw_rectangle".to_string(),
        params: Some(sample_params()),
        id: Some(7),
    };
    let text = serialize_request(req);
    let back = parse_request(&text).expect("the request's own text must parse");
    assert_eq!(back.jsonrpc, "2.0");
    assert_eq!(back.method, "draw_rectangle");
    assert_eq!(back.params, Some(sample_params()));
    assert_eq!(back.id, Some(7));
}

#[test]
fn request_round_trip_without_params_or_id() {
    let req = JsonRpcRequest {
        jsonrpc: "2.0".to_string(),
        method: "ping".to_string(),
        params: None,
        id: None,
    };
    let back = parse_request(&serialize_request(req)).unwrap();
    assert_eq!(back.method, "ping");
    assert_eq!(back.params, None);
    assert_eq!(back.id, None);
}

#[test]
fn request_round_trip_large_id() {
    let req = JsonRpcRequest {
        jsonrpc: "2.0".to_string(),
        method: "m".to_string(),
        params: None,
        id: Some(u64::MAX),
    };
    let back = parse_request(&serialize_request(req)).unwrap();
    assert_eq!(back.id, Some(u64::MAX));
}

#[test]
fn parse_request_rejects_bad_shapes() {
    assert!(parse_request("not json at all").is_none());
    assert!(parse_request("[1,2,3]").is_none());
    assert!(parse_request(r#"{"jsonrpc":"2.0"}"#).is_none());
    assert!(parse_request(r#"{"jsonrpc":"2.0","method":7}"#).is_none());
    assert!(parse_request(r#"{"jsonrpc":"2.0","method":"m","id":-4}"#).is_none());
    assert!(parse_request(r#"{"jsonrpc":"2.0","method":"m","id":"seven"}"#).is_none());
}

#[test]
fn parse_request_reads_null_members_as_absent() {
    let back = parse_request(r#"{"jsonrpc":"2.0","method":"m","params":null,"id":null}"#).unwrap();
    assert_eq!(back.params, None);
    assert_eq!(back.id, None);
}

#[test]
fn ok_sets_exactly_result() {
    let r = JsonRpcResponse::ok(Some(3), Json::Str("pong".to_string()));
    assert_eq!(r.jsonrpc, "2.0");
    assert_eq!(r.result, Some(Json::Str("pong".to_string())));
    assert!(r.error.is_none());
    assert_eq!(r.id, Some(3));
}

#[test]
fn err_sets_exactly_error() {
    let r = JsonRpcResponse::err(Some(4), -32000, "no such method");
    assert_eq!(r.jsonrpc, "2.0");
    assert!(r.result.is_none());
    let e = r.error.expect("err must set the error");
    assert_eq!(e.code, -32000);
    assert_eq!(e.message, "no such method");
    assert_eq!(r.id, Some(4));
}

#[test]
fn router_reports_missing_method_by_name() {
    let mut router: Router<Echo> = Router::new();
    router.add("echo", Echo);
    let out = router.execute("draw_circle", None);
    let msg = out.expect_err("an unrouted method must fail");
    assert_eq!(msg, "Method 'draw_circle' not found in Router");
}

#[test]
fn router_runs_registered_handler_verbatim() {
    let mut router: Router<Echo> = Router::new();
    router.add("echo", Echo);
    let out = router.execute("echo", Some(sample_params()));
    assert_eq!(out, Ok(sample_params()));
}

struct Fixed(i64);

impl ToolHandler for Fixed {
    fn call(&self, _params: Option<Json>) -> Result<Json, String> {
        Ok(Json::Int(self.0))
    }
}

#[test]
fn router_replaces_handler_registered_again() {
    let mut router: Router<Fixed> = Router::new();
    router.add("op", Fixed(1));
    router.add("op", Fixed(2));
    assert_eq!(router.execute("op", None), Ok(Json::Int(2)));
}

#[test]
fn ping_is_answered_without_dispatch() {
    let server = IpcServer::new("/tmp/t.sock", Vec::new(), Router::<Echo>::new());
    let reply = server.handle_message(r#"{"jsonrpc":"2.0","method":"__proprio_ping__","id":9}"#);
    let v = reparse(&reply);
    assert_eq!(v["result"], serde_json::Value::String("pong".to_string()));
    assert_eq!(v["id"], serde_json::Value::from(9u64));
    assert_eq!(v["error"], serde_json::Value::Null);
}

#[test]
fn manifest_lists_the_exact_tools_in_order() {
    let tools = vec![
        Tool::new("draw_rectangle", "Draws a rectangle.", Json::Obj(vec![(
            "width".to_string(),
            Json::Str("int".to_string()),
        )])),
        Tool::new("get_screen_size", "Returns the screen size.", Json::Obj(Vec::new())),
    ];
    let server = IpcServer::new("/tmp/t.sock", tools, Router::<Echo>::new());
    let reply = server.handle_message(r#"{"jsonrpc":"2.0","method":"__proprio_manifest__","id":1}"#);
    let v = reparse(&reply);
    let expected = reparse(
        r#"{"tools":[
            {"name":"draw_rectangle","description":"Draws a rectangle.","parameters":{"width":"int"}},
            {"name":"get_screen_size","description":"Returns the screen size.","parameters":{}}
        ]}"#,
    );
    assert_eq!(v["result"], expected);
    assert_eq!(v["id"], serde_json::Value::from(1u64));
}

#[test]
fn unknown_method_is_answered_with_dispatch_error_code() {
    let mut router: Router<Echo> = Router::new();
    router.add("echo", Echo);
    let server = IpcServer::new("/tmp/t.sock", Vec::new(), router);
    let reply = server.handle_message(r#"{"jsonrpc":"2.0","method":"nope","id":2}"#);
    let v = reparse(&reply);
    assert_eq!(v["error"]["code"], serde_json::Value::from(-32000i64));
    assert_eq!(
        v["error"]["message"],
        serde_json::Value::String("Method 'nope' not found in Router".to_string())
    );
    assert_eq!(v["result"], serde_json::Value::Null);
    assert_eq!(v["id"], serde_json::Value::from(2u64));
}

#[test]
fn handler_error_is_reported_under_dispatch_error_code() {
    let mut router: Router<Failing> = Router::new();
    router.add("boom", Failing);
    let server = IpcServer::new("/tmp/t.sock", Vec::new(), router);
    let reply = server.handle_message(r#"{"jsonrpc":"2.0","method":"boom","id":3}"#);
    let v = reparse(&reply);
    assert_eq!(v["error"]["code"], serde_json::Value::from(-32000i64));
    assert_eq!(v["error"]["message"], serde_json::Value::String("boom".to_string()));
}

#[test]
fn echo_end_to_end() {
    let mut router: Router<Echo> = Router::new();
    router.add("echo", Echo);
    let tools = vec![Tool::new("echo", "Returns its input.", Json::Obj(Vec::new()))];
    let server = IpcServer::new("/tmp/t.sock", tools, router);
    let reply = server.handle_message(r#"{"jsonrpc":"2.0","method":"echo","params":{"x":1},"id":7}"#);
    let v = reparse(&reply);
    let expected = reparse(r#"{"jsonrpc":"2.0","result":{"x":1},"error":null,"id":7}"#);
    assert_eq!(v, expected);
}

#[test]
fn unparseable_input_end_to_end() {
    let server = IpcServer::new("/tmp/t.sock", Vec::new(), Router::<Echo>::new());
    let reply = server.handle_message("\u{1}garbage\u{2}");
    let v = reparse(&reply);
    assert_eq!(v["error"]["code"], serde_json::Value::from(-32700i64));
    assert_eq!(v["error"]["message"], serde_json::Value::String("Parse error".to_string()));
    assert_eq!(v["id"], serde_json::Value::Null);
}

#[test]
fn response_text_carries_all_four_members() {
    let text = serialize_response(JsonRpcResponse::ok(None, Json::Bool(true)));
    let v = reparse(&text);
    assert_eq!(v["jsonrpc"], serde_json::Value::String("2.0".to_string()));
    assert_eq!(v["result"], serde_json::Value::Bool(true));
    assert_eq!(v["error"], serde_json::Value::Null);
    assert_eq!(v["id"], serde_json::Value::Null);
}

#[test]
fn response_round_trip_success() {
    let resp = JsonRpcResponse::ok(Some(12), Json::Arr(vec![Json::Int(1), Json::Null]));
    let back = parse_response(&serialize_response(resp)).expect("a response's own text must parse");
    assert_eq!(back.jsonrpc, "2.0");
    assert_eq!(back.result, Some(Json::Arr(vec![Json::Int(1), Json::Null])));
    assert!(back.error.is_none());
    assert_eq!(back.id, Some(12));
}

#[test]
fn response_round_trip_failure() {
    let resp = JsonRpcResponse::err(None, -32700, "Parse error");
    let back = parse_response(&serialize_response(resp)).unwrap();
    assert!(back.result.is_none());
    let e = back.error.expect("the error must survive the round trip");
    assert_eq!(e.code, -32700);
    assert_eq!(e.message, "Parse error");
    assert_eq!(back.id, None);
}

#[test]
fn parse_response_rejects_bad_shapes() {
    assert!(parse_response("garbage").is_none());
    assert!(parse_response(r#"{"result":1,"id":1}"#).is_none());
    assert!(parse_response(r#"{"jsonrpc":"2.0","error":{"code":"x","message":"m"},"id":1}"#)
        .is_none());
    assert!(parse_response(r#"{"jsonrpc":"2.0","error":7,"id":1}"#).is_none());
}

#[test]
fn registration_text_round_trips() {
    let reg = AppRegistration::new("com.test.dummy", "Dummy App", "/tmp/dummy.sock", 4242);
    let text = reg.registration_text();
    let back = parse_registration(&text).expect("a card's own text must parse");
    assert_eq!(back, AppRegistration::new("com.test.dummy", "Dummy App", "/tmp/dummy.sock", 4242));
}

#[test]
fn list_keeps_valid_records_and_skips_the_rest() {
    let good = AppRegistration::new("com.a", "A", "/tmp/a.sock", 11);
    let entries = vec![
        ("com.a.json".to_string(), good.registration_text()),
        ("com.b.json".to_string(), "{ this is not a record".to_string()),
        ("notes.txt".to_string(), "unrelated".to_string()),
    ];
    let listed = Registry::list(Some(&entries));
    assert_eq!(listed.len(), 1);
    assert_eq!(listed[0], good);
}

#[test]
fn list_of_no_entries_is_empty() {
    let listed = Registry::list(Some(&Vec::new()));
    assert!(listed.is_empty());
}

#[test]
fn list_of_missing_directory_is_empty() {
    let listed = Registry::list(None);
    assert!(listed.is_empty());
}

#[test]
fn fractional_numbers_pass_through_untouched() {
    let req = parse_request(r#"{"jsonrpc":"2.0","method":"m","params":{"w":1.5},"id":1}"#).unwrap();
    assert_eq!(
        req.params,
        Some(Json::Obj(vec![("w".to_string(), Json::Num("1.5".to_string()))]))
    );
    let mut router: Router<Echo> = Router::new();
    router.add("echo", Echo);
    let server = IpcServer::new("/tmp/t.sock", Vec::new(), router);
    let reply = server.handle_message(r#"{"jsonrpc":"2.0","method":"echo","params":{"x":2.25},"id":5}"#);
    let v = reparse(&reply);
    assert_eq!(v["result"]["x"], serde_json::Value::from(2.25f64));
    assert_eq!(v["id"], serde_json::Value::from(5u64));
}

#[test]
fn registering_twice_leaves_one_record_with_the_second_content() {
    let first = AppRegistration::new("com.a", "A", "/tmp/old.sock", 1);
    let second = AppRegistration::new("com.a", "A", "/tmp/new.sock", 2);
    let dir = registry_dir("/home/someone");
    let path_one = AppRegistration::registration_path(&dir, &first.app_id);
    let path_two = AppRegistration::registration_path(&dir, &second.app_id);
    assert_eq!(path_one, path_two);
    assert_eq!(path_one, "/home/someone/.proprio/registry/com.a.json");
    // Last writer wins: one file name, so the second write replaces the first.
    let mut disk: Vec<(String, String)> = vec![(path_one, first.registration_text())];
    disk.retain(|e| e.0 != path_two);
    disk.push((path_two, second.registration_text()));
    assert_eq!(disk.len(), 1);
    let back = parse_registration(&disk[0].1).unwrap();
    assert_eq!(back.socket_path, "/tmp/new.sock");
}

#[test]
fn json_file_names() {
    assert!(is_json_file("com.a.json"));
    assert!(is_json_file("a.b.json"));
    assert!(!is_json_file(".json"));
    assert!(!is_json_file("record.txt"));
    assert!(!is_json_file("json"));
}

#[test]
fn registry_error_variants_carry_their_descriptions() {
    assert_eq!(RegistryError::HomeDirNotFound, RegistryError::HomeDirNotFound);
    assert_eq!(RegistryError::Io("gone".to_string()), RegistryError::Io("gone".to_string()));
    assert_ne!(
        RegistryError::Serde("bad".to_string()),
        RegistryError::Io("bad".to_string())
    );
}

#[test]
fn deep_copy_preserves_structure() {
    let v = Json::Arr(vec![
        Json::Null,
        Json::Bool(false),
        Json::Int(-3),
        Json::UInt(u64::MAX),
        Json::Str("s".to_string()),
        Json::Obj(vec![("k".to_string(), Json::Arr(Vec::new()))]),
    ]);
    assert_eq!(v.deep_copy(), v);
}

struct Always;

impl ProprioHandler for Always {
    fn execute(&self, _method: &str, _params: Option<Json>) -> Result<Json, String> {
        Ok(Json::Int(5))
    }
}

#[test]
fn dispatch_capability_is_pluggable() {
    let server = IpcServer::new("/tmp/t.sock", Vec::new(), Always);
    let reply = server.handle_message(r#"{"jsonrpc":"2.0","method":"anything","id":8}"#);
    let v = reparse(&reply);
    assert_eq!(v["result"], serde_json::Value::from(5i64));
}
