use jmap_client::client::{classify_response, Client};
use jmap_client::credentials::Credentials;
use jmap_client::json::Json;
use jmap_client::request::{Argument, Request, ResultReference};
use jmap_client::response::BatchResponse;
use jmap_client::session::Session;
use jmap_client::Error;

const RESPONSE_SAMPLE: &str = r#"{"sessionState": "123", "methodResponses": [[ "Email/query", {
                "accountId": "A1",
                "queryState": "abcdefg",
                "canCalculateChanges": true,
                "position": 0,
                "total": 101,
                "ids": [ "msg1023", "msg223", "msg110", "msg93", "msg91",
                    "msg38", "msg36", "msg33", "msg11", "msg1" ]
            }, "t0" ],
            [ "Email/get", {
                "accountId": "A1",
                "state": "123456",
                "list": [{
                    "id": "msg1023",
                    "threadId": "trd194"
                }, {
                    "id": "msg223",
                    "threadId": "trd114"
                }
                ],
                "notFound": []
            }, "t1" ],
            [ "Thread/get", {
                "accountId": "A1",
                "state": "123456",
                "list": [{
                    "id": "trd194",
                    "emailIds": [ "msg1020", "msg1021", "msg1023" ]
                }, {
                    "id": "trd114",
                    "emailIds": [ "msg201", "msg223" ]
                }
                ],
                "notFound": []
            }, "t2" ]]}"#;

const SESSION_SAMPLE: &str = r#"{
        "apiUrl": "https://mail.example.com/api/",
        "downloadUrl": "https://mail.example.com/download/{accountId}/{blobId}",
        "uploadUrl": "https://mail.example.com/upload/{accountId}",
        "eventSourceUrl": "https://mail.example.com/events",
        "state": "s-100",
        "primaryAccounts": {"urn:ietf:params:jmap:mail": "A13", "urn:ietf:params:jmap:core": "A13"},
        "accounts": {"A13": {"name": "who", "accountCapabilities": {"urn:ietf:params:jmap:mail": {}}}}
    }"#;

#[test]
fn test_deserialize() {
    let _r: BatchResponse = BatchResponse::parse(RESPONSE_SAMPLE).unwrap();
}

#[test]
fn batch_serializes_exactly() {
    let mut req = Request::new();
    req.add_call_with_id(
        String::from("Email/query"),
        vec![(
            String::from("accountId"),
            Argument::Value(Json::Str(String::from("A1"))),
        )],
        String::from("0"),
    );
    assert_eq!(
        req.serialize(),
        r#"{"using":["urn:ietf:params:jmap:core"],"methodCalls":[["Email/query",{"accountId":"A1"},"0"]]}"#
    );
}

#[test]
fn batch_round_trips() {
    let mut req = Request::new();
    req.add_capability(String::from("urn:ietf:params:jmap:mail"));
    req.add_capability(String::from("urn:ietf:params:jmap:mail"));
    let first = req.add_call(
        String::from("Email/query"),
        vec![(
            String::from("accountId"),
            Argument::Value(Json::Str(String::from("A1"))),
        )],
    );
    assert_eq!(first, "c0");
    let second = req.add_call(
        String::from("Email/get"),
        vec![
            (
                String::from("accountId"),
                Argument::Value(Json::Str(String::from("A1"))),
            ),
            (
                String::from("ids"),
                Argument::Reference(ResultReference::new(
                    first.clone(),
                    String::from("Email/query"),
                    String::from("/ids"),
                )),
            ),
        ],
    );
    assert_eq!(second, "c1");

    let text = req.serialize();
    let back = Request::parse(&text).unwrap();
    assert_eq!(back.using, vec![
        String::from("urn:ietf:params:jmap:core"),
        String::from("urn:ietf:params:jmap:mail"),
    ]);
    assert_eq!(back.method_calls.len(), 2);
    assert_eq!(back.method_calls[0].name, "Email/query");
    assert_eq!(back.method_calls[0].call_id, "c0");
    assert_eq!(back.method_calls[1].name, "Email/get");
    assert_eq!(back.method_calls[1].call_id, "c1");
    assert_eq!(back.method_calls[1].arguments.len(), 2);
    assert_eq!(back.method_calls[1].arguments[1].0, "ids");
    match &back.method_calls[1].arguments[1].1 {
        Argument::Reference(r) => {
            assert_eq!(r.result_of, "c0");
            assert_eq!(r.name, "Email/query");
            assert_eq!(r.path, "/ids");
        }
        Argument::Value(_) => panic!("back-reference read back as a literal"),
    }
}

#[test]
fn reference_wire_form_is_distinct() {
    let mut req = Request::new();
    req.add_call_with_id(
        String::from("Email/get"),
        vec![(
            String::from("ids"),
            Argument::Reference(ResultReference::new(
                String::from("c0"),
                String::from("Email/query"),
                String::from("/ids"),
            )),
        )],
        String::from("1"),
    );
    let text = req.serialize();
    assert!(text.contains(r##""#ids":{"resultOf":"c0","name":"Email/query","path":"/ids"}"##));
    assert!(!text.contains(r#""ids":"#));
}

#[test]
fn entries_for_keeps_response_order() {
    let resp = BatchResponse::parse(RESPONSE_SAMPLE).unwrap();
    assert_eq!(resp.session_state(), "123");
    assert_eq!(resp.len(), 3);

    let t1 = resp.entries_for("t1");
    assert_eq!(t1.len(), 1);
    assert_eq!(t1[0].method_name, "Email/get");
    match t1[0].arguments.get("accountId") {
        Some(Json::Str(s)) => assert_eq!(s, "A1"),
        other => panic!("unexpected accountId member: {:?}", other.is_some()),
    }
    match t1[0].arguments.get("list") {
        Some(Json::Arr(items)) => assert_eq!(items.len(), 2),
        _ => panic!("list member missing"),
    }

    let missing = resp.entries_for("nonexistent");
    assert_eq!(missing.len(), 0);

    let order = BatchResponse::parse(
        r#"{"sessionState":"s","methodResponses":[["A",{"n":1},"x"],["B",{},"y"],["A",{"n":2},"x"]]}"#,
    )
    .unwrap();
    let xs = order.entries_for("x");
    assert_eq!(xs.len(), 2);
    match (xs[0].arguments.get("n"), xs[1].arguments.get("n")) {
        (Some(Json::Num(a)), Some(Json::Num(b))) => {
            assert_eq!(a, "1");
            assert_eq!(b, "2");
        }
        _ => panic!("entries came back out of order"),
    }
    assert!(!xs[0].is_error());
}

#[test]
fn staleness_tracks_session_state() {
    let mut client = Client::from_session_text(SESSION_SAMPLE, String::from("https://mail.example.com/session")).unwrap();
    assert!(client.is_session_updated());
    assert_eq!(client.default_account_id(), "A13");

    client.apply_response_state("s-100");
    assert!(client.is_session_updated());

    client.apply_response_state("s-101");
    assert!(!client.is_session_updated());

    client.apply_response_state("s-100");
    assert!(!client.is_session_updated());

    client.replace_session(SESSION_SAMPLE).unwrap();
    assert!(client.is_session_updated());

    client.set_timeout(2500);
    assert_eq!(client.timeout(), 2500);
    client.add_header(String::from("X-Trace"), String::from("abc"));
    assert_eq!(client.headers().len(), 1);
    assert_eq!(client.headers()[0].0, "X-Trace");
}

#[test]
fn session_parses_and_exposes_fields() {
    let session = Session::parse(SESSION_SAMPLE).unwrap();
    assert_eq!(session.api_url(), "https://mail.example.com/api/");
    assert_eq!(session.state(), "s-100");
    let primary = session.primary_accounts();
    assert_eq!(primary.len(), 2);
    assert_eq!(primary[0].0, "urn:ietf:params:jmap:mail");
    assert_eq!(primary[0].1, "A13");
    let accounts = session.accounts();
    assert_eq!(accounts.len(), 1);
    assert_eq!(accounts[0].0, "A13");
    assert_eq!(accounts[0].1, vec![String::from("urn:ietf:params:jmap:mail")]);

    assert!(matches!(
        Session::parse(r#"{"apiUrl":"x"}"#),
        Err(Error::MalformedSession)
    ));
    assert!(matches!(Session::parse("nonsense"), Err(Error::MalformedSession)));
}

#[test]
fn response_errors_are_malformed() {
    assert!(matches!(
        BatchResponse::parse("{"),
        Err(Error::MalformedResponse)
    ));
    assert!(matches!(
        BatchResponse::parse(r#"{"methodResponses":[]}"#),
        Err(Error::MalformedResponse)
    ));
    assert!(matches!(
        BatchResponse::parse(r#"{"sessionState":"s","methodResponses":[["A",{}]]}"#),
        Err(Error::MalformedResponse)
    ));
}

#[test]
fn classification_follows_status_and_body() {
    assert!(classify_response(204, false, "").is_ok());
    assert!(matches!(classify_response(404, false, "ignored"), Err(Error::Server(404))));
    match classify_response(400, true, r#"{"type":"urn:problem","title":"bad","status":400}"#) {
        Err(Error::Problem(p)) => {
            assert_eq!(p.problem_type.as_deref(), Some("urn:problem"));
            assert_eq!(p.title.as_deref(), Some("bad"));
            assert_eq!(p.status, Some(400));
        }
        _ => panic!("expected a problem document"),
    }
    assert!(matches!(
        classify_response(500, true, "not json"),
        Err(Error::MalformedResponse)
    ));
}

#[test]
fn credentials_encode_and_label() {
    let basic = Credentials::basic("user", "pass");
    assert_eq!(basic.authorization(), "Basic dXNlcjpwYXNz");
    let bearer = Credentials::bearer(String::from("tok123"));
    assert_eq!(bearer.authorization(), "Bearer tok123");
}

#[test]
fn json_text_round_trips() {
    let text = r#"{"a":[1,true,null,"x\"y"],"b":{"c":-2.5e3}}"#;
    let doc = Json::parse_text(text).unwrap();
    assert_eq!(doc.to_text(), text);
    assert!(Json::parse_text("{").is_none());
    assert!(Json::parse_text("[1,2] trailing").is_none());

    let edge = r#"{"empty":{},"none":[],"slash":"a\\b"}"#;
    let doc2 = Json::parse_text(edge).unwrap();
    assert_eq!(doc2.to_text(), edge);
}

#[test]
fn wire_sample_parses_back() {
    let text = r#"{"using": ["urn:ietf:params:jmap:core"], "methodCalls": [["Email/query", {"accountId":"A1"}, "0"]]}"#;
    let req = Request::parse(text).unwrap();
    assert_eq!(req.using, vec![String::from("urn:ietf:params:jmap:core")]);
    assert_eq!(req.method_calls.len(), 1);
    assert_eq!(req.method_calls[0].name, "Email/query");
    assert_eq!(req.method_calls[0].call_id, "0");
    match &req.method_calls[0].arguments[0].1 {
        Argument::Value(Json::Str(s)) => assert_eq!(s, "A1"),
        _ => panic!("accountId must read back as a literal string"),
    }
}

#[test]
fn bad_endpoint_template_fails_connect() {
    let bad = SESSION_SAMPLE.replace(
        "https://mail.example.com/download/{accountId}/{blobId}",
        "https://mail.example.com/download/{unclosed",
    );
    assert!(matches!(
        Client::from_session_text(&bad, String::from("https://mail.example.com/session")),
        Err(Error::MalformedTemplate)
    ));
}
