use cruster::context::ActiveRuleContext;
use cruster::rule::Rule;
use cruster::find::{ExecutableExpression, ExpressionArg, LookFor, RuleFindAction, verdict};
use cruster::http::{Coordinates, Request, RequestResponsePair, Response, SingleSendActionResult};
use cruster::operation::{evaluate, parse_operation, Operation};
use cruster::reference::parse_reference;
use cruster::text::{parse_bool, parse_i64, parse_usize, split_chars};
use cruster::value::{MessagePart, PairPart, Scalar, Value};

fn request(path: &str) -> Request {
    Request {
        method: "GET".to_string(),
        path: path.to_string(),
        version: "HTTP/1.1".to_string(),
        headers: vec![("Host".to_string(), "example.com".to_string())],
        body: Vec::new(),
    }
}

fn response(status: u16, headers: Vec<(&str, &str)>, body: &str) -> Response {
    Response {
        version: "HTTP/1.1".to_string(),
        status,
        headers: headers.into_iter().map(|(k, v)| (k.to_string(), v.to_string())).collect(),
        body: body.as_bytes().to_vec(),
    }
}

fn pair(resp: Response) -> RequestResponsePair {
    RequestResponsePair { index: 7, request: request("/item?id=5"), response: resp }
}

fn arg(t: &str, v: &str) -> ExpressionArg {
    ExpressionArg::new(t, v)
}

fn expr(name: &str, op: &str, args: Vec<ExpressionArg>) -> ExecutableExpression {
    ExecutableExpression::new(name, op, args)
}

fn sent(status: u16, body: &str) -> Vec<SingleSendActionResult> {
    vec![SingleSendActionResult {
        key: "-1".to_string(),
        request_sent: request("/item?id=-1"),
        positions_changed: Coordinates { line: 0, start: 12, end: 13 },
        responses_received: vec![response(status, vec![], body)],
    }]
}

#[test]
fn header_length_probe() {
    let p = pair(response(200, vec![("Content-Type", "text/html")], "<html></html>"));
    let mut find = RuleFindAction::new(
        None,
        "any",
        vec![
            expr("L", "len", vec![arg("reference", "0.response.headers.content-type")]),
            expr("B", ">", vec![arg("variable", "L"), arg("int", "0")]),
        ],
    );
    assert!(find.check_up(None, 1).is_ok());
    let mut ctx = ActiveRuleContext::init(&Rule { id: "header-length".to_string(), actions: vec![] }, &p);
    assert!(find.exec(&mut ctx).is_ok());
    assert_eq!(ctx.find_results(), &vec![true]);
}

fn status_find() -> RuleFindAction {
    let mut find = RuleFindAction::new(
        None,
        "any",
        vec![expr("S", "=", vec![arg("reference", "1.response.status"), arg("int", "500")])],
    );
    assert!(find.check_up(None, 2).is_ok());
    find
}

#[test]
fn replace_and_detect_500() {
    let p = pair(response(200, vec![], "ok"));
    let find = status_find();
    let mut ctx = ActiveRuleContext::init(&Rule { id: "replace".to_string(), actions: vec![] }, &p);
    ctx.add_send_result(sent(500, "error"));
    assert!(find.exec(&mut ctx).is_ok());
    assert_eq!(ctx.find_results(), &vec![true]);
    assert!(ctx.found_anything());
}

#[test]
fn replace_and_detect_200() {
    let p = pair(response(200, vec![], "ok"));
    let find = status_find();
    let mut ctx = ActiveRuleContext::init(&Rule { id: "replace".to_string(), actions: vec![] }, &p);
    ctx.add_send_result(sent(200, "fine"));
    assert!(find.exec(&mut ctx).is_ok());
    assert_eq!(ctx.find_results(), &vec![false]);
    assert!(!ctx.found_anything());
}

#[test]
fn symbolic_send_id_resolves() {
    let ids = vec![("probe".to_string(), 1usize)];
    let mut find = RuleFindAction::new(
        None,
        "all",
        vec![expr("M", "~", vec![arg("reference", "probe.response.body"), arg("string", "token=")])],
    );
    assert!(find.check_up(Some(&ids), 2).is_ok());
    match &find.expressions[0].args[0].type_cache {
        Some(Value::Reference(r)) => {
            assert_eq!(r.id, 1);
            assert_eq!(r.pair_part, PairPart::Response);
            assert_eq!(r.message_part, MessagePart::Body);
        }
        other => panic!("unexpected cache {:?}", other),
    }
    assert_eq!(find.look_for_cache, Some(LookFor::All));
}

#[test]
fn unresolved_send_id_is_rejected() {
    let mut find = RuleFindAction::new(
        None,
        "any",
        vec![expr("M", "~", vec![arg("reference", "probe.response.body"), arg("string", "x")])],
    );
    let before = find.clone();
    let err = find.check_up(None, 2).unwrap_err();
    assert!(err.0.contains("probe"));
    assert_eq!(find, before);
    let empty: Vec<(String, usize)> = Vec::new();
    let err = find.check_up(Some(&empty), 2).unwrap_err();
    assert!(err.0.contains("probe"));
}

#[test]
fn variable_used_before_declaration() {
    let mut find = RuleFindAction::new(
        None,
        "any",
        vec![
            expr("B", ">", vec![arg("variable", "L"), arg("int", "0")]),
            expr("L", "len", vec![arg("reference", "0.response.body")]),
        ],
    );
    let err = find.check_up(None, 1).unwrap_err();
    assert!(err.0.contains("L"));
}

#[test]
fn unknown_id_without_table() {
    assert!(parse_reference("probe.response.body", None, 5).is_err());
}

#[test]
fn send_index_equal_to_count_is_rejected() {
    assert!(parse_reference("2.response.body", None, 2).is_err());
    assert!(parse_reference("1.response.body", None, 2).is_ok());
}

#[test]
fn spaceship_alias_is_greater_or_equal() {
    assert_eq!(parse_operation("<=>"), Some(Operation::GreaterOrEqual));
    assert_eq!(parse_operation("Greater_Or_Equal"), Some(Operation::GreaterOrEqual));
    assert_eq!(parse_operation("LessOrEqual"), Some(Operation::LessOrEqual));
    assert_eq!(parse_operation("<="), Some(Operation::LessOrEqual));
    assert_eq!(parse_operation("ReMatch"), Some(Operation::ReMatch));
}

#[test]
fn missing_header_gives_empty_several() {
    let p = pair(response(200, vec![("Server", "x")], ""));
    let ctx = ActiveRuleContext::init(&Rule { id: "r".to_string(), actions: vec![] }, &p);
    let r = parse_reference("0.response.headers.x-missing", None, 1).unwrap();
    assert_eq!(r.deref(ctx.send_results()), Some(Value::Several(vec![])));
}

#[test]
fn header_lookup_ignores_case_and_keeps_order() {
    let p = pair(response(200, vec![("Set-Cookie", "a=1"), ("Server", "x"), ("set-cookie", "b=2")], ""));
    let ctx = ActiveRuleContext::init(&Rule { id: "r".to_string(), actions: vec![] }, &p);
    let r = parse_reference("0.response.headers.SET-COOKIE", None, 1).unwrap();
    assert_eq!(
        r.deref(ctx.send_results()),
        Some(Value::Several(vec![Scalar::String("a=1".to_string()), Scalar::String("b=2".to_string())]))
    );
}

#[test]
fn request_parts_of_initial_pair() {
    let p = pair(response(200, vec![], "body text"));
    let ctx = ActiveRuleContext::init(&Rule { id: "r".to_string(), actions: vec![] }, &p);
    let path = parse_reference("0.request.path", None, 1).unwrap();
    assert_eq!(path.deref(ctx.send_results()), Some(Value::Several(vec![Scalar::String("/item?id=5".to_string())])));
    let body = parse_reference("0.response.body", None, 1).unwrap();
    assert_eq!(body.deref(ctx.send_results()), Some(Value::Several(vec![Scalar::String("body text".to_string())])));
    let status = parse_reference("0.response.status", None, 1).unwrap();
    assert_eq!(status.deref(ctx.send_results()), Some(Value::Several(vec![Scalar::Integer(200)])));
}

#[test]
fn reference_part_coherence() {
    assert!(parse_reference("0.response.method", None, 1).is_err());
    assert!(parse_reference("0.response.path", None, 1).is_err());
    assert!(parse_reference("0.request.status", None, 1).is_err());
    assert!(parse_reference("0.request.headers", None, 1).is_err());
    assert!(parse_reference("0.request.body.extra", None, 1).is_err());
    assert!(parse_reference("0.request", None, 1).is_err());
    assert!(parse_reference("0.reply.body", None, 1).is_err());
    let h = parse_reference("0.request.headers.Host", None, 1).unwrap();
    assert_eq!(h.message_part, MessagePart::Header("Host".to_string()));
    assert_eq!(h.pair_part, PairPart::Request);
}

#[test]
fn look_for_all_and_any() {
    let v = Value::Several(vec![Scalar::Boolean(true), Scalar::Boolean(false)]);
    assert_eq!(verdict(LookFor::Any, &v), Some(true));
    assert_eq!(verdict(LookFor::All, &v), Some(false));
    assert_eq!(verdict(LookFor::All, &Value::Several(vec![])), Some(true));
    assert_eq!(verdict(LookFor::Any, &Value::Several(vec![])), Some(false));
    assert_eq!(verdict(LookFor::Any, &Value::Integer(1)), None);
}

#[test]
fn operations_evaluate() {
    let len = evaluate(Operation::Len, &vec![Value::String("héllo".to_string())]);
    assert_eq!(len, Some(Value::Integer(5)));
    let lifted = evaluate(
        Operation::Greater,
        &vec![Value::Several(vec![Scalar::Integer(3), Scalar::Integer(0)]), Value::Integer(1)],
    );
    assert_eq!(lifted, Some(Value::Several(vec![Scalar::Boolean(true), Scalar::Boolean(false)])));
    let eq = evaluate(Operation::Equal, &vec![Value::Integer(2), Value::Integer(2), Value::Integer(3)]);
    assert_eq!(eq, Some(Value::Boolean(false)));
    let re = evaluate(Operation::ReMatch, &vec![Value::String("token=abc".to_string()), Value::String("t[a-z]+=".to_string())]);
    assert_eq!(re, Some(Value::Boolean(true)));
    let bad = evaluate(Operation::ReMatch, &vec![Value::String("x".to_string()), Value::String("(".to_string())]);
    assert_eq!(bad, None);
    let two = evaluate(
        Operation::Equal,
        &vec![Value::Several(vec![Scalar::Integer(1)]), Value::Several(vec![Scalar::Integer(1)])],
    );
    assert_eq!(two, None);
    assert_eq!(evaluate(Operation::Less, &vec![Value::Integer(1)]), None);
}

#[test]
fn argument_type_errors() {
    let mut f = RuleFindAction::new(None, "any", vec![expr("B", ">", vec![arg("string", "a"), arg("int", "0")])]);
    assert!(f.check_up(None, 1).is_err());
    let mut f = RuleFindAction::new(None, "any", vec![expr("B", ">", vec![arg("int", "x1"), arg("int", "0")])]);
    assert!(f.check_up(None, 1).is_err());
    let mut f = RuleFindAction::new(None, "some", vec![expr("B", "=", vec![arg("bool", "true"), arg("bool", "false")])]);
    assert!(f.check_up(None, 1).is_err());
    let mut f = RuleFindAction::new(None, "ANY", vec![expr("L", "len", vec![arg("string", "abc")])]);
    assert!(f.check_up(None, 1).is_err());
    let mut f = RuleFindAction::new(None, "ANY", vec![expr("B", "nope", vec![arg("string", "abc")])]);
    assert!(f.check_up(None, 1).is_err());
    let mut f = RuleFindAction::new(None, "ANY", vec![expr("B", "=", vec![arg("bool", "true"), arg("bool", "false")])]);
    assert!(f.check_up(None, 1).is_ok());
    assert!(f.check_up(None, 1).is_ok());
}

#[test]
fn number_parsing() {
    assert_eq!(parse_i64("-9223372036854775808"), Some(i64::MIN));
    assert_eq!(parse_i64("9223372036854775807"), Some(i64::MAX));
    assert_eq!(parse_i64("9223372036854775808"), None);
    assert_eq!(parse_i64("+12"), Some(12));
    assert_eq!(parse_i64("-"), None);
    assert_eq!(parse_i64(""), None);
    assert_eq!(parse_usize("42"), Some(42));
    assert_eq!(parse_usize("-1"), None);
    assert_eq!(parse_bool("true"), Some(true));
    assert_eq!(parse_bool("True"), None);
    let parts: Vec<String> = split_chars("a..b", '.');
    assert_eq!(parts, vec!["a".to_string(), "".to_string(), "b".to_string()]);
}

#[test]
fn context_records_in_order() {
    let p = pair(response(200, vec![], ""));
    let mut ctx = ActiveRuleContext::init(&Rule { id: "rule-1".to_string(), actions: vec![] }, &p);
    assert_eq!(ctx.pair_id(), 7);
    assert_eq!(ctx.rule_id(), "rule-1");
    assert_eq!(ctx.send_results().len(), 1);
    assert_eq!(ctx.send_results()[0][0].key, "__VERY_INITIAL_PAIR__");
    assert!(!ctx.found_anything_to_change());
    ctx.add_change_result(Coordinates { line: 0, start: 1, end: 2 });
    assert!(ctx.found_anything_to_change());
    ctx.add_find_result(false);
    ctx.add_find_result(true);
    assert!(!ctx.find_action_succeeded(0));
    assert!(ctx.find_action_succeeded(1));
    assert!(!ctx.find_action_succeeded(2));
    assert!(ctx.get_pair_by_id(0).is_ok());
    assert!(ctx.get_pair_by_id(1).is_err());
    ctx.add_empty_result();
    ctx.add_get_result(b"abc".to_vec());
    let r = ctx.make_result();
    assert_eq!(r.rule_id, "rule-1");
    assert_eq!(r.pair_index, 7);
    assert!(r.found_anything);
    assert_eq!(r.get_results, vec![None, Some(b"abc".to_vec())]);
}
