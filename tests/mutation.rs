use cruster::context::ActiveRuleContext;
use cruster::http::{Coordinates, Request, RequestResponsePair, Response};
use cruster::message::{apply_placement, request_lines, split_body, WatchHit};
use cruster::rule::{Rule, RuleAction};
use cruster::rule_actions::{ChangeValuePlacement, RuleChangeAction, RuleSendAction, RuleWatchAction, WatchId, WatchPart};

fn pair_with_body(body: &str) -> RequestResponsePair {
    RequestResponsePair {
        index: 1,
        request: Request {
            method: "GET".to_string(),
            path: "/item?id=5".to_string(),
            version: "HTTP/1.1".to_string(),
            headers: vec![("Host".to_string(), "example.com".to_string()), ("X-Id".to_string(), "id=77".to_string())],
            body: body.as_bytes().to_vec(),
        },
        response: Response { version: "HTTP/1.1".to_string(), status: 200, headers: vec![], body: vec![] },
    }
}

fn watch(part: WatchPart, pattern: &str) -> RuleWatchAction {
    RuleWatchAction { id: None, part: "x".to_string(), part_cache: Some(part), pattern: pattern.to_string() }
}

fn change(group: Option<&str>, how: ChangeValuePlacement, values: Vec<&str>) -> RuleChangeAction {
    RuleChangeAction {
        id: None,
        watch_id: "0".to_string(),
        watch_id_cache: Some(WatchId::new(0, group.map(|g| g.to_string()))),
        placement: "x".to_string(),
        placement_cache: Some(how),
        values: values.into_iter().map(|v| v.to_string()).collect(),
    }
}

#[test]
fn request_textual_form() {
    let p = pair_with_body("a=1\nb=2");
    let lines = request_lines(&p.request);
    assert_eq!(
        lines,
        vec![
            b"GET /item?id=5 HTTP/1.1".to_vec(),
            b"Host: example.com".to_vec(),
            b"X-Id: id=77".to_vec(),
            b"a=1".to_vec(),
            b"b=2".to_vec(),
        ]
    );
    assert_eq!(split_body(&b"x\n\ny".to_vec()), vec![b"x".to_vec(), vec![], b"y".to_vec()]);
    assert_eq!(split_body(&Vec::new()), vec![Vec::<u8>::new()]);
}

#[test]
fn placements() {
    let line = b"id=5&x".to_vec();
    let payload = b"-1".to_vec();
    assert_eq!(apply_placement(&line, 3, 4, &payload, ChangeValuePlacement::Replace), b"id=-1&x".to_vec());
    assert_eq!(apply_placement(&line, 3, 4, &payload, ChangeValuePlacement::Before), b"id=-15&x".to_vec());
    assert_eq!(apply_placement(&line, 3, 4, &payload, ChangeValuePlacement::After), b"id=5-1&x".to_vec());
}

#[test]
fn watch_path_then_replace() {
    let p = pair_with_body("");
    let mut ctx = ActiveRuleContext::init(&Rule { id: "r".to_string(), actions: vec![] }, &p);
    assert!(!ctx.found_anything_to_change());
    assert!(watch(WatchPart::Path, "id=(\\d+)").exec(&mut ctx).is_ok());
    assert!(!ctx.found_anything_to_change());
    assert_eq!(
        ctx.watch_results(),
        &vec![vec![WatchHit { group: 1, position: Coordinates { line: 0, start: 13, end: 14 } }]]
    );
    let made = change(None, ChangeValuePlacement::Replace, vec!["-1", "'"]).exec(&mut ctx).unwrap();
    assert_eq!(made.len(), 2);
    assert_eq!(made[0].lines[0], b"GET /item?id=-1 HTTP/1.1".to_vec());
    assert_eq!(made[1].lines[0], b"GET /item?id=' HTTP/1.1".to_vec());
    assert_eq!(made[1].payload, "'");
    assert_eq!(made[0].lines[1], b"Host: example.com".to_vec());
    assert!(ctx.found_anything_to_change());
    assert_eq!(ctx.change_results(), &vec![Coordinates { line: 0, start: 13, end: 14 }]);
}

#[test]
fn watch_headers_and_body_lines() {
    let p = pair_with_body("X=abc\nnothing\nX=de");
    let mut ctx = ActiveRuleContext::init(&Rule { id: "r".to_string(), actions: vec![] }, &p);
    assert!(watch(WatchPart::Body, "X=(\\w+)").exec(&mut ctx).is_ok());
    assert!(watch(WatchPart::Headers, "id=(\\d+)").exec(&mut ctx).is_ok());
    let hits = ctx.watch_results();
    assert_eq!(
        hits[0],
        vec![
            WatchHit { group: 1, position: Coordinates { line: 3, start: 2, end: 5 } },
            WatchHit { group: 1, position: Coordinates { line: 5, start: 2, end: 4 } },
        ]
    );
    assert_eq!(hits[1], vec![WatchHit { group: 1, position: Coordinates { line: 2, start: 9, end: 11 } }]);
}

#[test]
fn change_group_restriction_and_errors() {
    let p = pair_with_body("");
    let mut ctx = ActiveRuleContext::init(&Rule { id: "r".to_string(), actions: vec![] }, &p);
    assert!(change(None, ChangeValuePlacement::Replace, vec!["x"]).exec(&mut ctx).is_err());
    assert!(watch(WatchPart::Method, "(").exec(&mut ctx).is_err());
    assert!(ctx.watch_results().is_empty());
    assert!(watch(WatchPart::Version, "HTTP/(\\d)\\.(\\d)").exec(&mut ctx).is_ok());
    let only_second = change(Some("2"), ChangeValuePlacement::After, vec!["9"]).exec(&mut ctx).unwrap();
    assert_eq!(only_second.len(), 1);
    assert_eq!(only_second[0].lines[0], b"GET /item?id=5 HTTP/1.19".to_vec());
    let none = change(Some("3"), ChangeValuePlacement::After, vec!["9"]).exec(&mut ctx).unwrap();
    assert!(none.is_empty());
}

#[test]
fn prepare_gives_requests_to_send() {
    let mut rule = Rule {
        id: "r".to_string(),
        actions: vec![
            RuleAction::Watch(RuleWatchAction { id: None, part: "Path".to_string(), part_cache: None, pattern: "id=(\\d+)".to_string() }),
            RuleAction::Change(RuleChangeAction {
                id: Some("c".to_string()),
                watch_id: "0:1".to_string(),
                watch_id_cache: None,
                placement: "REPLACE".to_string(),
                placement_cache: None,
                values: vec!["-1".to_string()],
            }),
            RuleAction::Send(RuleSendAction { id: None, apply: "c".to_string(), apply_cache: None, repeat: Some(2), timeout_after: None }),
        ],
    };
    assert!(rule.check_up().is_ok());
    let p = pair_with_body("");
    let made = rule.prepare(&p).unwrap();
    assert_eq!(made.len(), 1);
    assert_eq!(made[0].len(), 1);
    assert_eq!(made[0][0].lines[0], b"GET /item?id=-1 HTTP/1.1".to_vec());
    match &rule.actions[2] {
        RuleAction::Send(s) => {
            assert_eq!(s.apply_cache, Some(0));
            assert_eq!(s.repeat_count(), 2);
        }
        _ => panic!("send expected"),
    }
}

#[test]
fn optional_groups_that_take_no_part_are_skipped() {
    let p = pair_with_body("");
    let mut ctx = ActiveRuleContext::init(&Rule { id: "r".to_string(), actions: vec![] }, &p);
    assert!(watch(WatchPart::Path, "(x)?id=(\\d+)").exec(&mut ctx).is_ok());
    assert_eq!(
        ctx.watch_results(),
        &vec![vec![WatchHit { group: 2, position: Coordinates { line: 0, start: 13, end: 14 } }]]
    );
}
