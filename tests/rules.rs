use cruster::context::ActiveRuleContext;
use cruster::find::{ExecutableExpression, ExpressionArg, RuleFindAction};
use cruster::get::{GetProvenance, extract_one, ExtractionMode, ExtractionModeByPart, RuleGetAction};
use cruster::http::{Coordinates, Request, RequestResponsePair, Response, SingleSendActionResult};
use cruster::reference::parse_reference;
use cruster::render::decimal_string;
use cruster::rule::{Rule, RuleAction};
use cruster::rule_actions::{ChangeValuePlacement, RuleChangeAction, RuleSendAction, RuleWatchAction, WatchId, WatchPart};
use cruster::ui_events::{ActiveWindow, Key, UIEvents, UiCommand};

fn request(path: &str) -> Request {
    Request {
        method: "GET".to_string(),
        path: path.to_string(),
        version: "HTTP/1.1".to_string(),
        headers: vec![("Host".to_string(), "example.com".to_string())],
        body: Vec::new(),
    }
}

fn response(status: u16, body: &str) -> Response {
    Response { version: "HTTP/1.1".to_string(), status, headers: vec![], body: body.as_bytes().to_vec() }
}

fn pair() -> RequestResponsePair {
    RequestResponsePair { index: 3, request: request("/item?id=5"), response: response(200, "ok") }
}

fn sent(status: u16, body: &str) -> Vec<SingleSendActionResult> {
    vec![SingleSendActionResult {
        key: "-1".to_string(),
        request_sent: request("/item?id=-1"),
        positions_changed: Coordinates { line: 0, start: 12, end: 13 },
        responses_received: vec![response(status, body)],
    }]
}

fn watch(id: Option<&str>, part: &str, pattern: &str) -> RuleAction {
    RuleAction::Watch(RuleWatchAction {
        id: id.map(|s| s.to_string()),
        part: part.to_string(),
        part_cache: None,
        pattern: pattern.to_string(),
    })
}

fn change(watch_id: &str, placement: &str, values: Vec<&str>) -> RuleAction {
    RuleAction::Change(RuleChangeAction {
        id: None,
        watch_id: watch_id.to_string(),
        watch_id_cache: None,
        placement: placement.to_string(),
        placement_cache: None,
        values: values.into_iter().map(|v| v.to_string()).collect(),
    })
}

fn send(id: Option<&str>, apply: &str) -> RuleAction {
    RuleAction::Send(RuleSendAction {
        id: id.map(|s| s.to_string()),
        apply: apply.to_string(),
        apply_cache: None,
        repeat: None,
        timeout_after: None,
    })
}

fn find(reference: &str, value: &str) -> RuleAction {
    RuleAction::Find(RuleFindAction::new(
        None,
        "any",
        vec![ExecutableExpression::new(
            "S",
            "=",
            vec![ExpressionArg::new("reference", reference), ExpressionArg::new("int", value)],
        )],
    ))
}

fn token_get() -> RuleAction {
    RuleAction::Get(RuleGetAction::new(
        "1",
        "0",
        ExtractionModeByPart::Response(ExtractionMode::Group("token".to_string())),
        "token=(?P<token>\\w+)",
    ))
}

fn probe_rule() -> Rule {
    Rule {
        id: "sqli".to_string(),
        actions: vec![
            watch(None, "path", "id=(\\d+)"),
            change("0:1", "replace", vec!["-1"]),
            send(None, "0"),
            find("1.response.status", "500"),
            token_get(),
        ],
    }
}

#[test]
fn regex_evidence() {
    let mut rule = probe_rule();
    assert!(rule.check_up().is_ok());
    let p = pair();
    let result = rule.run(&p, vec![sent(500, "error near token=abc; retry")]).unwrap();
    assert_eq!(result.find_results, vec![true]);
    assert!(result.found_anything);
    assert_eq!(result.get_results, vec![Some(b"abc".to_vec())]);
    assert_eq!(
        result.get_provenance,
        vec![GetProvenance {
            find_id: 0,
            send_id: 1,
            extract: ExtractionModeByPart::Response(ExtractionMode::Group("token".to_string())),
        }]
    );
    assert_eq!(result.rule_id, "sqli");
    assert_eq!(result.pair_index, 3);
}

#[test]
fn get_gated_by_failed_find() {
    let mut rule = probe_rule();
    assert!(rule.check_up().is_ok());
    let p = pair();
    let result = rule.run(&p, vec![sent(200, "token=abc")]).unwrap();
    assert_eq!(result.find_results, vec![false]);
    assert_eq!(result.get_results, vec![None]);
}

#[test]
fn missing_send_result_is_an_error() {
    let mut rule = probe_rule();
    assert!(rule.check_up().is_ok());
    let p = pair();
    assert!(rule.run(&p, vec![]).is_err());
}

#[test]
fn rule_check_up_fills_caches() {
    let mut rule = probe_rule();
    assert!(rule.check_up().is_ok());
    match &rule.actions[0] {
        RuleAction::Watch(w) => assert_eq!(w.part_cache, Some(WatchPart::Path)),
        _ => panic!("watch expected"),
    }
    match &rule.actions[1] {
        RuleAction::Change(c) => {
            assert_eq!(c.watch_id_cache, Some(WatchId::new(0, Some("1".to_string()))));
            assert_eq!(c.placement_cache, Some(ChangeValuePlacement::Replace));
        }
        _ => panic!("change expected"),
    }
    match &rule.actions[2] {
        RuleAction::Send(s) => assert_eq!(s.apply_cache, Some(0)),
        _ => panic!("send expected"),
    }
    match &rule.actions[4] {
        RuleAction::Get(g) => {
            assert_eq!(g.from_cache, Some(1));
            assert_eq!(g.if_succeed_cache, Some(0));
        }
        _ => panic!("get expected"),
    }
    let again = rule.clone();
    assert!(rule.check_up().is_ok());
    assert_eq!(rule, again);
}

#[test]
fn symbolic_send_id_in_rule() {
    let mut rule = Rule {
        id: "r".to_string(),
        actions: vec![
            watch(None, "body", "X=(\\w+)"),
            change("0", "after", vec!["'"]),
            send(Some("probe"), "0"),
            RuleAction::Find(RuleFindAction::new(
                None,
                "any",
                vec![
                    ExecutableExpression::new("L", "len", vec![ExpressionArg::new("reference", "probe.response.body")]),
                    ExecutableExpression::new("B", ">", vec![ExpressionArg::new("variable", "L"), ExpressionArg::new("int", "0")]),
                ],
            )),
        ],
    };
    assert!(rule.check_up().is_ok());
    match &rule.actions[3] {
        RuleAction::Find(f) => {
            let cache = f.expressions[0].args[0].type_cache.clone();
            match cache {
                Some(cruster::value::Value::Reference(r)) => assert_eq!(r.id, 1),
                other => panic!("unexpected {:?}", other),
            }
        }
        _ => panic!("find expected"),
    }
}

#[test]
fn unresolved_symbolic_id_in_rule() {
    let mut rule = Rule {
        id: "r".to_string(),
        actions: vec![
            watch(None, "body", "X=(\\w+)"),
            change("0", "after", vec!["'"]),
            send(None, "0"),
            find("probe.response.status", "500"),
        ],
    };
    let before = rule.clone();
    assert!(rule.check_up().is_err());
    assert_eq!(rule.id, before.id);
}

#[test]
fn rule_rejects_bad_cross_references() {
    let mut r = Rule { id: "a".to_string(), actions: vec![change("0", "replace", vec!["x"])] };
    assert!(r.check_up().is_err());
    let mut r = Rule { id: "b".to_string(), actions: vec![send(None, "0")] };
    assert!(r.check_up().is_err());
    let mut r = Rule { id: "c".to_string(), actions: vec![watch(None, "cookie", "x")] };
    assert!(r.check_up().is_err());
    let mut r = Rule { id: "d".to_string(), actions: vec![watch(None, "BODY", "x"), change("0", "inside", vec!["x"])] };
    assert!(r.check_up().is_err());
    let mut r = Rule { id: "e".to_string(), actions: vec![find("0.response.status", "200"), token_get()] };
    assert!(r.check_up().is_err());
    let mut r = Rule {
        id: "f".to_string(),
        actions: vec![
            find("0.response.status", "200"),
            RuleAction::Get(RuleGetAction::new("0", "0", ExtractionModeByPart::Request(ExtractionMode::Match), "x")),
        ],
    };
    assert!(r.check_up().is_ok());
}

#[test]
fn extraction_modes() {
    let text = "first line\nsecond token=abc\nthird";
    assert_eq!(extract_one(&ExtractionMode::Line, "token", text), Some(Some("second token=abc".to_string())));
    assert_eq!(extract_one(&ExtractionMode::Match, "token=\\w+", text), Some(Some("token=abc".to_string())));
    assert_eq!(
        extract_one(&ExtractionMode::Group("v".to_string()), "token=(?P<v>\\w+)", text),
        Some(Some("abc".to_string()))
    );
    assert_eq!(extract_one(&ExtractionMode::Match, "nothing", text), Some(None));
    assert_eq!(extract_one(&ExtractionMode::Line, "(", text), None);
}

#[test]
fn get_action_directly() {
    let p = pair();
    let mut ctx = ActiveRuleContext::init(&Rule { id: "r".to_string(), actions: vec![] }, &p);
    let mut g = RuleGetAction::new("0", "0", ExtractionModeByPart::Request(ExtractionMode::Match), "id=\\d+");
    assert!(g.check_up(None, 1, None, 1).is_ok());
    ctx.add_find_result(true);
    assert!(g.exec(&mut ctx).is_ok());
    let mut bad = RuleGetAction::new("0", "0", ExtractionModeByPart::Request(ExtractionMode::Match), "x");
    assert!(bad.check_up(None, 1, None, 0).is_err());
    assert!(bad.check_up(None, 0, None, 1).is_err());
    let r = ctx.make_result();
    assert_eq!(r.get_results, vec![None]);
}

#[test]
fn render_round_trip() {
    let ids = vec![("probe".to_string(), 12usize)];
    let r = parse_reference("probe.response.headers.Content-Type", Some(&ids), 13).unwrap();
    assert_eq!(r.render(), "12.response.headers.Content-Type");
    let back = parse_reference(&r.render(), Some(&ids), 13).unwrap();
    assert_eq!(back, r);
    let s = parse_reference("0.request.method", None, 1).unwrap();
    assert_eq!(s.render(), "0.request.method");
    assert_eq!(decimal_string(1907), "1907");
    assert_eq!(decimal_string(0), "0");
}

#[test]
fn ui_quit_needs_confirmation() {
    let mut ui = UIEvents::new();
    let (quit, cmds) = ui.process_event(Key::Char('q'), ActiveWindow::Table);
    assert!(!quit);
    assert_eq!(cmds, vec![UiCommand::ShowExitConfirmation, UiCommand::ShowConfirmationPrompt]);
    assert!(ui.confirmation);
    let (quit, cmds) = ui.process_event(Key::Char('n'), ActiveWindow::Table);
    assert!(!quit);
    assert_eq!(cmds, vec![UiCommand::HideConfirmation, UiCommand::ClearStatusbar]);
    ui.process_event(Key::Char('q'), ActiveWindow::Table);
    let (quit, cmds) = ui.process_event(Key::Char('y'), ActiveWindow::Table);
    assert!(quit);
    assert_eq!(cmds, vec![UiCommand::HideConfirmation]);
}

#[test]
fn ui_popups_and_focus() {
    let mut ui = UIEvents::new();
    ui.something_changed = false;
    let (_, cmds) = ui.process_event(Key::Char('?'), ActiveWindow::Table);
    assert_eq!(cmds, vec![UiCommand::ShowHelp]);
    assert!(ui.popup_enabled && ui.something_changed);
    let (_, cmds) = ui.process_event(Key::Char('r'), ActiveWindow::Table);
    assert!(cmds.is_empty());
    let (_, cmds) = ui.process_event(Key::PageDown, ActiveWindow::Table);
    assert!(cmds.is_empty());
    let (_, cmds) = ui.process_event(Key::Char('q'), ActiveWindow::Table);
    assert_eq!(cmds, vec![UiCommand::HideHelp, UiCommand::HideErrors]);
    assert!(!ui.popup_enabled);
    let (_, cmds) = ui.process_event(Key::Char('f'), ActiveWindow::Table);
    assert_eq!(cmds, vec![UiCommand::ShowFullscreen]);
    let (_, cmds) = ui.process_event(Key::Char('s'), ActiveWindow::Table);
    assert_eq!(cmds, vec![UiCommand::CancelFullscreen, UiCommand::ActivateResponse, UiCommand::ShowFullscreen]);
    let (_, cmds) = ui.process_event(Key::Up, ActiveWindow::Response);
    assert_eq!(cmds, vec![UiCommand::ScrollResponse(-5)]);
    let (_, cmds) = ui.process_event(Key::Down, ActiveWindow::Table);
    assert_eq!(cmds, vec![UiCommand::TableStepDown]);
    let (_, cmds) = ui.process_event(Key::End, ActiveWindow::Table);
    assert_eq!(cmds, vec![UiCommand::TableEnd]);
    ui.table_state_changed = false;
    ui.something_changed = false;
    ui.something_changed();
    assert!(ui.something_changed && !ui.table_state_changed);
}

#[test]
fn ui_default_state() {
    let ui = UIEvents::default();
    assert_eq!(ui, UIEvents::new());
    assert!(ui.something_changed);
    assert!(!ui.table_state_changed && !ui.popup_enabled && !ui.entered_fullscreen && !ui.confirmation && !ui.input_mode);
    let mut other = ui;
    let (quit, cmds) = other.process_event(Key::Other, ActiveWindow::Table);
    assert!(!quit && cmds.is_empty());
    assert_eq!(other, ui);
}

#[test]
fn checked_expression_exec() {
    let mut f = RuleFindAction::new(
        None,
        "any",
        vec![ExecutableExpression::new("C", "less", vec![ExpressionArg::new("int", "1"), ExpressionArg::new("int", "2")])],
    );
    assert!(f.check_up(None, 1).is_ok());
    let e = &f.expressions[0];
    let args = vec![cruster::value::Value::Integer(1), cruster::value::Value::Integer(2)];
    assert_eq!(e.exec(&args), Ok(cruster::value::Value::Boolean(true)));
    let wrong = vec![cruster::value::Value::String("a".to_string()), cruster::value::Value::Integer(2)];
    assert!(e.exec(&wrong).is_err());
    assert_eq!(f.get_id(), None);
}

#[test]
fn error_messages_name_the_culprit() {
    let mut f = RuleFindAction::new(None, "some", vec![]);
    assert!(f.check_up(None, 1).unwrap_err().0.ends_with("some"));
    let mut f = RuleFindAction::new(
        None,
        "any",
        vec![ExecutableExpression::new("N", "len", vec![ExpressionArg::new("string", "abc")])],
    );
    assert!(f.check_up(None, 1).unwrap_err().0.ends_with("N"));
    let mut f = RuleFindAction::new(
        None,
        "any",
        vec![ExecutableExpression::new("B", ">", vec![ExpressionArg::new("variable", "L"), ExpressionArg::new("int", "0")])],
    );
    assert!(f.check_up(None, 1).unwrap_err().0.ends_with("L"));
    let mut f = RuleFindAction::new(
        None,
        "any",
        vec![ExecutableExpression::new("S", "=", vec![ExpressionArg::new("reference", "probe.response.status"), ExpressionArg::new("int", "1")])],
    );
    assert!(f.check_up(None, 2).unwrap_err().0.ends_with("probe"));
    let mut f = RuleFindAction::new(
        None,
        "any",
        vec![ExecutableExpression::new("S", "=", vec![ExpressionArg::new("reference", "1.response.status"), ExpressionArg::new("int", "1")])],
    );
    assert!(f.check_up(None, 2).is_ok());
    let p = pair();
    let mut ctx = ActiveRuleContext::init(&Rule { id: "r".to_string(), actions: vec![] }, &p);
    assert!(f.exec(&mut ctx).unwrap_err().0.ends_with("S"));
    assert!(ctx.find_results().is_empty());
}

#[test]
fn repeated_symbolic_id_takes_the_last() {
    let ids = vec![("probe".to_string(), 1usize), ("probe".to_string(), 2usize)];
    let r = parse_reference("probe.response.body", Some(&ids), 3).unwrap();
    assert_eq!(r.id, 2);
}

#[test]
fn make_result_carries_get_provenance() {
    let mut rule = probe_rule();
    assert!(rule.check_up().is_ok());
    let p = pair();
    let mut ctx = ActiveRuleContext::init(&rule, &p);
    ctx.add_empty_result();
    let r = ctx.make_result();
    assert_eq!(r.get_results, vec![None]);
    assert_eq!(
        r.get_provenance,
        vec![GetProvenance {
            find_id: 0,
            send_id: 1,
            extract: ExtractionModeByPart::Response(ExtractionMode::Group("token".to_string())),
        }]
    );
}

#[test]
fn operation_failure_keeps_its_message() {
    let mut f = RuleFindAction::new(
        None,
        "any",
        vec![ExecutableExpression::new(
            "M",
            "~",
            vec![ExpressionArg::new("reference", "0.response.body"), ExpressionArg::new("string", "(")],
        )],
    );
    assert!(f.check_up(None, 1).is_ok());
    let p = pair();
    let mut ctx = ActiveRuleContext::init(&Rule { id: "r".to_string(), actions: vec![] }, &p);
    assert_eq!(f.exec(&mut ctx).unwrap_err().0, "evaluation failed in M");
    let mut le = RuleFindAction::new(
        None,
        "any",
        vec![ExecutableExpression::new("C", "<=", vec![ExpressionArg::new("int", "2"), ExpressionArg::new("int", "2")])],
    );
    assert!(le.check_up(None, 1).is_ok());
    assert!(le.exec(&mut ctx).is_ok());
    assert_eq!(ctx.find_results(), &vec![true]);
}
