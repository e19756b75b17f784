//! Messengers: routing, declarations, and what is wrong with them.
use soulrust::messenger::actor::Stopped;
use soulrust::messenger::grammar::{parse_spec, Token};
use soulrust::messenger::spec::{Component, Fault, MessageDef, Place, Spec};
use soulrust::messenger::topology::{
    Audit, Controller, ControllerSendable, GetTenantRequest, Telemetry, TenantUpdatedProto,
    UnitMessenger, Worker, WorkerDone, WorkerSendable,
};

fn new_messenger() -> UnitMessenger<Controller, Worker, Audit> {
    UnitMessenger::new(Controller::default(), Worker::default(), Audit::default())
}

#[test]
fn request_response_routes_to_single_handler() {
    let mut m = new_messenger();
    let response = m
        .controller_sendable()
        .send_get_tenant_request(GetTenantRequest { tenant_id: 7 });
    assert_eq!(response.name, "tenant-7");
}

#[test]
fn event_fans_out_to_all_handlers() {
    let mut m = new_messenger();
    m.controller_sendable()
        .send_tenant_updated(TenantUpdatedProto { tenant_id: 3 });
    assert_eq!(m.worker.seen_tenants, vec![3]);
    assert_eq!(m.audit.events, vec![TenantUpdatedProto { tenant_id: 3 }]);
}

#[test]
fn event_without_handlers_is_dropped() {
    let mut m = new_messenger();
    m.controller_sendable().send_telemetry(Telemetry { event: "boot" });
    assert!(m.worker.seen_tenants.is_empty());
    assert!(m.audit.events.is_empty());
    assert!(m.controller.done_jobs.is_empty());
}

#[test]
fn event_routes_back_to_controller() {
    let mut m = new_messenger();
    m.worker_sendable().send_worker_done(WorkerDone { job: 42 });
    assert_eq!(m.controller.done_jobs, vec![42]);
}

fn run_controller_logic(sendable: &mut impl ControllerSendable) -> String {
    sendable
        .send_get_tenant_request(GetTenantRequest { tenant_id: 1 })
        .name
}

#[test]
fn components_depend_only_on_their_sendable_trait() {
    let mut m = new_messenger();
    assert_eq!(run_controller_logic(m.controller_sendable()), "tenant-1");
}

#[test]
fn a_stopped_actor_says_so() {
    assert_eq!(Stopped.message(), "actor has stopped");
}

fn event(message: &str) -> MessageDef {
    MessageDef { message: message.to_owned(), response: None }
}

fn request(message: &str, response: &str) -> MessageDef {
    MessageDef { message: message.to_owned(), response: Some(response.to_owned()) }
}

fn component(name: &str, sends: Vec<MessageDef>, handles: Vec<MessageDef>) -> Component {
    Component { name: name.to_owned(), sends, handles }
}

fn spec(components: Vec<Component>) -> Spec {
    Spec { messenger_name: "UnitMessenger".to_owned(), components }
}

fn fault(place: Place, text: &str) -> Result<(), Fault<String>> {
    Err(Fault { place, text: text.to_owned() })
}

fn unit() -> Spec {
    spec(vec![
        component(
            "controller",
            vec![
                request("pb :: GetTenantRequest", "pb :: GetTenantResponse"),
                event("TenantUpdatedProto"),
                event("Telemetry"),
            ],
            vec![event("WorkerDone")],
        ),
        component(
            "worker",
            vec![event("WorkerDone")],
            vec![
                request("pb :: GetTenantRequest", "pb :: GetTenantResponse"),
                event("TenantUpdatedProto"),
            ],
        ),
        component("audit", vec![], vec![event("TenantUpdatedProto")]),
    ])
}

#[test]
fn a_sound_declaration_has_no_fault() {
    assert_eq!(unit().validate(), Ok(()));
    assert_eq!(unit().handlers_for("TenantUpdatedProto"), vec!["worker", "audit"]);
    assert!(unit().handlers_for("Telemetry").is_empty());
}

#[test]
fn faults_name_the_declaration_and_what_is_wrong() {
    assert_eq!(
        spec(vec![]).validate(),
        fault(Place::Messenger, "at least one component is required")
    );
    assert_eq!(
        spec(vec![
            component("a", vec![event("E")], vec![]),
            component("a", vec![event("E")], vec![]),
        ])
        .validate(),
        fault(Place::Component(1), "duplicate component name `a`")
    );
    assert_eq!(
        spec(vec![component("a", vec![], vec![])]).validate(),
        fault(
            Place::Component(0),
            "component `a` must declare at least one `sends` or `handles`"
        )
    );
    assert_eq!(
        spec(vec![component("a", vec![event("E"), event("F"), event("E")], vec![])]).validate(),
        fault(Place::Sends(0, 2), "component `a`: duplicate message in `sends`")
    );
    assert_eq!(
        spec(vec![component("a", vec![], vec![event("E"), event("E")])]).validate(),
        fault(Place::Handles(0, 1), "component `a`: duplicate message in `handles`")
    );
    assert_eq!(
        spec(vec![component("a", vec![event("E"), request("Q", "R")], vec![])]).validate(),
        fault(
            Place::Sends(0, 1),
            "component `a`: message `Q` has a response type but no component handles it"
        )
    );
    assert_eq!(
        spec(vec![
            component("a", vec![request("Q", "R")], vec![]),
            component("b", vec![], vec![request("Q", "R")]),
            component("c", vec![], vec![request("Q", "R")]),
        ])
        .validate(),
        fault(
            Place::Sends(0, 0),
            "component `a`: message `Q` has a response type but multiple handlers: b, c (1:1 routing requires exactly one)"
        )
    );
}

fn word(w: &str) -> Token<String> {
    Token::Word(w.to_owned())
}

fn declaration() -> Vec<Token<String>> {
    vec![
        word("messenger"),
        word("M"),
        Token::Semicolon,
        word("component"),
        word("a"),
        Token::Open,
        word("sends"),
        Token::Type("pb :: Q".to_owned()),
        Token::Arrow,
        word("R"),
        Token::Semicolon,
        word("handles"),
        word("E"),
        Token::Semicolon,
        Token::Close,
    ]
}

#[test]
fn declarations_are_read() {
    assert_eq!(
        parse_spec(&declaration()).unwrap(),
        Spec {
            messenger_name: "M".to_owned(),
            components: vec![component("a", vec![request("pb :: Q", "R")], vec![event("E")])],
        }
    );
}

#[test]
fn syntax_errors_say_what_was_expected_and_where() {
    let whole = declaration();
    let n = whole.len();
    let cases = vec![
        (0, word("component"), n, "expected `messenger <Name>;` as the first declaration"),
        (1, Token::Semicolon, n - 1, "expected identifier"),
        (2, Token::Arrow, n - 2, "expected `;`"),
        (3, word("part"), n - 3, "expected `component`"),
        (5, Token::Semicolon, n - 5, "expected curly braces"),
        (6, word("emits"), n - 6, "expected `sends` or `handles`"),
        (7, Token::Arrow, n - 7, "expected a type"),
        (10, Token::Close, n - 10, "expected `;`"),
    ];
    for (at, token, left, expected) in cases {
        let mut tokens = declaration();
        tokens[at] = token;
        let e = parse_spec(&tokens).unwrap_err();
        assert_eq!(e.left, left);
        assert_eq!(e.expected, expected);
    }
    let mut open = declaration();
    open.pop();
    assert_eq!(parse_spec(&open).unwrap_err().expected, "expected identifier");
}
