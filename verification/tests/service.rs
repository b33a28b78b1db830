use gqlmapi_rs::context::Delivery;
use gqlmapi_rs::handles::{ListenStep, MAPIGraphQL};
use gqlmapi_rs::json::JsonValue;
use gqlmapi_rs::protocol::{RoundTrip, ServiceCommand, Submission};
use gqlmapi_rs::text::parse_json;
use gqlmapi_rs::worker::{EngineCall, Worker};

const INTROSPECTION: &str = r#"query {
                    __schema {
                        queryType {
                            name
                        }
                        mutationType {
                            name
                        }
                        subscriptionType {
                            name
                        }
                        types {
                            kind
                            name
                        }
                    }
                }"#;

fn schema_types() -> Vec<(&'static str, &'static str)> {
    vec![
        ("SCALAR", "Boolean"),
        ("SCALAR", "Float"),
        ("SCALAR", "ID"),
        ("SCALAR", "Int"),
        ("SCALAR", "String"),
        ("ENUM", "__TypeKind"),
        ("ENUM", "__DirectiveLocation"),
        ("OBJECT", "__Schema"),
        ("OBJECT", "__Type"),
        ("OBJECT", "__Field"),
        ("OBJECT", "__InputValue"),
        ("OBJECT", "__EnumValue"),
        ("OBJECT", "__Directive"),
        ("SCALAR", "DateTime"),
        ("SCALAR", "Guid"),
        ("SCALAR", "Stream"),
        ("ENUM", "SpecialFolder"),
        ("ENUM", "PropType"),
        ("INPUT_OBJECT", "ObjectId"),
        ("INPUT_OBJECT", "NamedPropInput"),
        ("INPUT_OBJECT", "PropValueInput"),
        ("INPUT_OBJECT", "MultipleItemsInput"),
        ("INPUT_OBJECT", "PropIdInput"),
        ("INPUT_OBJECT", "PropertyInput"),
        ("INPUT_OBJECT", "Order"),
        ("INPUT_OBJECT", "Column"),
        ("INPUT_OBJECT", "CreateItemInput"),
        ("INPUT_OBJECT", "CreateSubFolderInput"),
        ("INPUT_OBJECT", "ModifyItemInput"),
        ("INPUT_OBJECT", "ModifyFolderInput"),
        ("UNION", "Attachment"),
        ("UNION", "NamedPropId"),
        ("UNION", "PropId"),
        ("UNION", "PropValue"),
        ("UNION", "ItemChange"),
        ("UNION", "FolderChange"),
        ("OBJECT", "Query"),
        ("OBJECT", "Mutation"),
        ("OBJECT", "Subscription"),
        ("OBJECT", "Store"),
        ("OBJECT", "Folder"),
        ("OBJECT", "Item"),
        ("OBJECT", "FileAttachment"),
        ("OBJECT", "Conversation"),
        ("OBJECT", "IntId"),
        ("OBJECT", "StringId"),
        ("OBJECT", "NamedId"),
        ("OBJECT", "IntValue"),
        ("OBJECT", "BoolValue"),
        ("OBJECT", "StringValue"),
        ("OBJECT", "GuidValue"),
        ("OBJECT", "DateTimeValue"),
        ("OBJECT", "BinaryValue"),
        ("OBJECT", "StreamValue"),
        ("OBJECT", "Property"),
        ("OBJECT", "ItemAdded"),
        ("OBJECT", "ItemUpdated"),
        ("OBJECT", "ItemRemoved"),
        ("OBJECT", "ItemsReloaded"),
        ("OBJECT", "FolderAdded"),
        ("OBJECT", "FolderUpdated"),
        ("OBJECT", "FolderRemoved"),
        ("OBJECT", "FoldersReloaded"),
    ]
}

fn string(s: &str) -> JsonValue {
    JsonValue::String(s.to_string())
}

fn member(name: &str, value: JsonValue) -> (String, JsonValue) {
    (name.to_string(), value)
}

fn named(name: &str) -> JsonValue {
    JsonValue::Object(vec![member("name", string(name))])
}

/// Stands in for the engine: it knows one schema, numbers what it registers
/// from 1, and answers a query or mutation with one payload and completion.
struct Engine {
    started: bool,
    stopped: bool,
    next_id: i32,
    queries: Vec<(i32, String)>,
    subscriptions: Vec<i32>,
    deliveries: Vec<Delivery>,
    completions: Vec<u32>,
}

impl Engine {
    fn new() -> Engine {
        Engine {
            started: false,
            stopped: false,
            next_id: 1,
            queries: Vec::new(),
            subscriptions: Vec::new(),
            deliveries: Vec::new(),
            completions: Vec::new(),
        }
    }

    fn payload(&self) -> String {
        let types: Vec<String> = schema_types()
            .iter()
            .map(|(kind, name)| format!(r#"{{"kind":"{}","name":"{}"}}"#, kind, name))
            .collect();
        format!(
            r#"{{"data":{{"__schema":{{"queryType":{{"name":"Query"}},"mutationType":{{"name":"Mutation"}},"subscriptionType":{{"name":"Subscription"}},"types":[{}]}}}}}}"#,
            types.join(",")
        )
    }

    fn perform(&mut self, call: EngineCall) -> Option<Result<i32, String>> {
        match call {
            EngineCall::StartService { .. } => {
                self.started = true;
                None
            }
            EngineCall::StopService => {
                self.stopped = true;
                None
            }
            EngineCall::ParseQuery { query } => {
                if query.matches('{').count() != query.matches('}').count() {
                    return Some(Err(format!("syntax error in: {}", query)));
                }
                let id = self.next_id;
                self.next_id += 1;
                self.queries.push((id, query));
                Some(Ok(id))
            }
            EngineCall::DiscardQuery { query_id } => {
                self.queries.retain(|(id, _)| *id != query_id);
                None
            }
            EngineCall::Subscribe { query_id, next_context, complete_context, .. } => {
                if !self.queries.iter().any(|(id, _)| *id == query_id) {
                    return Some(Err(format!("unknown query: {}", query_id)));
                }
                let id = self.next_id;
                self.next_id += 1;
                self.subscriptions.push(id);
                let (_context, delivery) = next_context.next(self.payload());
                self.deliveries.push(delivery);
                self.completions.push(complete_context.complete());
                Some(Ok(id))
            }
            EngineCall::Unsubscribe { subscription_id } => {
                self.subscriptions.retain(|id| *id != subscription_id);
                None
            }
        }
    }
}

/// One command through the worker and the engine, as the caller sees it.
fn round_trip(worker: &mut Worker, engine: &mut Engine, command: ServiceCommand) -> RoundTrip {
    match worker.handle(command) {
        Some(call) => {
            let answers = call.answers();
            match engine.perform(call) {
                Some(reply) if answers => RoundTrip::Replied(reply),
                _ => RoundTrip::ReceiveFailed("receiving on a closed channel".to_string()),
            }
        }
        None => RoundTrip::SendFailed("sending on a closed channel".to_string()),
    }
}

fn submit(worker: &mut Worker, engine: &mut Engine, command: ServiceCommand) -> Submission {
    match worker.handle(command) {
        Some(call) => {
            engine.perform(call);
            Submission::Sent
        }
        None => Submission::SendFailed("sending on a closed channel".to_string()),
    }
}

fn started(thread_id: u32) -> (Worker, Engine) {
    let mut worker = Worker::new(true, thread_id);
    let mut engine = Engine::new();
    let call = worker.start().expect("a new worker starts the engine");
    engine.perform(call);
    (worker, engine)
}

#[test]
fn fetch_introspection() {
    let (mut worker, mut engine) = started(11);
    let gqlmapi = MAPIGraphQL::new(11);
    let request = gqlmapi.parse_query(INTROSPECTION);
    assert_eq!(request.wake, 11);
    let trip = round_trip(&mut worker, &mut engine, request.command);
    let query = gqlmapi.query_parsed(&trip).expect("parses the introspection query");
    assert_ne!(0, query.query_id, "query ID is not 0");

    let mut subscription = gqlmapi.subscribe(&query, "", "");
    let request = match subscription.listen() {
        ListenStep::Subscribe(request) => request,
        ListenStep::Unsubscribe(_) => panic!("a new subscription is not listening"),
    };
    let trip = round_trip(&mut worker, &mut engine, request.command);
    subscription.subscribed(&trip).expect("subscribes to the query");
    assert_ne!(subscription.subscription_id, 0, "subscription ID is not 0");
    assert_eq!(engine.deliveries.len(), 1, "should always receive a payload");
    let delivery = engine.deliveries.remove(0);
    assert_eq!(delivery.wake, 11);
    let results = parse_json(&delivery.payload).expect("payload should fit query");
    assert_eq!(engine.completions, vec![11], "should always call complete");

    let types: Vec<JsonValue> = schema_types()
        .iter()
        .map(|(kind, name)| {
            JsonValue::Object(vec![member("kind", string(kind)), member("name", string(name))])
        })
        .collect();
    assert_eq!(types.len(), 63);
    let expected = JsonValue::Object(vec![member(
        "data",
        JsonValue::Object(vec![member(
            "__schema",
            JsonValue::Object(vec![
                member("queryType", named("Query")),
                member("mutationType", named("Mutation")),
                member("subscriptionType", named("Subscription")),
                member("types", JsonValue::Array(types)),
            ]),
        )]),
    )]);
    assert_eq!(*results, expected, "results should match expected snapshot");
}

#[test]
fn typename_query_gives_one_payload_then_completion() {
    let (mut worker, mut engine) = started(3);
    let gqlmapi = MAPIGraphQL::new(3);
    let request = gqlmapi.parse_query("query { __typename }");
    assert_eq!(
        request.command,
        ServiceCommand::ParsedQuery { query: "query { __typename }".to_string() }
    );
    let trip = round_trip(&mut worker, &mut engine, request.command);
    let mut query = gqlmapi.query_parsed(&trip).expect("parses");
    let mut subscription = gqlmapi.subscribe(&query, "", "");
    assert_eq!(subscription.subscription_id, 0);
    assert_eq!(subscription.unsubscribe(), None);
    let request = match subscription.listen() {
        ListenStep::Subscribe(request) => request,
        ListenStep::Unsubscribe(_) => panic!("a new subscription is not listening"),
    };
    assert_eq!(
        request.command,
        ServiceCommand::Subscribe {
            query_id: query.query_id,
            operation_name: "".to_string(),
            variables: "".to_string()
        }
    );
    let trip = round_trip(&mut worker, &mut engine, request.command);
    assert_eq!(subscription.subscribed(&trip), Ok(()));
    assert_eq!(engine.deliveries.len(), 1);
    assert_eq!(engine.completions.len(), 1);
    assert!(parse_json(&engine.deliveries[0].payload).is_ok());

    let request = subscription.unsubscribe().expect("is listening");
    assert_eq!(
        request.command,
        ServiceCommand::Unsubscribe { subscription_id: subscription.subscription_id }
    );
    let sent = submit(&mut worker, &mut engine, request.command);
    assert_eq!(subscription.unsubscribed(&sent), Ok(()));
    assert_eq!(subscription.subscription_id, 0);
    assert_eq!(subscription.unsubscribe(), None);
    assert_eq!(engine.deliveries.len(), 1);
    assert_eq!(engine.completions.len(), 1);
    assert!(engine.subscriptions.is_empty());

    let request = query.discard_query().expect("is registered");
    let sent = submit(&mut worker, &mut engine, request.command);
    assert_eq!(query.query_discarded(&sent), Ok(()));
    assert!(engine.queries.is_empty());
}

#[test]
fn malformed_query_gives_error_and_no_handle() {
    let (mut worker, mut engine) = started(3);
    let gqlmapi = MAPIGraphQL::new(3);
    let request = gqlmapi.parse_query("query {");
    let trip = round_trip(&mut worker, &mut engine, request.command);
    assert_eq!(trip, RoundTrip::Replied(Err("syntax error in: query {".to_string())));
    assert_eq!(gqlmapi.query_parsed(&trip), Err("syntax error in: query {".to_string()));
    assert!(engine.queries.is_empty());
}

#[test]
fn parse_then_discard_leaves_nothing_registered() {
    let (mut worker, mut engine) = started(5);
    let gqlmapi = MAPIGraphQL::new(5);
    let mut seen = Vec::new();
    for _ in 0..3 {
        let request = gqlmapi.parse_query("query { __typename }");
        let trip = round_trip(&mut worker, &mut engine, request.command);
        let mut query = gqlmapi.query_parsed(&trip).unwrap();
        assert!(!seen.contains(&query.query_id));
        seen.push(query.query_id);
        let request = query.discard_query().unwrap();
        let sent = submit(&mut worker, &mut engine, request.command);
        query.query_discarded(&sent).unwrap();
        assert!(engine.queries.is_empty());
    }
}

#[test]
fn commands_after_stop_reach_nothing() {
    let (mut worker, mut engine) = started(5);
    let gqlmapi = MAPIGraphQL::new(5);
    let stop = gqlmapi.service.stop();
    assert_eq!(stop.command, ServiceCommand::Stop);
    assert_eq!(submit(&mut worker, &mut engine, stop.command), Submission::Sent);
    assert!(engine.stopped);
    let request = gqlmapi.parse_query("query { __typename }");
    let trip = round_trip(&mut worker, &mut engine, request.command);
    assert_eq!(
        gqlmapi.query_parsed(&trip),
        Err("Error sending message: sending on a closed channel".to_string())
    );
    assert!(engine.queries.is_empty());
}
