//! End-to-end protocol scenarios over the gateway, with a toy planner
//! supplying plans and schemas the way the external planner would.

use flight_sql_gateway::gateway::{Gateway, GatewayError, Verb};
use flight_sql_gateway::handle::handle_text;
use flight_sql_gateway::schema::{Column, ColumnType, Schema};
use flight_sql_gateway::ticket::{decode_ticket, encode_ticket};

type TestGateway = Gateway<u64, String>;

fn token() -> Vec<u8> {
    b"session-token-1".to_vec()
}

fn select_one_schema() -> Schema {
    Schema {
        columns: vec![
            Column { name: "1".to_string(), column_type: ColumnType::UInt8, nullable: false },
        ],
    }
}

fn handle() -> Vec<u8> {
    (1u8..17u8).collect()
}

fn authed_gateway() -> TestGateway {
    let mut g = TestGateway::new();
    let reply = g.handshake_ok(token(), 7);
    assert_eq!(reply.payload, token());
    assert_eq!(reply.bearer, b"Bearer session-token-1".to_vec());
    g
}

#[test]
fn handshake_token_then_lookup() {
    let g = authed_gateway();
    assert_eq!(g.lookup_session(&token()), Some(&7));
    assert_eq!(g.lookup_session(&b"never-issued".to_vec()), None);
}

#[test]
fn end_to_end_select_one() {
    // handshake -> create -> get-flight-info -> fetch (twice) -> close
    // (twice) -> fetch fails with not-found.
    let mut g = authed_gateway();
    let created = g
        .create_statement(&token(), handle(), "SELECT 1".to_string(), select_one_schema())
        .expect("create must succeed for an authenticated fresh handle");
    assert_eq!(created.handle_bytes, handle());
    assert!(created.parameter_schema.is_empty());

    let info = g
        .get_flight_info_prepared(&token(), &handle())
        .expect("describe must succeed for a registered handle");
    assert_eq!(info.schema_bytes, created.schema_bytes);
    assert_eq!(info.location, "grpc+tcp://127.0.0.1");

    // The schema travels as a real Arrow IPC message.
    let parsed = arrow_ipc::convert::try_schema_from_ipc_buffer(&info.schema_bytes)
        .expect("schema bytes must be a valid IPC schema message");
    assert_eq!(parsed.fields().len(), 1);
    assert_eq!(parsed.field(0).name(), "1");
    assert_eq!(*parsed.field(0).data_type(), arrow_schema::DataType::UInt8);
    assert!(!parsed.field(0).is_nullable());

    // The minted ticket embeds the handle text.
    let text = decode_ticket(&info.ticket).expect("minted ticket must decode");
    assert_eq!(text, handle_text(&handle()));

    let entry = g.fetch(&token(), &info.ticket).expect("fetch must resolve the ticket");
    assert_eq!(entry.plan, "SELECT 1");
    // No single-use enforcement: fetching again succeeds identically.
    let again = g.fetch(&token(), &info.ticket).expect("fetch is repeatable before close");
    assert_eq!(again.plan, "SELECT 1");

    g.close_statement(&token(), &text).expect("close must succeed");
    // Close is idempotent: closing an already-closed handle succeeds.
    g.close_statement(&token(), &text).expect("close is idempotent");

    assert!(matches!(g.fetch(&token(), &info.ticket), Err(GatewayError::NotFound)));
}

#[test]
fn create_refuses_unknown_session_and_live_handle() {
    let mut g = authed_gateway();
    let schema = select_one_schema();
    let err = g
        .create_statement(&b"bad".to_vec(), handle(), "SELECT 1".to_string(), schema)
        .unwrap_err();
    assert!(matches!(err, GatewayError::AuthFailed));
    g.create_statement(&token(), handle(), "SELECT 1".to_string(), select_one_schema())
        .unwrap();
    let err = g
        .create_statement(&token(), handle(), "SELECT 2".to_string(), select_one_schema())
        .unwrap_err();
    assert!(matches!(err, GatewayError::Internal(_)));
}

#[test]
fn fresh_creates_yield_distinct_handles() {
    let mut g = authed_gateway();
    let mut handles: Vec<Vec<u8>> = Vec::new();
    for i in 0..16 {
        let rep = g
            .create_statement_fresh(&token(), format!("SELECT {i}"), select_one_schema())
            .expect("fresh create must succeed");
        assert_eq!(rep.handle_bytes.len(), 16);
        assert!(!handles.contains(&rep.handle_bytes), "handles must not repeat");
        handles.push(rep.handle_bytes);
    }
    // Every created entry stayed registered and resolves through its
    // own ticket.
    for h in &handles {
        let ticket = encode_ticket(&handle_text(h));
        assert!(g.fetch(&token(), &ticket).is_ok());
    }
}

#[test]
fn fetch_error_taxonomy() {
    let mut g = authed_gateway();
    g.create_statement(&token(), handle(), "SELECT 1".to_string(), select_one_schema())
        .unwrap();
    let ticket = encode_ticket(&handle_text(&handle()));
    assert!(matches!(
        g.fetch(&b"unknown".to_vec(), &ticket),
        Err(GatewayError::AuthFailed)
    ));
    let junk = b"not a ticket".to_vec();
    match g.fetch(&token(), &junk) {
        Err(GatewayError::MalformedTicket(t)) => assert_eq!(t, junk),
        other => panic!("expected a malformed-ticket error, got {other:?}"),
    }
    // A canonical envelope around text that is not a handle: the related,
    // equally fatal malformed-handle condition, distinct from not-found.
    let bad_text = b"abcdefgh-not-a-handle-text-x-badbadb".to_vec();
    assert_eq!(bad_text.len(), 36);
    let bad_ticket = encode_ticket(&bad_text);
    assert!(matches!(
        g.fetch(&token(), &bad_ticket),
        Err(GatewayError::MalformedHandle)
    ));
    // A well-formed ticket for a handle never registered: not-found.
    let other: Vec<u8> = (100u8..116u8).collect();
    let missing = encode_ticket(&handle_text(&other));
    assert!(matches!(g.fetch(&token(), &missing), Err(GatewayError::NotFound)));
}

#[test]
fn describe_error_taxonomy() {
    let g = authed_gateway();
    assert!(matches!(
        g.get_flight_info_prepared(&b"unknown".to_vec(), &handle()),
        Err(GatewayError::AuthFailed)
    ));
    assert!(matches!(
        g.get_flight_info_prepared(&token(), &vec![1u8, 2, 3]),
        Err(GatewayError::MalformedHandle)
    ));
    assert!(matches!(
        g.get_flight_info_prepared(&token(), &handle()),
        Err(GatewayError::NotFound)
    ));
}

#[test]
fn close_error_taxonomy() {
    let mut g = authed_gateway();
    assert!(matches!(
        g.close_statement(&b"unknown".to_vec(), &handle_text(&handle())),
        Err(GatewayError::AuthFailed)
    ));
    assert!(matches!(
        g.close_statement(&token(), &b"not a handle".to_vec()),
        Err(GatewayError::MalformedHandle)
    ));
    // Closing a never-created handle is not an error.
    g.close_statement(&token(), &handle_text(&handle())).unwrap();
}

#[test]
fn close_leaves_other_handles_alone() {
    let mut g = authed_gateway();
    let h1 = handle();
    let h2: Vec<u8> = (50u8..66u8).collect();
    g.create_statement(&token(), h1.clone(), "SELECT 1".to_string(), select_one_schema())
        .unwrap();
    g.create_statement(&token(), h2.clone(), "SELECT 2".to_string(), select_one_schema())
        .unwrap();
    g.close_statement(&token(), &handle_text(&h1)).unwrap();
    let ticket2 = encode_ticket(&handle_text(&h2));
    assert_eq!(g.fetch(&token(), &ticket2).unwrap().plan, "SELECT 2");
}

#[test]
fn sessions_accumulate_and_reissue_overwrites() {
    let mut g = TestGateway::new();
    g.handshake_ok(b"t1".to_vec(), 1);
    g.handshake_ok(b"t2".to_vec(), 2);
    assert_eq!(g.lookup_session(&b"t1".to_vec()), Some(&1));
    assert_eq!(g.lookup_session(&b"t2".to_vec()), Some(&2));
    // Re-issuing a token binds it to the newest session.
    g.handshake_ok(b"t1".to_vec(), 3);
    assert_eq!(g.lookup_session(&b"t1".to_vec()), Some(&3));
    assert_eq!(g.lookup_session(&b"t2".to_vec()), Some(&2));
}

#[test]
fn unimplemented_verbs_report_their_name() {
    let err = flight_sql_gateway::gateway::unsupported_verb(Verb::GetFlightInfoCatalogs);
    assert_eq!(err, GatewayError::Unimplemented(Verb::GetFlightInfoCatalogs));
    let err = flight_sql_gateway::gateway::unsupported_verb(Verb::DoPutStatementUpdate);
    assert!(matches!(err, GatewayError::Unimplemented(Verb::DoPutStatementUpdate)));
}
