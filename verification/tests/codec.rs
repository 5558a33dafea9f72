use graphql_ws::envelope::{decode, encode, Envelope, MsgType};
use graphql_ws::request::{encode_request, parse_request, GraphqlRequest};
use graphql_ws::session::WsError;

fn round_trips(e: Envelope) {
    let copy = Envelope {
        msg_type: e.msg_type,
        operation_id: e.operation_id.clone(),
        payload: e.payload.clone(),
    };
    let wire = encode(&e);
    let back = decode(&wire).expect("canonical encoding must decode");
    assert_eq!(back.msg_type, copy.msg_type);
    assert_eq!(back.operation_id, copy.operation_id);
    assert_eq!(back.payload, copy.payload);
}

#[test]
fn round_trip_connection_init() {
    round_trips(Envelope { msg_type: MsgType::ConnectionInit, operation_id: None, payload: None });
}

#[test]
fn round_trip_start() {
    round_trips(Envelope {
        msg_type: MsgType::Start,
        operation_id: Some(b"1".to_vec()),
        payload: Some(b"{\"query\":\"{users{id}}\"}".to_vec()),
    });
}

#[test]
fn round_trip_stop() {
    round_trips(Envelope { msg_type: MsgType::Stop, operation_id: Some(b"op-7".to_vec()), payload: None });
}

#[test]
fn round_trip_data() {
    round_trips(Envelope {
        msg_type: MsgType::Data,
        operation_id: Some(b"a".to_vec()),
        payload: Some(b"{\"id\":0}".to_vec()),
    });
}

#[test]
fn round_trip_error_with_null_id() {
    round_trips(Envelope {
        msg_type: MsgType::Error,
        operation_id: None,
        payload: Some(b"\"bad envelope\"".to_vec()),
    });
}

#[test]
fn round_trip_escaped_bytes() {
    round_trips(Envelope {
        msg_type: MsgType::Data,
        operation_id: Some(b"q\"uo\\te".to_vec()),
        payload: Some(b"{\"s\":\"a \\\" b\"}".to_vec()),
    });
}

#[test]
fn encode_is_the_expected_text() {
    let e = Envelope {
        msg_type: MsgType::Data,
        operation_id: Some(b"1".to_vec()),
        payload: Some(b"x".to_vec()),
    };
    let wire = encode(&e);
    assert_eq!(wire, b"{\"type\":\"data\",\"id\":\"1\",\"payload\":\"x\"}".to_vec());
}

#[test]
fn decode_rejects_malformed_text() {
    assert!(decode(&b"".to_vec()).is_none());
    assert!(decode(&b"hello".to_vec()).is_none());
    assert!(decode(&b"{\"type\":\"unknown\"}".to_vec()).is_none());
    assert!(decode(&b"{\"type\":\"start\"".to_vec()).is_none());
    assert!(decode(&b"{\"type\":\"data\",\"id\":\"1\",\"payload\":\"x\"}trailing".to_vec()).is_none());
}

#[test]
fn decode_rejects_missing_required_fields() {
    // A start without id or payload, a stop with a payload, an init with an id.
    assert!(decode(&b"{\"type\":\"start\",\"payload\":\"x\"}".to_vec()).is_none());
    assert!(decode(&b"{\"type\":\"start\",\"id\":\"1\"}".to_vec()).is_none());
    assert!(decode(&b"{\"type\":\"stop\",\"id\":\"1\",\"payload\":\"x\"}".to_vec()).is_none());
    assert!(decode(&b"{\"type\":\"connection_init\",\"id\":\"1\"}".to_vec()).is_none());
    assert!(decode(&b"{\"type\":\"stop\",\"id\":\"1\"}".to_vec()).is_some());
}

#[test]
fn parse_request_reads_query_name_and_variables() {
    let r = parse_request(&b"{\"query\":\"{users{id}}\"}".to_vec()).expect("query alone");
    assert_eq!(r.query, b"{users{id}}".to_vec());
    assert_eq!(r.operation_name, None);
    assert_eq!(r.variables, None);

    let r = parse_request(
        &b"{\"query\":\"q\",\"operationName\":\"Op\",\"variables\":\"{}\"}".to_vec(),
    )
    .expect("all fields");
    assert_eq!(r.query, b"q".to_vec());
    assert_eq!(r.operation_name, Some(b"Op".to_vec()));
    assert_eq!(r.variables, Some(b"{}".to_vec()));
}

#[test]
fn request_round_trips_through_its_payload_form() {
    let r = GraphqlRequest {
        query: b"query { friends(id: 2) { name } }".to_vec(),
        operation_name: Some(b"F\"q\"".to_vec()),
        variables: Some(b"{\"id\":2}".to_vec()),
    };
    let wire = encode_request(&r);
    let back = parse_request(&wire).expect("canonical payload must parse");
    assert_eq!(back.query, r.query);
    assert_eq!(back.operation_name, r.operation_name);
    assert_eq!(back.variables, r.variables);
}

#[test]
fn to_graphql_request_parses_or_reports_under_the_id() {
    let good = Envelope {
        msg_type: MsgType::Start,
        operation_id: Some(b"1".to_vec()),
        payload: Some(b"{\"query\":\"q\"}".to_vec()),
    };
    let req = good.to_graphql_request().expect("a canonical payload parses");
    assert_eq!(req.query, b"q".to_vec());

    let bad = Envelope {
        msg_type: MsgType::Start,
        operation_id: Some(b"1".to_vec()),
        payload: Some(b"oops".to_vec()),
    };
    let WsError(err) = bad.to_graphql_request().expect_err("a malformed payload is refused");
    assert_eq!(err.msg_type, MsgType::Error);
    assert_eq!(err.operation_id, Some(b"1".to_vec()));
}

#[test]
fn parse_request_rejects_malformed_payloads() {
    assert!(parse_request(&b"".to_vec()).is_none());
    assert!(parse_request(&b"oops".to_vec()).is_none());
    assert!(parse_request(&b"{\"query\":\"q\"".to_vec()).is_none());
    assert!(parse_request(&b"{\"variables\":\"{}\"}".to_vec()).is_none());
}
