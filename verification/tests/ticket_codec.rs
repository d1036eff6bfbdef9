//! Wire-level tests of the ticket codec: round trips, rejection of
//! malformed envelopes, and bit compatibility with the protobuf codec
//! that real clients use.

use flight_sql_gateway::handle::{handle_text, parse_handle_text};
use flight_sql_gateway::ticket::{decode_ticket, encode_ticket, FetchResults};
use prost::Message;

const TYPE_URL: &str = "type.googleapis.com/arrow.flight.protocol.sql.FetchResults";

fn sample_handle_bytes() -> Vec<u8> {
    (0u8..16u8).collect()
}

fn sample_text() -> Vec<u8> {
    handle_text(&sample_handle_bytes())
}

#[test]
fn ticket_round_trip() {
    let text = sample_text();
    let ticket = encode_ticket(&text);
    let back = decode_ticket(&ticket).expect("canonical envelope must decode");
    assert_eq!(back, text);
}

#[test]
fn ticket_matches_prost_encoding() {
    // The envelope must be byte-for-byte what a prost-based peer would
    // produce for Any { type_url, value = FetchResults { handle } }.
    let text = sample_text();
    let ticket = encode_ticket(&text);
    let any = arrow_flight::sql::Any::decode(ticket.as_slice()).expect("prost must parse it");
    assert_eq!(any.type_url, TYPE_URL);
    // The inner record: field 1, length-delimited, the handle text.
    let value = any.value.to_vec();
    assert_eq!(value[0], 0x0a);
    assert_eq!(value[1] as usize, text.len());
    assert_eq!(&value[2..], &text[..]);
    // Re-encoding through prost gives the identical ticket.
    let reencoded = any.encode_to_vec();
    assert_eq!(reencoded, ticket);
}

#[test]
fn decode_rejects_junk() {
    assert!(decode_ticket(&Vec::new()).is_none());
    assert!(decode_ticket(&vec![0u8]).is_none());
    assert!(decode_ticket(&vec![0x0a, 0x00]).is_none());
    assert!(decode_ticket(&(0u8..200u8).collect()).is_none());
    let text = sample_text();
    let mut truncated = encode_ticket(&text);
    truncated.pop();
    assert!(decode_ticket(&truncated).is_none());
}

#[test]
fn decode_rejects_mismatched_type_tag() {
    let text = sample_text();
    let mut ticket = encode_ticket(&text);
    // Corrupt one byte of the embedded type tag.
    ticket[10] ^= 0x01;
    assert!(decode_ticket(&ticket).is_none());
}

#[test]
fn type_url_is_stable() {
    assert_eq!(FetchResults::type_url(), TYPE_URL);
}

#[test]
fn fetch_results_any_bytes_match_codec() {
    let text = sample_text();
    let record = FetchResults { handle: String::from_utf8(text.clone()).unwrap() };
    let bytes = record.to_any_bytes().expect("a handle text fits the envelope");
    assert_eq!(bytes, encode_ticket(&text));
    let empty = FetchResults { handle: String::new() };
    assert!(empty.to_any_bytes().is_none());
}

#[test]
fn handle_text_round_trips() {
    let bytes = sample_handle_bytes();
    let text = handle_text(&bytes);
    assert_eq!(text.len(), 36);
    let parsed = parse_handle_text(&text).expect("canonical text must parse");
    assert_eq!(parsed, bytes);
}

#[test]
fn handle_text_matches_uuid_format() {
    // The text form must be exactly the hyphenated lower-case form that
    // the original identifiers used on the wire.
    let bytes = vec![
        0x67u8, 0xe5, 0x50, 0x44, 0x10, 0xb1, 0x42, 0x6f, 0x92, 0x47, 0xbb, 0x68, 0x0e, 0x5f,
        0xe0, 0xc8,
    ];
    let text = handle_text(&bytes);
    let uuid = uuid::Uuid::from_slice(&bytes).unwrap();
    assert_eq!(String::from_utf8(text.clone()).unwrap(), uuid.to_string());
    assert_eq!(parse_handle_text(&text).unwrap(), bytes);
}

#[test]
fn parse_accepts_upper_case() {
    let bytes = sample_handle_bytes();
    let text = handle_text(&bytes);
    let upper: Vec<u8> = text.iter().map(|c| c.to_ascii_uppercase()).collect();
    assert_eq!(parse_handle_text(&upper).unwrap(), bytes);
}

#[test]
fn parse_rejects_malformed_text() {
    assert!(parse_handle_text(&Vec::new()).is_none());
    assert!(parse_handle_text(&vec![b'a'; 36]).is_none());
    let bytes = sample_handle_bytes();
    let mut no_hyphen = handle_text(&bytes);
    no_hyphen[8] = b'0';
    assert!(parse_handle_text(&no_hyphen).is_none());
    let mut bad_digit = handle_text(&bytes);
    bad_digit[0] = b'g';
    assert!(parse_handle_text(&bad_digit).is_none());
    let mut short = handle_text(&bytes);
    short.pop();
    assert!(parse_handle_text(&short).is_none());
}
