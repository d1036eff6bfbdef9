//! First-match-wins interception over compiled pattern sets, driven by
//! the real regex engine.

use flight_sql_gateway::federated::{FederatedHelper, FederatedRule, LazyBlock, LazyOutcome};
use flight_sql_gateway::schema::{Column, ColumnType, Schema};

fn version_schema() -> Schema {
    Schema {
        columns: vec![
            Column {
                name: "version".to_string(),
                column_type: ColumnType::Utf8,
                nullable: false,
            },
        ],
    }
}

fn rules() -> Vec<FederatedRule<&'static str>> {
    vec![
        FederatedRule {
            pattern: "(?i)^SELECT @@version".to_string(),
            result: Some((version_schema(), "8.0-gateway")),
        },
        FederatedRule { pattern: "(?i)^SET ".to_string(), result: None },
        FederatedRule {
            pattern: "(?i)version".to_string(),
            result: Some((version_schema(), "shadowed")),
        },
    ]
}

#[test]
fn first_matching_rule_wins() {
    // The query matches both the first and the third rule; the first one
    // is returned.
    let rules = rules();
    let matched = FederatedHelper::block_match_rule("SELECT @@version limit 1", &rules)
        .expect("patterns compile")
        .expect("a rule matches");
    assert_eq!(matched.pattern, "(?i)^SELECT @@version");
    let (schema, data) = matched.result.as_ref().unwrap();
    assert_eq!(schema.columns[0].name, "version");
    assert_eq!(*data, "8.0-gateway");
}

#[test]
fn rule_without_data_is_an_empty_answer() {
    let rules = rules();
    let matched = FederatedHelper::block_match_rule("set names utf8", &rules)
        .expect("patterns compile")
        .expect("the second rule matches");
    assert!(matched.result.is_none());
}

#[test]
fn no_rule_matches() {
    let rules = rules();
    let matched =
        FederatedHelper::block_match_rule("SELECT 1", &rules).expect("patterns compile");
    assert!(matched.is_none());
}

#[test]
fn invalid_pattern_is_reported() {
    let rules = vec![FederatedRule::<u8> { pattern: "(".to_string(), result: None }];
    let err = match FederatedHelper::block_match_rule("anything", &rules) {
        Err(e) => e,
        Ok(_) => panic!("an invalid pattern must be refused"),
    };
    assert!(!err.message.is_empty());
}

struct EchoRule;

impl LazyBlock<String> for EchoRule {
    fn compute(&self, query: &str) -> Option<(Schema, String)> {
        Some((version_schema(), query.to_uppercase()))
    }
}

struct SilentRule;

impl LazyBlock<String> for SilentRule {
    fn compute(&self, _query: &str) -> Option<(Schema, String)> {
        None
    }
}

enum AnyRule {
    Echo(EchoRule),
    Silent(SilentRule),
}

impl LazyBlock<String> for AnyRule {
    fn compute(&self, query: &str) -> Option<(Schema, String)> {
        match self {
            AnyRule::Echo(r) => r.compute(query),
            AnyRule::Silent(r) => r.compute(query),
        }
    }
}

fn lazy_answer(query: &str, rules: &Vec<(String, AnyRule)>) -> LazyOutcome<String> {
    match FederatedHelper::lazy_block_match_rule(query, rules).unwrap() {
        Some(rule) => FederatedHelper::apply_lazy_rule(query, rule),
        None => LazyOutcome::NoMatch,
    }
}

#[test]
fn lazy_rule_computes_from_query() {
    let rules = vec![
        ("^silent".to_string(), AnyRule::Silent(SilentRule)),
        ("^select".to_string(), AnyRule::Echo(EchoRule)),
    ];
    match lazy_answer("select x", &rules) {
        LazyOutcome::Data(schema, text) => {
            assert_eq!(schema.columns[0].name, "version");
            assert_eq!(text, "SELECT X");
        },
        _ => panic!("the echo rule should have produced data"),
    }
    assert!(matches!(lazy_answer("silent probe", &rules), LazyOutcome::EmptyResult));
    assert!(matches!(lazy_answer("other", &rules), LazyOutcome::NoMatch));
}

#[test]
fn lazy_match_returns_first_matching_rule() {
    let rules = vec![
        ("^select".to_string(), AnyRule::Silent(SilentRule)),
        ("select".to_string(), AnyRule::Echo(EchoRule)),
    ];
    let matched = FederatedHelper::lazy_block_match_rule("select x", &rules)
        .unwrap()
        .expect("both patterns match");
    assert_eq!(matched.0, "^select");
}
