use gulfi::query::{Constraint, ParsingError, Query};

fn exact(s: &str) -> Constraint {
    Constraint::Exact(s.to_string())
}

fn keys(q: &Query) -> Vec<String> {
    q.constraints.as_ref().expect("constraints").keys()
}

#[test]
fn fails_gracefully_on_control_characters() {
    let input = "query: Test, ;\0";
    let result = Query::parse(input);

    assert!(matches!(result, Err(ParsingError::InvalidToken(_))));
}

#[test]
fn only_query() {
    let q = Query::parse("query: Lautaro,").unwrap();
    assert_eq!(q.query, "Lautaro");
    assert!(q.constraints.is_none());
}

#[test]
fn only_with_filters() {
    let q = Query::parse("query: Lautaro, ciudad: Corrientes, provincia: Mendoza").unwrap();
    assert_eq!(q.query, "Lautaro");
    assert_eq!(keys(&q), vec!["ciudad".to_string(), "provincia".to_string()]);
    let c = q.constraints.as_ref().unwrap();
    assert_eq!(c.get("ciudad"), Some(&vec![exact("Corrientes")]));
    assert_eq!(c.get("provincia"), Some(&vec![exact("Mendoza")]));
}

#[test]
fn only_with_restrictions() {
    let q = Query::parse("query: lautaro, edad > 30, edad < 60").unwrap();
    assert_eq!(q.query, "lautaro");
    assert_eq!(keys(&q), vec!["edad".to_string()]);
    let c = q.constraints.as_ref().unwrap();
    assert_eq!(
        c.get("edad"),
        Some(&vec![
            Constraint::GreaterThan("30".to_string()),
            Constraint::LesserThan("60".to_string()),
        ])
    );
}

#[test]
fn with_all_constraints() {
    let q = Query::parse(
        "query: Lautaro, ciudad: Corrientes, provincia: Mendoza, edad > 30, edad < 60",
    )
    .unwrap();
    assert_eq!(q.query, "Lautaro");
    assert_eq!(
        keys(&q),
        vec!["ciudad".to_string(), "edad".to_string(), "provincia".to_string()]
    );
    let c = q.constraints.as_ref().unwrap();
    assert_eq!(c.get("ciudad"), Some(&vec![exact("Corrientes")]));
    assert_eq!(
        c.get("edad"),
        Some(&vec![
            Constraint::GreaterThan("30".to_string()),
            Constraint::LesserThan("60".to_string()),
        ])
    );
    assert_eq!(c.get("provincia"), Some(&vec![exact("Mendoza")]));
}

#[test]
fn fails_without_query_prefix() {
    let result = Query::parse("Lautaro, age > 30");
    assert!(matches!(result, Err(ParsingError::MissingQuery)));
}

#[test]
fn fails_with_empty_query() {
    let result = Query::parse("query: , age > 30");
    assert!(matches!(result, Err(ParsingError::MissingQuery)));
}

#[test]
fn fails_with_no_colon_to_split_query() {
    let result = Query::parse("query Lautaro, age > 30");
    assert!(matches!(result, Err(ParsingError::MissingQuery)));
}

#[test]
fn fails_with_token_missing_value() {
    let result = Query::parse("query: Lautaro, city:");
    assert!(matches!(result, Err(ParsingError::MissingValue(':'))));

    let result = Query::parse("query: Lautaro, edad>");
    assert!(matches!(result, Err(ParsingError::MissingValue('>'))));

    let result = Query::parse("query: Lautaro, edad<");
    assert!(matches!(result, Err(ParsingError::MissingValue('<'))));
}

#[test]
fn fails_with_token_missing_key() {
    let result = Query::parse("query: Lautaro, :Berlin");
    assert!(matches!(result, Err(ParsingError::MissingKey(':'))));

    let result = Query::parse("query: Lautaro, >30");
    assert!(matches!(result, Err(ParsingError::MissingKey('>'))));

    let result = Query::parse("query: Lautaro, <30");
    assert!(matches!(result, Err(ParsingError::MissingKey('<'))));
}

#[test]
fn fails_with_invalid_token() {
    let result = Query::parse("query: Lautaro, city; Corrientes");
    match result {
        Err(ParsingError::InvalidToken(token)) => assert_eq!(token, "city; Corrientes"),
        _ => panic!("Expected InvalidToken error"),
    }
}
