use gulfi::common::{clean_html, normalize, SearchString};
use gulfi::datasources::{
    check_headers, compare_records, sort_names, validate_sql_identifier, DataSources, Document,
    Field, HeaderMismatch, IdentifierError,
};
use gulfi::query::{Constraint, ConstraintMap, ParsingError, Query};
use gulfi::search::{
    build_conditions_owned, build_fts_query, build_query, build_where_clause,
    constrainable_fields, find_document, prepare_search, validate_query_constraints, HttpError,
    SearchStrategy, SqlValue, StreamSearch,
};

fn s(x: &str) -> String {
    x.to_string()
}

fn doc() -> Document {
    Document {
        name: s("tnea"),
        fields: vec![
            Field { name: s("email"), vec_input: false, unique: true },
            Field { name: s("nombre"), vec_input: true, unique: false },
            Field { name: s("edad"), vec_input: false, unique: false },
        ],
    }
}

#[test]
fn normalize_keeps_letters_between_the_ends() {
    assert_eq!(normalize("  ¡Hola Mundo! "), "hola mundo");
    assert_eq!(normalize("123"), "");
    assert_eq!(normalize("Corrientes"), "corrientes");
}

#[test]
fn html_is_sanitised() {
    assert_eq!(clean_html(s("plain text")), "plain text");
    assert_eq!(clean_html(s("<script>alert(1)</script>hola")), "hola");
}

#[test]
fn search_strings() {
    let a = SearchString::parse("Lautaro|Corrientes, Capital");
    assert_eq!(a.query, "lautaro");
    assert_eq!(a.provincia.as_deref(), Some("%corrientes%"));
    assert_eq!(a.ciudad.as_deref(), Some("%capital%"));
    let b = SearchString::parse("Lautaro");
    assert!(b.provincia.is_none() && b.ciudad.is_none());
}

#[test]
fn vec_input_expression() {
    assert_eq!(doc().generate_vec_input(), "'  ' || nombre || '  '");
    let empty = Document { name: s("x"), fields: vec![] };
    assert_eq!(empty.generate_vec_input(), "'  '");
}

#[test]
fn data_sources_by_extension() {
    assert_eq!(DataSources::from_extension("csv").unwrap(), DataSources::Csv);
    assert_eq!(DataSources::from_extension("json").unwrap(), DataSources::Json);
    let e = DataSources::from_extension("xlsx").unwrap_err();
    assert_eq!(e.extension, "xlsx");
}

#[test]
fn sql_identifiers() {
    assert_eq!(validate_sql_identifier("tnea"), Ok(()));
    assert_eq!(validate_sql_identifier(""), Err(IdentifierError::InvalidLength));
    assert_eq!(validate_sql_identifier(&"a".repeat(65)), Err(IdentifierError::InvalidLength));
    assert_eq!(validate_sql_identifier("1abc"), Err(IdentifierError::MustStartWithLetter));
    assert_eq!(validate_sql_identifier("ab-c"), Err(IdentifierError::InvalidCharacters));
    assert_eq!(validate_sql_identifier("table"), Err(IdentifierError::Keyword));
    assert_eq!(IdentifierError::Keyword.message(), "Identifier cannot be an SQL keyword");
}

#[test]
fn headers_are_compared_as_sets() {
    let exp = vec![s("a"), s("b")];
    assert!(check_headers(&vec![s("b"), s("a")], &exp).is_ok());
    match check_headers(&vec![s("a"), s("b"), s("c")], &exp) {
        Err(HeaderMismatch::Unsupported(e)) => assert_eq!(e, vec![s("c")]),
        other => panic!("{other:?}"),
    }
    match check_headers(&vec![s("a")], &exp) {
        Err(HeaderMismatch::Missing(m)) => assert_eq!(m, vec![s("b")]),
        other => panic!("{other:?}"),
    }
    let both = check_headers(&vec![s("z"), s("a")], &exp).unwrap_err();
    assert_eq!(
        both.message(),
        "File doesn't have fields: [\"b\"] but has unsupported fields: [\"z\"]"
    );
}

#[test]
fn records_are_compared_sorted() {
    assert_eq!(sort_names(vec![s("b"), s("a"), s("c"), s("a")]), vec![s("a"), s("a"), s("b"), s("c")]);
    match compare_records(vec![s("y"), s("x")], vec![s("q"), s("p"), s("x")]) {
        Err(HeaderMismatch::MissingAndUnsupported { missing, unsupported }) => {
            assert_eq!(missing, vec![s("y")]);
            assert_eq!(unsupported, vec![s("p"), s("q")]);
        }
        other => panic!("{other:?}"),
    }
    assert!(compare_records(vec![s("b"), s("a")], vec![s("a"), s("b")]).is_ok());
}

#[test]
fn strategies() {
    assert_eq!(SearchStrategy::try_from(s("FTS")).unwrap(), SearchStrategy::Fts);
    assert_eq!(SearchStrategy::try_from(s("semantic_search")).unwrap(), SearchStrategy::Semantic);
    assert_eq!(SearchStrategy::try_from(s("Rrf")).unwrap(), SearchStrategy::ReciprocalRankFusion);
    assert_eq!(SearchStrategy::try_from(s("HKF")).unwrap_err().name, "hkf");
    assert_eq!(SearchStrategy::Semantic.sql_text(), "Semantic");
    assert_eq!(SearchStrategy::from_sql_text("Fts"), Some(SearchStrategy::Fts));
    assert_eq!(SearchStrategy::from_sql_text("fts"), None);
}

#[test]
fn constraint_maps_keep_keys_sorted() {
    let mut m = ConstraintMap::new();
    assert!(m.is_empty());
    m.add(s("edad"), Constraint::GreaterThan(s("30")));
    m.add(s("ciudad"), Constraint::Exact(s("Corrientes")));
    m.add(s("edad"), Constraint::LesserThan(s("60")));
    assert_eq!(m.keys(), vec![s("ciudad"), s("edad")]);
    assert_eq!(m.len(), 2);
    assert_eq!(
        m.get("edad"),
        Some(&vec![Constraint::GreaterThan(s("30")), Constraint::LesserThan(s("60"))])
    );
    assert_eq!(m.get("nada"), None);
}

#[test]
fn query_parts() {
    assert_eq!(Query::extract_query_value("query:  hola ").unwrap(), "hola");
    assert!(matches!(Query::extract_query_value("q: hola"), Err(ParsingError::MissingQuery)));
    assert_eq!(
        Query::parse_single_constraint(" edad < 3").unwrap(),
        (s("edad"), Constraint::LesserThan(s("3")))
    );
    assert!(matches!(Query::parse_single_constraint("edad"), Err(ParsingError::InvalidToken(_))));
    let only = Query::parse("Lautaro").unwrap();
    assert_eq!(only.query, "Lautaro");
    assert!(matches!(Query::parse("   "), Err(ParsingError::EmptyInput)));
    let q = Query::parse("query: Test, a; b").unwrap_err();
    assert!(matches!(q, ParsingError::InvalidToken(t) if t == "a; b"));
}

#[test]
fn constraints_become_sql_conditions() {
    let q = Query::parse("query: lautaro, edad > 30, email: gmail").unwrap();
    let (conds, binds) = build_conditions_owned(q.constraints.as_ref());
    assert_eq!(
        conds,
        vec![s("edad > :edad_0"), s("LOWER(email) like LOWER('%' || :email_0 || '%')")]
    );
    assert_eq!(binds, vec![s("30"), s("gmail")]);
    assert_eq!(build_where_clause(&conds), "where edad > :edad_0 and LOWER(email) like LOWER('%' || :email_0 || '%')");
    assert_eq!(build_where_clause(&vec![]), "");
    assert_eq!(constrainable_fields(&doc()), vec![s("email"), s("edad")]);
    assert!(validate_query_constraints(&doc(), &q).is_ok());
}

#[test]
fn unknown_fields_are_refused() {
    let q = Query::parse("query: x, nombre: y, altura > 2").unwrap();
    match validate_query_constraints(&doc(), &q) {
        Err(HttpError::BadRequest { message, valid_fields, invalid_fields }) => {
            assert_eq!(message, "You are looking for fields that don't exist in the document.");
            assert_eq!(valid_fields, vec![s("email"), s("edad")]);
            assert_eq!(invalid_fields, vec![s("altura"), s("nombre")]);
        }
        other => panic!("{other:?}"),
    }
}

#[test]
fn full_text_sql() {
    let search = StreamSearch {
        document: doc(),
        query: Query::parse("query: lautaro, edad > 30").unwrap(),
        strategy: SearchStrategy::Fts,
        k_neighbors: 5,
    };
    let (sql, values) = build_fts_query(&search);
    assert_eq!(
        sql,
        "select rank as score,email,edad,  highlight(fts_tnea, 0, '<b style=\"color: green;\">', '</b>') as input, 'fts' as match_type from fts_tnea where edad > :edad_0 and vec_input match '\"' || :query || '\"' "
    );
    assert_eq!(values, vec![SqlValue::Text(s("30")), SqlValue::Text(s("lautaro"))]);
    let semantic = StreamSearch { strategy: SearchStrategy::Semantic, ..search };
    assert!(matches!(build_query(&semantic, None), Err(HttpError::Internal { .. })));
}

#[test]
fn documents_are_prepared_for_search() {
    let docs = vec![doc()];
    assert_eq!(find_document(&docs, "TNEA"), Some(0));
    assert_eq!(find_document(&docs, "otro"), None);
    match prepare_search(&docs, "otro", "x", SearchStrategy::Fts, 5) {
        Err(HttpError::MissingDocument { msg }) => assert_eq!(msg, "Document otro not found"),
        _ => panic!("expected a missing document"),
    }
    match prepare_search(&docs, "tnea", ", edad > 3", SearchStrategy::Fts, 5) {
        Err(HttpError::Parsing(ParsingError::MissingQuery)) => {}
        _ => panic!("expected a parsing error"),
    }
    let ok = prepare_search(&docs, "Tnea", "lautaro, edad > 3", SearchStrategy::Fts, 5).unwrap();
    assert_eq!(ok.query.query, "lautaro");
}

#[test]
fn parse_clean_reads_text_as_given() {
    let q = Query::parse_clean("query: Lautaro <b>, edad > 30".to_string()).unwrap();
    assert_eq!(q.query, "Lautaro <b>");
    assert!(q.constraints.is_some());
    assert!(matches!(Query::parse_clean("   ".to_string()), Err(ParsingError::EmptyInput)));
    assert!(matches!(Query::parse_clean("a\u{7}b".to_string()), Err(ParsingError::InvalidToken(_))));
}
