use gulfi::common::SearchString;
use gulfi::query::ParsingError;
use gulfi::responses::BodyValue;
use gulfi::search::{HttpError, SearchStrategy, SqlValue};
use gulfi::tnea::{results_message, tnea_search};
use gulfi::ui::Sexo;

fn text(b: &BodyValue) -> String {
    match b {
        BodyValue::Text(s) => s.clone(),
        BodyValue::List(l) => format!("{l:?}"),
    }
}

#[test]
fn parsing_messages() {
    assert_eq!(ParsingError::MissingQuery.message(), "Search doesn't have 'query' key.");
    assert_eq!(ParsingError::EmptyInput.message(), "Search is empty.");
    assert_eq!(ParsingError::MissingValue(':').message(), "No value after ':'");
    assert_eq!(ParsingError::MissingKey('>').message(), "No value before '>'");
    assert_eq!(ParsingError::InvalidToken("a;b".to_string()).message(), "Invalid token: 'a;b'");
}

#[test]
fn error_answers() {
    let e = HttpError::missing_document("Document x not found".to_string());
    assert_eq!(e.status(), 400);
    assert_eq!(e.message(), "HttpError: Document x not found");
    let f = e.body_fields();
    assert_eq!(f.len(), 1);
    assert_eq!(f[0].0, "msg");
    assert_eq!(text(&f[0].1), "Document x not found");

    let e = HttpError::Internal { err: "boom".to_string() };
    assert_eq!(e.status(), 500);

    let e = HttpError::bad_request("bad".to_string(), vec!["a".to_string()], vec!["z".to_string()]);
    let f = e.body_fields();
    let keys: Vec<&str> = f.iter().map(|x| x.0.as_str()).collect();
    assert_eq!(keys, vec!["err", "type", "valid_fields", "invalid_fields"]);
    assert_eq!(text(&f[1].1), "invalid_fields");
    assert!(matches!(&f[3].1, BodyValue::List(l) if l == &vec!["z".to_string()]));

    let e = HttpError::Parsing(ParsingError::MissingValue('<'));
    let f = e.body_fields();
    let keys: Vec<&str> = f.iter().map(|x| x.0.as_str()).collect();
    assert_eq!(keys, vec!["err", "type", "token"]);
    assert_eq!(text(&f[0].1), "No value after '<'");
    assert_eq!(text(&f[2].1), "<");

    let e = HttpError::Parsing(ParsingError::InvalidToken("t".to_string()));
    assert_eq!(text(&e.body_fields()[1].1), "invalid_token");
    let e = HttpError::Parsing(ParsingError::EmptyInput);
    assert_eq!(e.body_fields().len(), 2);
    let e = HttpError::AuthError { msg: "a".to_string(), err: "b".to_string() };
    assert_eq!(e.message(), "HttpError: ab");
}

#[test]
fn legacy_full_text_search() {
    let s = SearchString::parse("Lautaro|Corrientes");
    let (sql, values) = tnea_search(SearchStrategy::Fts, &s, 18, 30, Sexo::F, &vec![], 5);
    assert!(sql.starts_with("select\n                    rank as score,"));
    assert!(sql.ends_with(
        " and cast(edad as integer) between :edad_min and :edad_max  and provincia like :provincia and sexo = :sexo order by rank"
    ));
    assert_eq!(
        values,
        vec![
            SqlValue::Text("lautaro".to_string()),
            SqlValue::Unsigned(18),
            SqlValue::Unsigned(30),
            SqlValue::Text("%corrientes%".to_string()),
            SqlValue::Text("F".to_string()),
        ]
    );
}

#[test]
fn legacy_fused_search() {
    let s = SearchString::parse("Ana|Salta,Oran");
    let (sql, values) = tnea_search(SearchStrategy::ReciprocalRankFusion, &s, 1, 2, Sexo::U, &vec![9u8], 7);
    assert!(sql.ends_with(
        " and tnea.provincia like :provincia and tnea.ciudad like :ciudad order by combined_rank desc ) \n                    select * from final;"
    ));
    assert_eq!(values.len(), 10);
    assert_eq!(values[0], SqlValue::Blob(vec![9u8]));
    assert_eq!(values[1], SqlValue::Unsigned(7));
    assert_eq!(values[3], SqlValue::Integer(60));
    assert_eq!(values[4], SqlValue::FtsWeight);
    assert_eq!(values[9], SqlValue::Text("%oran%".to_string()));
}

#[test]
fn legacy_semantic_search() {
    let s = SearchString::parse("Ana");
    let (sql, values) = tnea_search(SearchStrategy::Semantic, &s, 1, 2, Sexo::U, &vec![1u8, 2], 7);
    assert!(sql.ends_with(" and cast(edad as integer) between :edad_min and :edad_max "));
    assert_eq!(values, vec![SqlValue::Blob(vec![1u8, 2]), SqlValue::Unsigned(1), SqlValue::Unsigned(2)]);
}

#[test]
fn result_messages() {
    assert_eq!(results_message(42), "Hay un total de 42 resultados.");
}
