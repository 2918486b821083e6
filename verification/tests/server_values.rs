use gulfi::favorites::{
    client_view, favorite_from_row, favorite_name, favorites_for_client, favorite_record,
    join_comma, pair_searches, Busquedas, FavParams,
};
use gulfi::query::ParsingError;
use gulfi::search::SearchStrategy;
use gulfi::server::{
    age_from_json, cache_fill, cache_lookup, needs_embedding, text_or_empty, uri_query_text,
    AgeError, CacheError, CacheResult, Environment, GulfiTimer, Historial, HistorialView, RowBatcher,
    Table,
};
use gulfi::ingest::JsonValue;
use gulfi::ui::{Favoritos, Resultados, Sexo, Timestamp, day_text, timestamp_from_db};

#[test]
fn environment_names() {
    assert_eq!(Environment::Local.as_str(), "local");
    assert_eq!(Environment::Production.as_str(), "production");
    assert_eq!(Environment::try_from("LOCAL".to_string()).unwrap(), Environment::Local);
    assert_eq!(Environment::try_from("Production".to_string()).unwrap(), Environment::Production);
    let err = Environment::try_from("Staging".to_string()).unwrap_err();
    assert_eq!(err.name, "staging");
    assert_eq!(
        err.message(),
        "staging is not a supported environment. Use either 'local' or 'production'"
    );
}

#[test]
fn history_entries_keep_their_fields() {
    let h = HistorialView::new(7, "lautaro".to_string());
    assert_eq!((h.id, h.query.as_str()), (7, "lautaro"));
    let h = Historial::new(8, "ana".to_string());
    assert_eq!((h.id, h.query.as_str()), (8, "ana"));
}

#[test]
fn default_table_says_nothing_was_found() {
    let t = Table::default();
    assert_eq!(t.msg, "No se encontraron ningun registro.");
    assert!(t.columns.is_empty() && t.rows.is_empty());
}

#[test]
fn cache_results() {
    assert_eq!(CacheResult::Hit(1).into_inner(), Some(1));
    assert_eq!(CacheResult::Miss(2).into_inner(), Some(2));
    assert_eq!(CacheResult::<i32>::Skip.into_inner(), None);
    assert!(CacheResult::Hit(1).is_hit());
    assert!(!CacheResult::Miss(1).is_hit());
    assert!(!CacheResult::<i32>::Skip.is_hit());
}

#[test]
fn cache_lookup_skips_full_text_searches() {
    assert!(!needs_embedding(SearchStrategy::Fts));
    assert!(needs_embedding(SearchStrategy::Semantic));
    assert_eq!(cache_lookup(SearchStrategy::Fts, Some(5)), Some(CacheResult::Skip));
    assert_eq!(cache_lookup(SearchStrategy::Semantic, Some(5)), Some(CacheResult::Hit(5)));
    assert_eq!(cache_lookup::<i32>(SearchStrategy::ReciprocalRankFusion, None), None);
    assert_eq!(cache_fill::<i32>(Ok(3)), Ok(CacheResult::Miss(3)));
    assert_eq!(
        cache_fill::<i32>(Err("boom".to_string())),
        Err(CacheError::EmbeddingError("boom".to_string()))
    );
    assert_eq!(
        CacheError::EmbeddingError("boom".to_string()).message(),
        "Embedding generation failed: boom"
    );
    assert_eq!(CacheError::CacheError("x".to_string()).message(), "Cache operation failed: x");
}

#[test]
fn timer_is_a_unit() {
    assert_eq!(GulfiTimer::new(), GulfiTimer);
    assert_eq!(GulfiTimer::default(), GulfiTimer);
}

#[test]
fn sexo_texts() {
    assert_eq!(Sexo::default(), Sexo::U);
    assert_eq!(Sexo::F.sql_text(), "F");
    assert_eq!(Sexo::U.sql_text(), "U");
    assert_eq!(Sexo::from_sql_text("M"), Sexo::M);
    assert_eq!(Sexo::from_sql_text("x"), Sexo::U);
    assert_eq!(Sexo::U.display_text(), "No definido");
}

#[test]
fn db_timestamps_and_days() {
    let t = timestamp_from_db("2024-03-05 14:07:09");
    assert_eq!(t, Timestamp { year: 2024, month: 3, day: 5, hour: 14, minute: 7, second: 9 });
    assert_eq!(day_text(&t), "Mar 05, 2024");
    let d = timestamp_from_db("not a date");
    assert_eq!(d, Timestamp { year: 1970, month: 1, day: 1, hour: 0, minute: 0, second: 0 });
}

#[test]
fn favourites_pair_searches_with_strategies() {
    let f = Resultados::new(
        1,
        "mi_busqueda".to_string(),
        "a, b".to_string(),
        vec!["fts".to_string(), "rrf".to_string()],
        Timestamp { year: 2024, month: 12, day: 25, hour: 9, minute: 30, second: 0 },
        vec!["lautaro".to_string(), "ana".to_string(), "sobra".to_string()],
    );
    assert_eq!(f.fecha, "Dec 25, 2024");
    let c = client_view(&f);
    assert_eq!(
        c.busquedas,
        vec![
            ("lautaro".to_string(), "fts".to_string()),
            ("ana".to_string(), "rrf".to_string()),
        ]
    );
    let all = favorites_for_client(&Favoritos { favoritos: vec![f] });
    assert_eq!(all.favoritos.len(), 1);
    assert_eq!(all.favoritos[0].nombre, "mi_busqueda");
    assert!(pair_searches(&vec![], &vec!["x".to_string()]).is_empty());
}

#[test]
fn favourite_requests_are_normalised() {
    assert_eq!(favorite_name("mi  busqueda\tfavorita"), "mi__busqueda_favorita");
    assert_eq!(join_comma(&vec!["a".to_string(), "b".to_string(), "c".to_string()]), "a, b, c");
    assert_eq!(join_comma(&vec![]), "");
    let p = FavParams {
        nombre: "mi busqueda".to_string(),
        data: vec!["x".to_string(), "y".to_string()],
        busquedas: vec![
            Busquedas { query: "Lautaro, edad > 30".to_string(), strategy: "fts".to_string() },
            Busquedas { query: "Ana".to_string(), strategy: "rrf".to_string() },
        ],
    };
    let r = favorite_record(&p).unwrap();
    assert_eq!(r.nombre, "mi_busqueda");
    assert_eq!(r.data, "x, y");
    assert_eq!(r.busquedas, "[\"Lautaro\",\"Ana\"]");
    assert_eq!(r.tipos, "[\"fts\",\"rrf\"]");
    let bad = FavParams {
        nombre: "n".to_string(),
        data: vec![],
        busquedas: vec![Busquedas { query: "x, :y".to_string(), strategy: "fts".to_string() }],
    };
    assert!(matches!(favorite_record(&bad), Err(ParsingError::MissingKey(':'))));
}

#[test]
fn stored_favourites_are_read_back() {
    let f = favorite_from_row(
        3,
        "n".to_string(),
        "d".to_string(),
        "2024-01-02 03:04:05",
        "[\"a\",\"b\"]",
        "[\"fts\"]",
    )
    .unwrap();
    assert_eq!(f.fecha, "Jan 02, 2024 03:04");
    assert_eq!(f.busquedas, vec![("a".to_string(), "fts".to_string())]);
    assert!(favorite_from_row(3, "n".to_string(), "d".to_string(), "", "oops", "[]").is_none());
}

#[test]
fn ages_from_json() {
    assert_eq!(age_from_json(&JsonValue::Null), Ok(0));
    assert_eq!(age_from_json(&JsonValue::Text(String::new())), Ok(0));
    assert_eq!(age_from_json(&JsonValue::Text("42".to_string())), Ok(42));
    assert_eq!(age_from_json(&JsonValue::Text("+7".to_string())), Ok(7));
    assert_eq!(age_from_json(&JsonValue::Text("4a".to_string())), Err(AgeError::InvalidDigit));
    assert_eq!(age_from_json(&JsonValue::Text("+".to_string())), Err(AgeError::InvalidDigit));
    assert_eq!(
        age_from_json(&JsonValue::Text("99999999999999999999999".to_string())),
        Err(AgeError::TooLarge)
    );
    assert_eq!(age_from_json(&JsonValue::Number("30".to_string())), Ok(30));
    assert_eq!(age_from_json(&JsonValue::Number("-1".to_string())), Err(AgeError::InvalidNumberFormat));
    assert_eq!(age_from_json(&JsonValue::Bool(true)), Err(AgeError::ExpectedStringOrNumber));
    assert_eq!(AgeError::InvalidNumberFormat.message(), "Invalid number format");
    assert_eq!(text_or_empty(None), "");
    assert_eq!(text_or_empty(Some("x".to_string())), "x");
}

#[test]
fn uri_queries() {
    assert_eq!(uri_query_text(Some("a=1&b=2")), "a=1&b=2");
    assert_eq!(uri_query_text(None), "");
}

#[test]
fn stored_texts_read_back() {
    for s in [SearchStrategy::Fts, SearchStrategy::Semantic, SearchStrategy::ReciprocalRankFusion] {
        assert_eq!(SearchStrategy::from_sql_text(s.sql_text()), Some(s));
    }
    assert_eq!(SearchStrategy::from_sql_text("fts"), None);
    for s in [Sexo::F, Sexo::M, Sexo::U] {
        assert_eq!(Sexo::from_sql_text(s.sql_text()), s);
    }
    assert_eq!(Sexo::from_sql_text("X"), Sexo::U);
}

#[test]
fn saved_favourite_reads_back_its_searches() {
    let p = FavParams {
        nombre: "con \"comillas\"".to_string(),
        data: vec!["x".to_string()],
        busquedas: vec![
            Busquedas { query: "Ana \\ \"B\"".to_string(), strategy: "semantic_search".to_string() },
            Busquedas { query: "Luis".to_string(), strategy: "rrf".to_string() },
        ],
    };
    let r = favorite_record(&p).unwrap();
    let f = favorite_from_row(1, r.nombre, r.data, "2024-01-02 03:04:05", &r.busquedas, &r.tipos).unwrap();
    assert_eq!(
        f.busquedas,
        vec![
            ("Ana \\ \"B\"".to_string(), "semantic_search".to_string()),
            ("Luis".to_string(), "rrf".to_string()),
        ]
    );
}

#[test]
fn batches_keep_every_row_in_order() {
    let mut b = RowBatcher::new(2);
    let mut sent: Vec<Vec<Vec<String>>> = Vec::new();
    for i in 0..5 {
        if let Some(batch) = b.push(vec![i.to_string()]) {
            sent.push(batch);
        }
    }
    assert_eq!(sent.len(), 2);
    assert!(sent.iter().all(|batch| batch.len() == 2));
    if let Some(rest) = b.finish() {
        sent.push(rest);
    }
    let all: Vec<String> = sent.into_iter().flatten().flatten().collect();
    assert_eq!(all, vec!["0", "1", "2", "3", "4"]);
    assert!(RowBatcher::new(3).finish().is_none());
}

#[test]
fn favourite_lists_are_escaped_as_json() {
    let p = FavParams {
        nombre: "n".to_string(),
        data: vec![],
        busquedas: vec![Busquedas { query: "Ana".to_string(), strategy: "a\"b\\c\u{1}\té".to_string() }],
    };
    let r = favorite_record(&p).unwrap();
    assert_eq!(r.tipos, "[\"a\\\"b\\\\c\\u0001\\té\"]");
    let empty = FavParams { nombre: "n".to_string(), data: vec![], busquedas: vec![] };
    assert_eq!(favorite_record(&empty).unwrap().busquedas, "[]");
}

#[test]
fn days_write_years_as_chrono_does() {
    let t = |year: i32| Timestamp { year, month: 1, day: 2, hour: 3, minute: 4, second: 5 };
    assert_eq!(day_text(&t(5)), "Jan 02, 0005");
    assert_eq!(day_text(&t(10000)), "Jan 02, +10000");
    assert_eq!(day_text(&t(-5)), "Jan 02, -0005");
    assert_eq!(day_text(&Timestamp { year: 2023, month: 9, day: 30, hour: 0, minute: 0, second: 0 }), "Sep 30, 2023");
}
