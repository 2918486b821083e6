use gulfi::datasources::{Document, Field};
use gulfi::ingest::{
    base_data_statement, chunk_count, csv_params, embedding_insert_statement,
    fts_fill_statement, fts_maintenance_statements, index_statement, insert_statement,
    json_field_param, json_params, setup_statement, vec_inputs_query, JsonValue, csv_file_rows,
    json_file_rows, IngestError,
};
use gulfi::datasources::HeaderMismatch;

fn field(name: &str, vec_input: bool, unique: bool) -> Field {
    Field { name: name.to_string(), vec_input, unique }
}

fn doc() -> Document {
    Document {
        name: "tnea".to_string(),
        fields: vec![
            field("email", false, true),
            field("nombre", true, false),
            field("edad", false, false),
        ],
    }
}

#[test]
fn insert_statement_has_one_placeholder_per_field() {
    assert_eq!(
        insert_statement(&doc()),
        "INSERT INTO tnea_raw (email, nombre, edad) VALUES (?, ?, ?)"
    );
}

#[test]
fn setup_statement_declares_the_tables() {
    let s = setup_statement(&doc());
    assert!(s.contains("create table if not exists tnea_raw(\n                id integer primary key,\n                email text unique on conflict ignore, nombre text, edad text\n            );"));
    assert!(s.contains("create table if not exists tnea(\n                id integer primary key,\n                email text unique on conflict ignore, edad text,\n                vec_input text\n            );"));
    assert!(s.contains("create virtual table if not exists fts_tnea using fts5(\n                vec_input, email, edad,\n                content='tnea',"));
    assert!(s.contains("vec_input_embedding float[1536]"));
}

#[test]
fn base_data_statement_builds_the_searchable_text() {
    assert_eq!(
        base_data_statement(&doc()),
        "insert or ignore into tnea (email, edad, vec_input)\n        select email, edad, '  ' || nombre || '  ' as vec_input from tnea_raw; "
    );
}

#[test]
fn fts_statements() {
    assert_eq!(
        fts_fill_statement(&doc()),
        "\n            insert into fts_tnea(rowid, email, edad, vec_input)\n            select rowid, email, edad, vec_input \n            from tnea;"
    );
    assert_eq!(
        fts_maintenance_statements("tnea"),
        vec![
            "insert into fts_tnea(fts_tnea) values('rebuild')".to_string(),
            "insert into fts_tnea(fts_tnea) values('optimize')".to_string(),
        ]
    );
}

#[test]
fn index_and_vector_statements() {
    assert_eq!(
        index_statement("tnea"),
        "CREATE INDEX IF NOT EXISTS idx_tnea_vec_input ON tnea(vec_input) WHERE length(vec_input) > 0"
    );
    assert_eq!(vec_inputs_query("tnea"), "select id, vec_input from tnea");
    assert_eq!(
        embedding_insert_statement("tnea"),
        "insert into vec_tnea(row_id, vec_input_embedding) values (?,?)"
    );
}

#[test]
fn csv_params_pad_short_records() {
    let record = vec!["a@b.c".to_string(), "Ana".to_string()];
    assert_eq!(csv_params(&record, 3), vec!["a@b.c".to_string(), "Ana".to_string(), String::new()]);
    let long = vec!["1".to_string(), "2".to_string(), "3".to_string()];
    assert_eq!(csv_params(&long, 2), vec!["1".to_string(), "2".to_string()]);
}

#[test]
fn json_values_are_bound_as_text() {
    let record = vec![
        ("email".to_string(), JsonValue::Text("a@b.c".to_string())),
        ("edad".to_string(), JsonValue::Number("42".to_string())),
        ("activo".to_string(), JsonValue::Bool(true)),
        ("nota".to_string(), JsonValue::Null),
        ("tags".to_string(), JsonValue::Nested("[\"x\"]".to_string())),
    ];
    assert_eq!(json_field_param(&record, &"email".to_string()), Some("a@b.c".to_string()));
    assert_eq!(json_field_param(&record, &"edad".to_string()), Some("42".to_string()));
    assert_eq!(json_field_param(&record, &"activo".to_string()), Some("true".to_string()));
    assert_eq!(json_field_param(&record, &"nota".to_string()), Some(String::new()));
    assert_eq!(json_field_param(&record, &"tags".to_string()), Some("[\"x\"]".to_string()));
    assert_eq!(json_field_param(&record, &"missing".to_string()), None);
    let params = json_params(&record, &doc().fields);
    assert_eq!(params, vec![Some("a@b.c".to_string()), None, Some("42".to_string())]);
}

#[test]
fn chunks_round_up() {
    assert_eq!(chunk_count(0, 10), 0);
    assert_eq!(chunk_count(10, 10), 1);
    assert_eq!(chunk_count(11, 10), 2);
    assert_eq!(chunk_count(3, 1024), 1);
}

#[test]
fn csv_files_give_one_row_per_record() {
    let bytes = b"nombre, email ,edad\nAna, a@b.c, 30\n\"Luis, Jr\",l@x.y\n";
    let rows = csv_file_rows(bytes, &doc()).unwrap();
    // Values are taken by position, the headers only checked as a set.
    assert_eq!(
        rows,
        vec![
            vec!["Ana".to_string(), "a@b.c".to_string(), "30".to_string()],
            vec!["Luis, Jr".to_string(), "l@x.y".to_string(), String::new()],
        ]
    );
    match csv_file_rows(b"email,nombre,extra\n1,2,3\n", &doc()) {
        Err(IngestError::Headers(HeaderMismatch::MissingAndUnsupported { missing, unsupported })) => {
            assert_eq!(missing, vec!["edad".to_string()]);
            assert_eq!(unsupported, vec!["extra".to_string()]);
        }
        other => panic!("unexpected {other:?}"),
    }
    assert!(csv_file_rows(b"email,nombre,edad\n\xff\xfe,1,2\n", &doc()).is_err());
}

#[test]
fn json_files_give_one_row_per_record() {
    let text = r#"[{"edad": 30, "email": "a@b.c", "nombre": "Ana"}, {"email": null, "nombre": ["x"]}, 7]"#;
    let rows = json_file_rows(text, &doc().fields).unwrap();
    assert_eq!(
        rows,
        vec![
            vec![Some("a@b.c".to_string()), Some("Ana".to_string()), Some("30".to_string())],
            vec![Some(String::new()), Some("[\"x\"]".to_string()), None],
            vec![None, None, None],
        ]
    );
    match json_file_rows(r#"[{"email": "x"}]"#, &doc().fields) {
        Err(e @ IngestError::Headers(HeaderMismatch::Missing(_))) => {
            assert_eq!(e.message(), "File has missing fields: [\"edad\", \"nombre\"]");
        }
        other => panic!("unexpected {other:?}"),
    }
    assert!(matches!(json_file_rows("not json", &doc().fields), Err(IngestError::Json(_))));
    assert_eq!(json_file_rows("[]", &vec![]).unwrap().len(), 0);
}
