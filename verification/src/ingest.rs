//! The SQL that loads a document into the database: the tables it is
//! kept in, the statement that inserts the rows read from its files, the
//! statements that fill its full-text and embedding tables, and the values
//! bound for each row.

use vstd::prelude::*;
use crate::datasources::{
    check_headers, headers_match, plain_field_names, sorted_names, spec_headers_result,
    spec_vec_input_expr, vec_input_names, views, Document, Field, HeaderMismatch,
};
use crate::favorites::{join_comma, joined};
use crate::search::{append_str, constrainable_fields};
use crate::text::{contains_seq, occurs_at};

verus! {

// ---------------------------------------------------------------------
// Columns
// ---------------------------------------------------------------------

/// The column of a field: its name and type, unique fields ignoring
/// duplicate rows.
pub open spec fn column_def(f: Field) -> Seq<char> {
    if f.unique {
        f.name@ + " text unique on conflict ignore"@
    } else {
        f.name@ + " text"@
    }
}

/// The columns of all of `fields`, in order.
pub open spec fn column_defs(fields: Seq<Field>) -> Seq<Seq<char>> {
    fields.map_values(|f: Field| column_def(f))
}

/// The columns of the fields that are not searchable, in order.
pub open spec fn plain_column_defs(fields: Seq<Field>) -> Seq<Seq<char>>
    decreases fields.len(),
{
    if fields.len() == 0 {
        seq![]
    } else {
        let rest = plain_column_defs(fields.drop_last());
        if !fields.last().vec_input {
            rest.push(column_def(fields.last()))
        } else {
            rest
        }
    }
}

/// The names of all of `fields`, in order.
pub open spec fn field_names(fields: Seq<Field>) -> Seq<Seq<char>> {
    fields.map_values(|f: Field| f.name@)
}

/// The column of `f`.
fn column_definition(f: &Field) -> (r: String)
    ensures
        r@ == column_def(*f),
{
    let mut r = String::from_str(f.name.as_str());
    if f.unique {
        append_str(&mut r, " text unique on conflict ignore");
    } else {
        append_str(&mut r, " text");
    }
    r
}

/// The columns of `fields`: all of them, or only those that are not
/// searchable.
fn column_definitions(fields: &Vec<Field>, only_plain: bool) -> (r: Vec<String>)
    ensures
        only_plain ==> views(r@) == plain_column_defs(fields@),
        !only_plain ==> views(r@) == column_defs(fields@),
{
    let mut r: Vec<String> = Vec::new();
    let mut i: usize = 0;
    while i < fields.len()
        invariant
            i <= fields@.len(),
            only_plain ==> views(r@) == plain_column_defs(fields@.take(i as int)),
            !only_plain ==> views(r@) == column_defs(fields@.take(i as int)),
        decreases fields@.len() - i,
    {
        proof {
            assert(fields@.take(i + 1).drop_last() =~= fields@.take(i as int));
            assert(fields@.take(i + 1).last() == fields@[i as int]);
        }
        let ghost old_r = r@;
        if !only_plain || !fields[i].vec_input {
            r.push(column_definition(&fields[i]));
            assert(views(r@) =~= views(old_r).push(column_def(fields@[i as int])));
        }
        assert(!only_plain ==> views(r@) =~= column_defs(fields@.take(i + 1)));
        i = i + 1;
    }
    assert(fields@.take(fields@.len() as int) =~= fields@);
    r
}

/// The names of `fields`, in order.
fn names_of(fields: &Vec<Field>) -> (r: Vec<String>)
    ensures
        views(r@) == field_names(fields@),
{
    let mut r: Vec<String> = Vec::new();
    let mut i: usize = 0;
    while i < fields.len()
        invariant
            i <= fields@.len(),
            views(r@) =~= field_names(fields@.take(i as int)),
        decreases fields@.len() - i,
    {
        r.push(String::from_str(fields[i].name.as_str()));
        assert(field_names(fields@.take(i + 1)) =~= field_names(fields@.take(i as int)).push(
            fields@[i as int].name@,
        ));
        i = i + 1;
    }
    assert(fields@.take(fields@.len() as int) =~= fields@);
    r
}

// ---------------------------------------------------------------------
// Statements
// ---------------------------------------------------------------------

/// The tables of a document: the raw rows as read, the rows with their
/// searchable text, the full-text index and the embedding table.
pub open spec fn spec_setup_statement(d: Document) -> Seq<char> {
    let doc = d.name;
    let raw = joined(column_defs(d.fields@), ", "@);
    let plain = joined(plain_column_defs(d.fields@), ", "@);
    let names = joined(plain_field_names(d.fields@), ", "@);
    "\n            create table if not exists "@ + doc@ + "_raw(\n                id integer primary key,\n                "@ + raw + "\n            );\n\n            create table if not exists "@ + doc@ + "(\n                id integer primary key,\n                "@ + plain + ",\n                vec_input text\n            );\n\n            create virtual table if not exists fts_"@ + doc@ + " using fts5(\n                vec_input, "@ + names + ",\n                content='"@ + doc@ + "',\n                content_rowid='id', \n                prefix='2 3 4',\n                tokenize='unicode61 remove_diacritics 1'\n            );\n\n            create virtual table if not exists vec_"@ + doc@ + " using vec0(\n                row_id integer primary key,\n                vec_input_embedding float[1536]\n            );\n            "@
}

/// The full-text index of every document is declared with the
/// `unicode61` tokenizer with diacritics removed, so that searched text
/// matches whatever its accents (`Jose` finds `José`).
pub proof fn lemma_fts_ignores_diacritics(d: Document)
    ensures
        contains_seq(spec_setup_statement(d), "tokenize='unicode61 remove_diacritics 1'"@),
{
    let s = spec_setup_statement(d);
    let lit = "',\n                content_rowid='id', \n                prefix='2 3 4',\n                tokenize='unicode61 remove_diacritics 1'\n            );\n\n            create virtual table if not exists vec_"@;
    let tail = " using vec0(\n                row_id integer primary key,\n                vec_input_embedding float[1536]\n            );\n            "@;
    let p = "tokenize='unicode61 remove_diacritics 1'"@;
    reveal_strlit("',\n                content_rowid='id', \n                prefix='2 3 4',\n                tokenize='unicode61 remove_diacritics 1'\n            );\n\n            create virtual table if not exists vec_");
    reveal_strlit("tokenize='unicode61 remove_diacritics 1'");
    let i = s.len() - tail.len() - d.name@.len() - lit.len() + 88;
    assert(lit.subrange(88, 88 + p.len() as int) =~= p);
    assert(s.subrange(i, i + p.len()) =~= p);
    assert(occurs_at(s, p, i));
}

/// The statement that creates the tables of `document`.
pub fn setup_statement(document: &Document) -> (r: String)
    ensures
        r@ == spec_setup_statement(*document),
{
    let doc = &document.name;
    let raw = join_comma(&column_definitions(&document.fields, false));
    let plain = join_comma(&column_definitions(&document.fields, true));
    let names = join_comma(&constrainable_fields(document));
    let mut r = String::new();
    append_str(&mut r, "\n            create table if not exists ");
append_str(&mut r, doc.as_str());
append_str(&mut r, "_raw(\n                id integer primary key,\n                ");
append_str(&mut r, raw.as_str());
append_str(&mut r, "\n            );\n\n            create table if not exists ");
append_str(&mut r, doc.as_str());
append_str(&mut r, "(\n                id integer primary key,\n                ");
append_str(&mut r, plain.as_str());
append_str(&mut r, ",\n                vec_input text\n            );\n\n            create virtual table if not exists fts_");
append_str(&mut r, doc.as_str());
append_str(&mut r, " using fts5(\n                vec_input, ");
append_str(&mut r, names.as_str());
append_str(&mut r, ",\n                content='");
append_str(&mut r, doc.as_str());
append_str(&mut r, "',\n                content_rowid='id', \n                prefix='2 3 4',\n                tokenize='unicode61 remove_diacritics 1'\n            );\n\n            create virtual table if not exists vec_");
append_str(&mut r, doc.as_str());
append_str(&mut r, " using vec0(\n                row_id integer primary key,\n                vec_input_embedding float[1536]\n            );\n            ");
    r
}

/// The statement that copies the raw rows of a document into its table,
/// building the searchable text of each row.
pub open spec fn spec_base_data_statement(d: Document) -> Seq<char> {
    let doc = d.name;
    let names = joined(plain_field_names(d.fields@), ", "@);
    let expr = spec_vec_input_expr(vec_input_names(d.fields@));
    "insert or ignore into "@ + doc@ + " ("@ + names + ", vec_input)\n        select "@ + names + ", "@ + expr + " as vec_input from "@ + doc@ + "_raw; "@
}

/// The statement that fills the table of `document` from its raw rows.
pub fn base_data_statement(document: &Document) -> (r: String)
    ensures
        r@ == spec_base_data_statement(*document),
{
    let doc = &document.name;
    let names = join_comma(&constrainable_fields(document));
    let expr = document.generate_vec_input();
    let mut r = String::new();
    append_str(&mut r, "insert or ignore into ");
append_str(&mut r, doc.as_str());
append_str(&mut r, " (");
append_str(&mut r, names.as_str());
append_str(&mut r, ", vec_input)\n        select ");
append_str(&mut r, names.as_str());
append_str(&mut r, ", ");
append_str(&mut r, expr.as_str());
append_str(&mut r, " as vec_input from ");
append_str(&mut r, doc.as_str());
append_str(&mut r, "_raw; ");
    r
}

/// The statement that fills the full-text index of a document.
pub open spec fn spec_fts_fill_statement(d: Document) -> Seq<char> {
    let doc = d.name;
    let names = joined(plain_field_names(d.fields@), ", "@);
    "\n            insert into fts_"@ + doc@ + "(rowid, "@ + names + ", vec_input)\n            select rowid, "@ + names + ", vec_input \n            from "@ + doc@ + ";"@
}

/// The statement that fills the full-text index of `document`.
pub fn fts_fill_statement(document: &Document) -> (r: String)
    ensures
        r@ == spec_fts_fill_statement(*document),
{
    let doc = &document.name;
    let names = join_comma(&constrainable_fields(document));
    let mut r = String::new();
    append_str(&mut r, "\n            insert into fts_");
append_str(&mut r, doc.as_str());
append_str(&mut r, "(rowid, ");
append_str(&mut r, names.as_str());
append_str(&mut r, ", vec_input)\n            select rowid, ");
append_str(&mut r, names.as_str());
append_str(&mut r, ", vec_input \n            from ");
append_str(&mut r, doc.as_str());
append_str(&mut r, ";");
    r
}

/// The statement that indexes the searchable text of a document.
pub open spec fn spec_index_statement(doc: Seq<char>) -> Seq<char> {
    "CREATE INDEX IF NOT EXISTS idx_"@ + doc + "_vec_input ON "@ + doc
        + "(vec_input) WHERE length(vec_input) > 0"@
}

/// The statement that indexes the searchable text of the document `doc`.
pub fn index_statement(doc: &str) -> (r: String)
    ensures
        r@ == spec_index_statement(doc@),
{
    let mut r = String::new();
    append_str(&mut r, "CREATE INDEX IF NOT EXISTS idx_");
    append_str(&mut r, doc);
    append_str(&mut r, "_vec_input ON ");
    append_str(&mut r, doc);
    append_str(&mut r, "(vec_input) WHERE length(vec_input) > 0");
    r
}

/// The statements run after the full-text index is filled: it is rebuilt
/// and then optimised.
pub open spec fn spec_fts_maintenance(doc: Seq<char>) -> Seq<Seq<char>> {
    seq![
        "insert into fts_"@ + doc + "(fts_"@ + doc + ") values('rebuild')"@,
        "insert into fts_"@ + doc + "(fts_"@ + doc + ") values('optimize')"@,
    ]
}

/// The statements that rebuild and optimise the full-text index of `doc`.
pub fn fts_maintenance_statements(doc: &str) -> (r: Vec<String>)
    ensures
        views(r@) == spec_fts_maintenance(doc@),
{
    let mut a = String::new();
    append_str(&mut a, "insert into fts_");
    append_str(&mut a, doc);
    append_str(&mut a, "(fts_");
    append_str(&mut a, doc);
    append_str(&mut a, ") values('rebuild')");
    let mut b = String::new();
    append_str(&mut b, "insert into fts_");
    append_str(&mut b, doc);
    append_str(&mut b, "(fts_");
    append_str(&mut b, doc);
    append_str(&mut b, ") values('optimize')");
    let r = vec![a, b];
    assert(views(r@) =~= spec_fts_maintenance(doc@));
    r
}

/// The query that reads the searchable text of each row of a document.
pub open spec fn spec_vec_inputs_query(doc: Seq<char>) -> Seq<char> {
    "select id, vec_input from "@ + doc
}

/// The query that reads the searchable text of each row of `doc`.
pub fn vec_inputs_query(doc: &str) -> (r: String)
    ensures
        r@ == spec_vec_inputs_query(doc@),
{
    let mut r = String::from_str("select id, vec_input from ");
    append_str(&mut r, doc);
    r
}

/// The statement that stores the embedding of a row of a document.
pub open spec fn spec_embedding_insert(doc: Seq<char>) -> Seq<char> {
    "insert into vec_"@ + doc + "(row_id, vec_input_embedding) values (?,?)"@
}

/// The statement that stores the embedding of a row of `doc`.
pub fn embedding_insert_statement(doc: &str) -> (r: String)
    ensures
        r@ == spec_embedding_insert(doc@),
{
    let mut r = String::from_str("insert into vec_");
    append_str(&mut r, doc);
    append_str(&mut r, "(row_id, vec_input_embedding) values (?,?)");
    r
}

/// `n` question marks, the placeholders of a row's values.
pub open spec fn placeholders(n: nat) -> Seq<Seq<char>> {
    Seq::new(n, |i: int| "?"@)
}

/// The statement that inserts a row read from a file into the raw table
/// of a document: one column and one placeholder per field.
pub open spec fn spec_insert_statement(d: Document) -> Seq<char> {
    "INSERT INTO "@ + d.name@ + "_raw ("@ + joined(field_names(d.fields@), ", "@)
        + ") VALUES ("@ + joined(placeholders(d.fields@.len()), ", "@) + ")"@
}

/// The statement that inserts a row read from a file into the raw table
/// of `document`.
pub fn insert_statement(document: &Document) -> (r: String)
    ensures
        r@ == spec_insert_statement(*document),
{
    let names = join_comma(&names_of(&document.fields));
    let mut marks: Vec<String> = Vec::new();
    let mut i: usize = 0;
    while i < document.fields.len()
        invariant
            i <= document.fields@.len(),
            views(marks@) =~= placeholders(i as nat),
        decreases document.fields@.len() - i,
    {
        marks.push(String::from_str("?"));
        assert(views(marks@) =~= placeholders(i as nat).push("?"@));
        i = i + 1;
    }
    let marks_text = join_comma(&marks);
    let mut r = String::from_str("INSERT INTO ");
    append_str(&mut r, document.name.as_str());
    append_str(&mut r, "_raw (");
    append_str(&mut r, names.as_str());
    append_str(&mut r, ") VALUES (");
    append_str(&mut r, marks_text.as_str());
    append_str(&mut r, ")");
    r
}

/// The tables that keep the search history and the favourites of every
/// document, with the triggers that index the history.
pub open spec fn spec_history_tables_script() -> Seq<char> {
    "\n            create table if not exists historial(\n                id integer primary key,\n                query text not null unique,\n                strategy text,\n                doc text,\n                peso_fts real,\n                peso_semantic real,\n                neighbors number,\n                timestamp datetime default current_timestamp\n            );\n\n            create table if not exists favoritos (\n                id integer primary key,\n                nombre text not null unique,\n                data text,\n                doc text,\n                busquedas text,\n                tipos text,\n                timestamp datetime default current_timestamp\n            );\n\n            create virtual table if not exists fts_historial using fts5(\n                query,\n                content='historial', content_rowid='id'\n            );\n\n            create trigger if not exists after_insert_historial\n                after insert on historial\n                begin\n                insert into fts_historial(rowid, query) values (new.id, new.query);\n            end;\n\n            create trigger if not exists after_update_historial\n                after update on historial\n                begin\n                update fts_historial set query = new.query where rowid = old.id;\n            end;\n\n            create trigger if not exists after_delete_historial\n                after delete on historial\n                begin\n                delete from fts_historial where rowid = old.id;\n            end;\n\n            "@
}

/// The script that creates the history and favourites tables.
pub fn history_tables_script() -> (r: &'static str)
    ensures
        r@ == spec_history_tables_script(),
{
    "\n            create table if not exists historial(\n                id integer primary key,\n                query text not null unique,\n                strategy text,\n                doc text,\n                peso_fts real,\n                peso_semantic real,\n                neighbors number,\n                timestamp datetime default current_timestamp\n            );\n\n            create table if not exists favoritos (\n                id integer primary key,\n                nombre text not null unique,\n                data text,\n                doc text,\n                busquedas text,\n                tipos text,\n                timestamp datetime default current_timestamp\n            );\n\n            create virtual table if not exists fts_historial using fts5(\n                query,\n                content='historial', content_rowid='id'\n            );\n\n            create trigger if not exists after_insert_historial\n                after insert on historial\n                begin\n                insert into fts_historial(rowid, query) values (new.id, new.query);\n            end;\n\n            create trigger if not exists after_update_historial\n                after update on historial\n                begin\n                update fts_historial set query = new.query where rowid = old.id;\n            end;\n\n            create trigger if not exists after_delete_historial\n                after delete on historial\n                begin\n                delete from fts_historial where rowid = old.id;\n            end;\n\n            "
}

/// The first migration: the history, favourites and users tables, with
/// the triggers that index the history.
pub open spec fn spec_base_tables_migration() -> Seq<char> {
    "\ncreate table if not exists historial(\n    id integer primary key,\n    query text not null unique,\n    strategy text,\n    doc text,\n    peso_fts real,\n    peso_semantic real,\n    neighbors number,\n    timestamp datetime default current_timestamp\n);\n\ncreate table if not exists favoritos (\n    id integer primary key,\n    nombre text not null unique,\n    data text,\n    doc text,\n    busquedas text,\n    tipos text,\n    timestamp datetime default current_timestamp\n);\n\ncreate table if not exists users (\n    id integer primary key autoincrement,\n    username text not null unique,\n    password_hash text not null,\n    auth_token text,\n    created_at datetime default current_timestamp,\n    updated_at datetime default current_timestamp\n);\n\ncreate virtual table if not exists fts_historial using fts5(\n    query,\n    content='historial', content_rowid='id'\n);\n\ncreate trigger if not exists after_insert_historial\n    after insert on historial\n    begin\n    insert into fts_historial(rowid, query) values (new.id, new.query);\nend;\n\ncreate trigger if not exists after_update_historial\n    after update on historial\n    begin\n    update fts_historial set query = new.query where rowid = old.id;\nend;\n\ncreate trigger if not exists after_delete_historial\n    after delete on historial\n    begin\n    delete from fts_historial where rowid = old.id;\nend;\n\n"@
}

/// The script of the first migration.
pub fn base_tables_migration() -> (r: &'static str)
    ensures
        r@ == spec_base_tables_migration(),
{
    "\ncreate table if not exists historial(\n    id integer primary key,\n    query text not null unique,\n    strategy text,\n    doc text,\n    peso_fts real,\n    peso_semantic real,\n    neighbors number,\n    timestamp datetime default current_timestamp\n);\n\ncreate table if not exists favoritos (\n    id integer primary key,\n    nombre text not null unique,\n    data text,\n    doc text,\n    busquedas text,\n    tipos text,\n    timestamp datetime default current_timestamp\n);\n\ncreate table if not exists users (\n    id integer primary key autoincrement,\n    username text not null unique,\n    password_hash text not null,\n    auth_token text,\n    created_at datetime default current_timestamp,\n    updated_at datetime default current_timestamp\n);\n\ncreate virtual table if not exists fts_historial using fts5(\n    query,\n    content='historial', content_rowid='id'\n);\n\ncreate trigger if not exists after_insert_historial\n    after insert on historial\n    begin\n    insert into fts_historial(rowid, query) values (new.id, new.query);\nend;\n\ncreate trigger if not exists after_update_historial\n    after update on historial\n    begin\n    update fts_historial set query = new.query where rowid = old.id;\nend;\n\ncreate trigger if not exists after_delete_historial\n    after delete on historial\n    begin\n    delete from fts_historial where rowid = old.id;\nend;\n\n"
}

// ---------------------------------------------------------------------
// Values of a row
// ---------------------------------------------------------------------

/// The values bound for a row of a CSV file: the record's value in the
/// position of each field, or the empty text when the record is shorter.
pub open spec fn spec_csv_params(record: Seq<Seq<char>>, n: nat) -> Seq<Seq<char>> {
    Seq::new(n, |i: int| if i < record.len() { record[i] } else { Seq::<char>::empty() })
}

/// The values bound for a CSV record, one per field of the document.
pub fn csv_params(record: &Vec<String>, field_count: usize) -> (r: Vec<String>)
    ensures
        views(r@) == spec_csv_params(views(record@), field_count as nat),
{
    let mut r: Vec<String> = Vec::new();
    let mut i: usize = 0;
    while i < field_count
        invariant
            i <= field_count,
            views(r@) =~= spec_csv_params(views(record@), field_count as nat).take(i as int),
        decreases field_count - i,
    {
        let v = if i < record.len() {
            String::from_str(record[i].as_str())
        } else {
            String::new()
        };
        let ghost old_r = r@;
        r.push(v);
        proof {
            let full = spec_csv_params(views(record@), field_count as nat);
            assert(full.take(i + 1) =~= full.take(i as int).push(full[i as int]));
            assert(views(r@) =~= views(old_r).push(full[i as int]));
        }
        i = i + 1;
    }
    assert(spec_csv_params(views(record@), field_count as nat).take(field_count as int)
        =~= spec_csv_params(views(record@), field_count as nat));
    r
}

/// A value of a JSON record, as it is bound: texts as they are, numbers
/// and nested values by their JSON text, booleans as `true` or `false`.
#[derive(Debug, Clone, PartialEq)]
pub enum JsonValue {
    Null,
    Bool(bool),
    Number(String),
    Text(String),
    Nested(String),
}

/// The mathematical value of a [`JsonValue`].
pub enum JsonValueView {
    Null,
    Bool(bool),
    Number(Seq<char>),
    Text(Seq<char>),
    Nested(Seq<char>),
}

impl View for JsonValue {
    type V = JsonValueView;

    open spec fn view(&self) -> JsonValueView {
        match self {
            JsonValue::Null => JsonValueView::Null,
            JsonValue::Bool(b) => JsonValueView::Bool(*b),
            JsonValue::Number(n) => JsonValueView::Number(n@),
            JsonValue::Text(t) => JsonValueView::Text(t@),
            JsonValue::Nested(j) => JsonValueView::Nested(j@),
        }
    }
}

/// The pairs of key and value of a JSON record, as values.
pub open spec fn record_view(record: Seq<(String, JsonValue)>) -> Seq<(Seq<char>, JsonValueView)> {
    record.map_values(|p: (String, JsonValue)| (p.0@, p.1@))
}

/// The value bound for a JSON value: `null` binds the empty text.
pub open spec fn spec_json_param(v: JsonValueView) -> Seq<char> {
    match v {
        JsonValueView::Null => Seq::empty(),
        JsonValueView::Bool(b) => if b {
            "true"@
        } else {
            "false"@
        },
        JsonValueView::Number(n) => n,
        JsonValueView::Text(t) => t,
        JsonValueView::Nested(j) => j,
    }
}

/// The value bound for the field `key` of a JSON record (the record's
/// pairs of key and value): that of the first pair with that key, or none
/// (SQL `NULL`) when the record lacks it.
pub open spec fn json_lookup(record: Seq<(Seq<char>, JsonValueView)>, key: Seq<char>) -> Option<
    Seq<char>,
>
    decreases record.len(),
{
    if record.len() == 0 {
        None
    } else if record[0].0 == key {
        Some(spec_json_param(record[0].1))
    } else {
        json_lookup(record.drop_first(), key)
    }
}

/// The value bound for the field `key` of a JSON record.
pub fn json_field_param(record: &Vec<(String, JsonValue)>, key: &String) -> (r: Option<String>)
    ensures
        match r {
            Some(v) => json_lookup(record_view(record@), key@) == Some(v@),
            None => json_lookup(record_view(record@), key@) is None,
        },
{
    let ghost rv = record_view(record@);
    let mut i: usize = 0;
    assert(rv.skip(0) =~= rv);
    while i < record.len()
        invariant
            i <= record@.len(),
            rv == record_view(record@),
            json_lookup(rv, key@) == json_lookup(rv.skip(i as int), key@),
        decreases record@.len() - i,
    {
        assert(rv.skip(i as int)[0] == rv[i as int]);
        if record[i].0 == *key {
            let v = match &record[i].1 {
                JsonValue::Null => String::new(),
                JsonValue::Bool(b) => if *b {
                    String::from_str("true")
                } else {
                    String::from_str("false")
                },
                JsonValue::Number(n) => String::from_str(n.as_str()),
                JsonValue::Text(t) => String::from_str(t.as_str()),
                JsonValue::Nested(j) => String::from_str(j.as_str()),
            };
            return Some(v);
        }
        assert(rv.skip(i as int).drop_first() =~= rv.skip(i + 1));
        i = i + 1;
    }
    None
}

/// The values bound for a JSON record, one per field of the document, in
/// the order of the fields.
/// Optional texts, as values.
pub open spec fn opt_views(v: Seq<Option<String>>) -> Seq<Option<Seq<char>>> {
    v.map_values(
        |o: Option<String>|
            match o {
                Some(s) => Some(s@),
                None => None,
            },
    )
}

/// The values bound for a JSON record (`None` when it is not an object),
/// one per field, in the order of the fields.
pub open spec fn spec_json_row(
    record: Option<Seq<(Seq<char>, JsonValueView)>>,
    fields: Seq<Field>,
) -> Seq<Option<Seq<char>>> {
    Seq::new(
        fields.len(),
        |i: int|
            match record {
                Some(r) => json_lookup(r, fields[i].name@),
                None => None,
            },
    )
}

/// The values bound for a JSON record, one per field of the document, in
/// the order of the fields.
pub fn json_params(record: &Vec<(String, JsonValue)>, fields: &Vec<Field>) -> (r: Vec<Option<String>>)
    ensures
        opt_views(r@) == spec_json_row(Some(record_view(record@)), fields@),
{
    let mut r: Vec<Option<String>> = Vec::new();
    let mut i: usize = 0;
    while i < fields.len()
        invariant
            i <= fields@.len(),
            opt_views(r@) =~= spec_json_row(Some(record_view(record@)), fields@).take(i as int),
        decreases fields@.len() - i,
    {
        let ghost before = r@;
        r.push(json_field_param(record, &fields[i].name));
        proof {
            let full = spec_json_row(Some(record_view(record@)), fields@);
            assert(full.take(i + 1) =~= full.take(i as int).push(full[i as int]));
            assert(opt_views(r@) =~= opt_views(before).push(full[i as int]));
        }
        i = i + 1;
    }
    assert(spec_json_row(Some(record_view(record@)), fields@).take(fields@.len() as int)
        =~= spec_json_row(Some(record_view(record@)), fields@));
    r
}

// ---------------------------------------------------------------------
// Rows of a data file
// ---------------------------------------------------------------------

/// What `serde_json::from_str::<Vec<serde_json::Value>>` reads from the
/// text of a JSON file: for each record, its pairs of key and value when
/// it is an object (none otherwise), or the text of the error.
pub uninterp spec fn json_records(text: Seq<char>) -> Result<
    Seq<Option<Seq<(Seq<char>, JsonValueView)>>>,
    Seq<char>,
>;

/// The records of a JSON file, as values.
pub open spec fn records_view(rs: Seq<Option<Vec<(String, JsonValue)>>>) -> Seq<
    Option<Seq<(Seq<char>, JsonValueView)>>,
> {
    rs.map_values(
        |o: Option<Vec<(String, JsonValue)>>|
            match o {
                Some(v) => Some(record_view(v@)),
                None => None,
            },
    )
}

/// Calls `serde_json::from_str::<Vec<serde_json::Value>>` on the text of
/// a JSON file and turns each value into the library's form, one variant
/// for one; the error becomes its text. What it reads is named, not
/// restated.
#[verifier::external_body]
fn parse_json_records(text: &str) -> (r: Result<Vec<Option<Vec<(String, JsonValue)>>>, String>)
    ensures
        match r {
            Ok(rs) => json_records(text@) == Ok::<_, Seq<char>>(records_view(rs@)),
            Err(e) => json_records(text@) == Err::<Seq<Option<Seq<(Seq<char>, JsonValueView)>>>, _>(e@),
        },
{
    let data: Vec<serde_json::Value> = serde_json::from_str(text).map_err(|e| e.to_string())?;
    Ok(data.iter().map(|v| v.as_object().map(|o| o.iter().map(|(k, v)| (k.clone(), match v {
        serde_json::Value::Null => JsonValue::Null,
        serde_json::Value::Bool(b) => JsonValue::Bool(*b),
        serde_json::Value::Number(n) => JsonValue::Number(n.to_string()),
        serde_json::Value::String(s) => JsonValue::Text(s.clone()),
        other => JsonValue::Nested(other.to_string()),
    })).collect())).collect())
}

/// What the `csv` crate reads from the bytes of a CSV file with headers,
/// rows of any length, every field trimmed and `"` as the quote: the
/// headers, then every record or the text of the first error; or the text
/// of the error met reading the headers.
pub uninterp spec fn csv_table(bytes: Seq<u8>) -> Result<
    (Seq<Seq<char>>, Result<Seq<Seq<Seq<char>>>, Seq<char>>),
    Seq<char>,
>;

/// The records of a CSV file, as values.
pub open spec fn table_rows_view(rs: Seq<Vec<String>>) -> Seq<Seq<Seq<char>>> {
    rs.map_values(|r: Vec<String>| views(r@))
}

/// Reads a CSV file's bytes with `csv::ReaderBuilder` (headers, flexible
/// rows, all fields trimmed, quote `"`): its headers, then its records up
/// to the first error. What it reads is named, not restated.
#[verifier::external_body]
fn parse_csv(bytes: &[u8]) -> (r: Result<(Vec<String>, Result<Vec<Vec<String>>, String>), String>)
    ensures
        match r {
            Err(e) => csv_table(bytes@) == Err::<(Seq<Seq<char>>, Result<Seq<Seq<Seq<char>>>, Seq<char>>), _>(e@),
            Ok((h, Err(e))) => csv_table(bytes@) == Ok::<_, Seq<char>>((views(h@), Err::<Seq<Seq<Seq<char>>>, _>(e@))),
            Ok((h, Ok(rs))) => csv_table(bytes@) == Ok::<_, Seq<char>>((views(h@), Ok::<_, Seq<char>>(table_rows_view(rs@)))),
        },
{
    let mut reader = csv::ReaderBuilder::new().flexible(true).trim(csv::Trim::All)
        .has_headers(true).quote(b'"').from_reader(bytes);
    let headers = reader.headers().map_err(|e| e.to_string())?.iter().map(String::from).collect();
    let records = reader.records().map(|r| r.map(|rec| rec.iter().map(String::from).collect()))
        .collect::<Result<Vec<Vec<String>>, _>>().map_err(|e| e.to_string());
    Ok((headers, records))
}

/// Why the rows of a data file cannot be read.
#[derive(Debug)]
pub enum IngestError {
    /// The JSON text cannot be read; the parser's message.
    Json(String),
    /// The CSV bytes cannot be read; the reader's message.
    Csv(String),
    /// The file's columns are not the document's fields.
    Headers(HeaderMismatch),
}

impl IngestError {
    /// The message printed for the error.
    pub open spec fn spec_message(&self) -> Seq<char> {
        match self {
            IngestError::Json(m) => m@,
            IngestError::Csv(m) => m@,
            IngestError::Headers(h) => h.spec_message(),
        }
    }

    /// The message printed for the error.
    pub fn message(&self) -> (r: String)
        ensures
            r@ == self.spec_message(),
    {
        match self {
            IngestError::Json(m) => String::from_str(m.as_str()),
            IngestError::Csv(m) => String::from_str(m.as_str()),
            IngestError::Headers(h) => h.message(),
        }
    }
}

/// The keys of the first record of a JSON file (none when it has no
/// record or its first is not an object).
pub open spec fn first_record_keys(recs: Seq<Option<Seq<(Seq<char>, JsonValueView)>>>) -> Seq<
    Seq<char>,
> {
    if recs.len() > 0 {
        match recs[0] {
            Some(r) => r.map_values(|p: (Seq<char>, JsonValueView)| p.0),
            None => Seq::empty(),
        }
    } else {
        Seq::empty()
    }
}

/// The names of the fields, as strings.
fn field_name_strings(fields: &Vec<Field>) -> (r: Vec<String>)
    ensures
        views(r@) == field_names(fields@),
{
    let mut r: Vec<String> = Vec::new();
    let mut i: usize = 0;
    while i < fields.len()
        invariant
            i <= fields@.len(),
            views(r@) =~= field_names(fields@).take(i as int),
        decreases fields@.len() - i,
    {
        let ghost before = r@;
        r.push(String::from_str(fields[i].name.as_str()));
        assert(views(r@) =~= views(before).push(fields@[i as int].name@));
        assert(field_names(fields@).take(i + 1) =~= field_names(fields@).take(i as int).push(
            fields@[i as int].name@,
        ));
        i = i + 1;
    }
    assert(field_names(fields@).take(fields@.len() as int) =~= field_names(fields@));
    r
}

/// The rows a JSON file inserts for a document of fields `fields`: the
/// keys of its first record, sorted, are checked against the sorted field
/// names; then each record gives the values of the fields, in their order.
pub fn json_file_rows(text: &str, fields: &Vec<Field>) -> (r: Result<Vec<Vec<Option<String>>>, IngestError>)
    ensures
        match json_records(text@) {
            Err(e) => r matches Err(IngestError::Json(m)) && m@ == e,
            Ok(recs) => exists|sk: Seq<Seq<char>>, sf: Seq<Seq<char>>|
                #![trigger sorted_names(first_record_keys(recs), sk), sorted_names(field_names(fields@), sf)]
                sorted_names(first_record_keys(recs), sk) && sorted_names(field_names(fields@), sf)
                    && match r {
                    Ok(rows) => {
                        &&& headers_match(sk, sf)
                        &&& rows@.len() == recs.len()
                        &&& forall|i: int|
                            0 <= i < rows@.len() ==> opt_views(#[trigger] rows@[i]@) == spec_json_row(
                                recs[i],
                                fields@,
                            )
                    },
                    Err(IngestError::Headers(m)) => spec_headers_result(sk, sf, Err(m)),
                    Err(_) => false,
                },
        },
{
    let recs = match parse_json_records(text) {
        Ok(rs) => rs,
        Err(e) => {
            return Err(IngestError::Json(e));
        },
    };
    let ghost rv = records_view(recs@);
    let mut keys: Vec<String> = Vec::new();
    if recs.len() > 0 {
        match &recs[0] {
            Some(first) => {
                let mut k: usize = 0;
                while k < first.len()
                    invariant
                        k <= first@.len(),
                        views(keys@) =~= record_view(first@).take(k as int).map_values(
                            |p: (Seq<char>, JsonValueView)| p.0,
                        ),
                    decreases first@.len() - k,
                {
                    let ghost before = keys@;
                    keys.push(String::from_str(first[k].0.as_str()));
                    assert(views(keys@) =~= views(before).push(first@[k as int].0@));
                    assert(record_view(first@).take(k + 1) =~= record_view(first@).take(k as int).push(
                        record_view(first@)[k as int],
                    ));
                    k = k + 1;
                }
                assert(record_view(first@).take(first@.len() as int) =~= record_view(first@));
            },
            None => {},
        }
    }
    assert(views(keys@) =~= first_record_keys(rv));
    let sorted_keys = crate::datasources::sort_names(keys);
    let sorted_fields = crate::datasources::sort_names(field_name_strings(fields));
    let checked = check_headers(&sorted_keys, &sorted_fields);
    let ghost sk = views(sorted_keys@);
    let ghost sf = views(sorted_fields@);
    assert(sorted_names(first_record_keys(rv), sk));
    assert(sorted_names(field_names(fields@), sf));
    if let Err(m) = checked {
        let r: Result<Vec<Vec<Option<String>>>, IngestError> = Err(IngestError::Headers(m));
        assert(spec_headers_result(sk, sf, checked));
        assert(json_records(text@)->Ok_0 == rv);
        assert(exists|sk: Seq<Seq<char>>, sf: Seq<Seq<char>>|
            #![trigger sorted_names(first_record_keys(json_records(text@)->Ok_0), sk), sorted_names(field_names(fields@), sf)]
            sorted_names(first_record_keys(json_records(text@)->Ok_0), sk) && sorted_names(
                field_names(fields@),
                sf,
            ) && match r {
                Ok(rows) => false,
                Err(IngestError::Headers(m)) => spec_headers_result(sk, sf, Err(m)),
                Err(_) => false,
            });
        return r;
    }
    let mut rows: Vec<Vec<Option<String>>> = Vec::new();
    let mut i: usize = 0;
    while i < recs.len()
        invariant
            i <= recs@.len(),
            rv == records_view(recs@),
            rows@.len() == i,
            forall|j: int|
                0 <= j < i ==> opt_views(#[trigger] rows@[j]@) == spec_json_row(rv[j], fields@),
        decreases recs@.len() - i,
    {
        let row = match &recs[i] {
            Some(rec) => json_params(rec, fields),
            None => {
                let mut none: Vec<Option<String>> = Vec::new();
                let mut f: usize = 0;
                while f < fields.len()
                    invariant
                        f <= fields@.len(),
                        opt_views(none@) =~= spec_json_row(None, fields@).take(f as int),
                    decreases fields@.len() - f,
                {
                    let ghost before = none@;
                    none.push(None);
                    assert(opt_views(none@) =~= opt_views(before).push(None));
                    f = f + 1;
                }
                assert(spec_json_row(None, fields@).take(fields@.len() as int) =~= spec_json_row(
                    None,
                    fields@,
                ));
                none
            },
        };
        rows.push(row);
        i = i + 1;
    }
    assert(headers_match(sk, sf));
    assert(json_records(text@)->Ok_0 == rv);
    assert(exists|sk: Seq<Seq<char>>, sf: Seq<Seq<char>>|
        #![trigger sorted_names(first_record_keys(json_records(text@)->Ok_0), sk), sorted_names(field_names(fields@), sf)]
        sorted_names(first_record_keys(json_records(text@)->Ok_0), sk) && sorted_names(
            field_names(fields@),
            sf,
        ) && headers_match(sk, sf));
    Ok(rows)
}

/// The rows a CSV file inserts for `doc`: its headers, sorted, are
/// checked against the field names; then each record gives one value per
/// field, the empty text past its end.
pub fn csv_file_rows(bytes: &[u8], doc: &Document) -> (r: Result<Vec<Vec<String>>, IngestError>)
    ensures
        match csv_table(bytes@) {
            Err(e) => r matches Err(IngestError::Csv(m)) && m@ == e,
            Ok((h, recs)) => exists|sh: Seq<Seq<char>>|
                #![trigger sorted_names(h, sh)]
                sorted_names(h, sh) && if headers_match(sh, field_names(doc.fields@)) {
                    match recs {
                        Err(e) => r matches Err(IngestError::Csv(m)) && m@ == e,
                        Ok(rs) => r matches Ok(rows) && rows@.len() == rs.len() && forall|i: int|
                            0 <= i < rows@.len() ==> views(#[trigger] rows@[i]@) == spec_csv_params(
                                rs[i],
                                doc.fields@.len(),
                            ),
                    }
                } else {
                    r matches Err(IngestError::Headers(m)) && spec_headers_result(
                        sh,
                        field_names(doc.fields@),
                        Err(m),
                    )
                },
        },
{
    let (headers, records) = match parse_csv(bytes) {
        Ok(t) => t,
        Err(e) => {
            return Err(IngestError::Csv(e));
        },
    };
    let ghost h = views(headers@);
    let sorted = crate::datasources::sort_names(headers);
    let expected = field_name_strings(&doc.fields);
    let checked = check_headers(&sorted, &expected);
    let ghost sh = views(sorted@);
    assert(sorted_names(h, sh));
    assert(csv_table(bytes@)->Ok_0.0 == h);
    assert(sorted_names(csv_table(bytes@)->Ok_0.0, sh));
    if let Err(m) = checked {
        let r: Result<Vec<Vec<String>>, IngestError> = Err(IngestError::Headers(m));
        assert(!headers_match(sh, field_names(doc.fields@)));
        assert(exists|sh2: Seq<Seq<char>>|
            #![trigger sorted_names(csv_table(bytes@)->Ok_0.0, sh2)]
            sorted_names(csv_table(bytes@)->Ok_0.0, sh2) && !headers_match(
                sh2,
                field_names(doc.fields@),
            ) && (r matches Err(IngestError::Headers(m)) && spec_headers_result(
                sh2,
                field_names(doc.fields@),
                Err(m),
            )));
        return r;
    }
    assert(headers_match(sh, field_names(doc.fields@)));
    assert(exists|sh2: Seq<Seq<char>>|
        #![trigger sorted_names(csv_table(bytes@)->Ok_0.0, sh2)]
        sorted_names(csv_table(bytes@)->Ok_0.0, sh2) && headers_match(
            sh2,
            field_names(doc.fields@),
        ));
    let recs = match records {
        Ok(rs) => rs,
        Err(e) => {
            return Err(IngestError::Csv(e));
        },
    };
    let mut rows: Vec<Vec<String>> = Vec::new();
    let mut i: usize = 0;
    while i < recs.len()
        invariant
            i <= recs@.len(),
            rows@.len() == i,
            forall|j: int|
                0 <= j < i ==> views(#[trigger] rows@[j]@) == spec_csv_params(
                    table_rows_view(recs@)[j],
                    doc.fields@.len(),
                ),
        decreases recs@.len() - i,
    {
        rows.push(csv_params(&recs[i], doc.fields.len()));
        i = i + 1;
    }
    Ok(rows)
}

/// The number of chunks of `chunk_size` rows that `n` rows make (the last
/// one may be shorter).
pub open spec fn spec_chunk_count(n: nat, chunk_size: nat) -> nat {
    if n % chunk_size == 0 {
        n / chunk_size
    } else {
        n / chunk_size + 1
    }
}

/// How many chunks `n` rows make (`chunks(chunk_size).count()`).
pub fn chunk_count(n: usize, chunk_size: usize) -> (c: usize)
    requires
        chunk_size > 0,
    ensures
        c == spec_chunk_count(n as nat, chunk_size as nat),
{
    let q = n / chunk_size;
    if n % chunk_size == 0 {
        q
    } else {
        proof {
            assert(q * chunk_size <= n) by (nonlinear_arith)
                requires
                    q == n / chunk_size,
                    chunk_size > 0,
            ;
            assert(q < n) by (nonlinear_arith)
                requires
                    q * chunk_size <= n,
                    n % chunk_size != 0,
                    q == n / chunk_size,
                    chunk_size > 0,
            ;
        }
        q + 1
    }
}

} // verus!
