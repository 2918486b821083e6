use gulfi::migrations::{
    calculate_content_hash, check_for_duplicate, executed_statements, is_sql_file,
    migration_from_file, migration_name, migration_timestamp, new_migration_file_name,
    parse_sql_statements, pending_migrations, run_plan, sort_by_timestamp, to_lower_hex, Migration,
    RunPlan, RunStep, generate_plan, record_outcome,
};

fn migration(filename: &str) -> Migration {
    migration_from_file(filename.to_string(), format!("-- {filename}"))
}

#[test]
fn statements_are_cut_at_semicolons() {
    let sql = "create table a(x int);\ncreate table b(y int);\n";
    let got = parse_sql_statements(sql);
    assert_eq!(got, vec!["create table a(x int)".to_string(), "create table b(y int)".to_string()]);
}

#[test]
fn trigger_bodies_stay_in_one_statement() {
    let sql = "create trigger if not exists t\n    after insert on h\n    begin\n    insert into f(rowid) values (new.id);\nend;\ncreate table z(a);";
    let got = parse_sql_statements(sql);
    assert_eq!(got.len(), 2);
    assert_eq!(
        got[0],
        "create trigger if not exists t\n    after insert on h\n    begin\n    insert into f(rowid) values (new.id);\nend"
    );
    assert_eq!(got[1], "create table z(a)");
}

#[test]
fn statement_spanning_lines_ends_at_last_semicolon_line() {
    let sql = "create table h(\n  id integer,\n  q text\n);\n";
    let got = parse_sql_statements(sql);
    assert_eq!(got, vec!["create table h(\n  id integer,\n  q text\n)".to_string()]);
}

#[test]
fn remainder_without_semicolon_is_kept() {
    let got = parse_sql_statements("select 1;\nselect 2");
    assert_eq!(got, vec!["select 1".to_string(), "select 2".to_string()]);
}

#[test]
fn blank_script_has_no_statements() {
    assert!(parse_sql_statements("").is_empty());
    assert!(parse_sql_statements("\n   \n").is_empty());
}

#[test]
fn crlf_lines_are_cut_like_lf_lines() {
    let got = parse_sql_statements("select 1;\r\nselect 2;\r\n");
    assert_eq!(got, vec!["select 1".to_string(), "select 2".to_string()]);
}

#[test]
fn lone_semicolon_gives_an_empty_statement_that_is_not_executed() {
    let all = parse_sql_statements(";\nselect 1;");
    assert_eq!(all, vec!["".to_string(), "select 1".to_string()]);
    let run = executed_statements(";\nselect 1;");
    assert_eq!(run, vec!["select 1".to_string()]);
}

#[test]
fn nested_blocks_end_at_the_outer_end() {
    let sql = "create trigger t after insert on a\nbegin\n  begin\n  select 1;\n  end;\n  select 2;\nend;\nselect 3;";
    let got = parse_sql_statements(sql);
    assert_eq!(got.len(), 2);
    assert!(got[0].ends_with("end"));
    assert_eq!(got[1], "select 3");
}

#[test]
fn timestamp_is_first_four_parts() {
    assert_eq!(migration_timestamp("2024_01_15_101500_base_tables.sql"), "2024_01_15_101500");
    assert_eq!(migration_timestamp("2024_01_15_101500.sql"), "2024_01_15_101500.sql");
    assert_eq!(migration_timestamp("init.sql"), "unknown");
    assert_eq!(migration_timestamp("a_b_c"), "unknown");
}

#[test]
fn name_drops_every_sql_suffix() {
    assert_eq!(migration_name("2024_01_15_101500_base_tables.sql"), "2024_01_15_101500_base_tables");
    assert_eq!(migration_name("a.sql.sql"), "a");
    assert_eq!(migration_name("plain"), "plain");
}

#[test]
fn migration_from_file_reads_its_name() {
    let m = migration("2024_02_01_000000_docs_tables.sql");
    assert_eq!(m.timestamp, "2024_02_01_000000");
    assert_eq!(m.name, "2024_02_01_000000_docs_tables");
    assert!(m.executed_at.is_none());
    assert_eq!(m.content, "-- 2024_02_01_000000_docs_tables.sql");
}

#[test]
fn sql_files_have_the_sql_extension() {
    assert!(is_sql_file("x.sql"));
    assert!(!is_sql_file(".sql"));
    assert!(!is_sql_file("x.sqlite"));
    assert!(!is_sql_file("xsql"));
}

#[test]
fn migrations_sort_by_timestamp_stably() {
    let ms = vec![
        migration("2024_03_01_000000_c.sql"),
        migration("unknown.sql"),
        migration("2024_01_01_000000_a.sql"),
        migration("other.sql"),
        migration("2024_02_01_000000_b.sql"),
    ];
    let sorted = sort_by_timestamp(ms);
    let names: Vec<&str> = sorted.iter().map(|m| m.filename.as_str()).collect();
    assert_eq!(
        names,
        vec![
            "2024_01_01_000000_a.sql",
            "2024_02_01_000000_b.sql",
            "2024_03_01_000000_c.sql",
            "unknown.sql",
            "other.sql",
        ]
    );
}

#[test]
fn pending_leaves_out_executed() {
    let ms = vec![migration("1_1_1_1_a.sql"), migration("2_2_2_2_b.sql"), migration("3_3_3_3_c.sql")];
    let executed = vec!["2_2_2_2_b.sql".to_string()];
    let pending = pending_migrations(ms, &executed);
    let names: Vec<&str> = pending.iter().map(|m| m.filename.as_str()).collect();
    assert_eq!(names, vec!["1_1_1_1_a.sql", "3_3_3_3_c.sql"]);
}

#[test]
fn content_hash_is_blake2s_hex() {
    assert_eq!(
        calculate_content_hash(""),
        "69217a3079908094e11121d042354a7c1f55b6482ca1a51e1b250dfd1ed0eef9"
    );
    assert_eq!(
        calculate_content_hash("abc"),
        "508c5e8c327c14e2e1a72ba34eeb452f37458b209ed63a294d999b4c86675982"
    );
}

#[test]
fn lower_hex_writes_two_digits_per_byte() {
    assert_eq!(to_lower_hex(&vec![0u8, 15, 16, 255]), "000f10ff");
}

#[test]
fn duplicates_are_found_by_content() {
    let existing = vec!["create table a;".to_string(), "create table b;".to_string()];
    assert_eq!(check_for_duplicate("create table b;", &existing), Some(()));
    assert_eq!(check_for_duplicate("create table c;", &existing), None);
    assert_eq!(check_for_duplicate("x", &vec![]), None);
}

#[test]
fn new_migration_file_name_separates_timestamp_and_name() {
    let f = new_migration_file_name("2024_01_01_000000", "users");
    assert_eq!(f, "2024_01_01_000000_users.sql");
    assert_eq!(migration_timestamp(&f), "2024_01_01_000000");
}

#[test]
fn run_plans() {
    let all = || vec![migration("1_1_1_1_a.sql"), migration("2_2_2_2_b.sql"), migration("3_3_3_3_c.sql")];
    let executed = vec!["2_2_2_2_b.sql".to_string()];
    match run_plan(all(), &executed, true) {
        RunPlan::List(names) => assert_eq!(names, vec!["1_1_1_1_a.sql", "3_3_3_3_c.sql"]),
        _ => panic!("a dry run lists the pending migrations"),
    }
    match run_plan(all(), &executed, false) {
        RunPlan::Execute(ms) => {
            let names: Vec<&str> = ms.iter().map(|m| m.filename.as_str()).collect();
            assert_eq!(names, vec!["1_1_1_1_a.sql", "3_3_3_3_c.sql"]);
        }
        _ => panic!("a run executes the pending migrations"),
    }
    // Once they are recorded, nothing is pending.
    let mut recorded = executed.clone();
    recorded.push("1_1_1_1_a.sql".to_string());
    recorded.push("3_3_3_3_c.sql".to_string());
    assert!(matches!(run_plan(all(), &recorded, false), RunPlan::NothingPending));
    assert!(matches!(run_plan(all(), &recorded, true), RunPlan::NothingPending));
    // A run that stopped after the first leaves the rest pending.
    let mut partial = executed.clone();
    partial.push("1_1_1_1_a.sql".to_string());
    let left = pending_migrations(all(), &partial);
    assert_eq!(left.len(), 1);
    assert_eq!(left[0].filename, "3_3_3_3_c.sql");
}

#[test]
fn generate_writes_the_base_tables_once() {
    let script = generate_plan(&vec!["-- other".to_string()]).unwrap();
    assert_eq!(script, gulfi::ingest::base_tables_migration());
    assert_eq!(generate_plan(&vec!["-- other".to_string(), script.to_string()]), None);
}

#[test]
fn run_steps_record_committed_migrations() {
    let pending = vec![migration("1_1_1_1_a.sql"), migration("2_2_2_2_b.sql")];
    let mut recorded = vec!["0_0_0_0_z.sql".to_string()];
    assert_eq!(record_outcome(&pending, &mut recorded, 0, true), RunStep::Next(1));
    assert_eq!(recorded, vec!["0_0_0_0_z.sql", "1_1_1_1_a.sql"]);
    assert_eq!(record_outcome(&pending, &mut recorded, 1, false), RunStep::Stopped);
    assert_eq!(recorded.len(), 2);
    assert_eq!(record_outcome(&pending, &mut recorded, 1, true), RunStep::Finished);
    assert_eq!(recorded.len(), 3);
}
